use qwert::cli::{
    apply_set, check_set_args, contrast_threshold_error, core_error_envelope, days_to_ymd, is_cli_mode,
    require_aa_error, resolve_naming, revision_needs_yes, set_reload, should_prompt, tsv_escape, tsv_row,
    yyyymmdd, ExitCode, OutputFormat, SetArgs,
};
use qwert::appearance::AppearanceConfig;
use qwert::error::CoreError;
use qwert::revision::NamingStyle;

// ── exit codes ───────────────────────────────────────────────────────────────

#[test]
fn values_match_spec() {
    assert_eq!(ExitCode::Success.as_i32(), 0);
    assert_eq!(ExitCode::General.as_i32(), 1);
    assert_eq!(ExitCode::Usage.as_i32(), 2);
    assert_eq!(ExitCode::NotFound.as_i32(), 3);
    assert_eq!(ExitCode::Conflict.as_i32(), 4);
    assert_eq!(ExitCode::Validation.as_i32(), 5);
}

#[test]
fn not_found_maps_to_3() {
    let e = CoreError::NotFound("missing.md".into());
    assert_eq!(ExitCode::of_error(&e), ExitCode::NotFound);
    assert_eq!(ExitCode::of_error(&e).as_i32(), 3);
}

#[test]
fn traversal_maps_to_5() {
    let e = CoreError::PathTraversal("../secret".into());
    assert_eq!(ExitCode::of_error(&e), ExitCode::Validation);
}

#[test]
fn conflict_maps_to_4() {
    let e = CoreError::AppearanceConflict("x".into());
    assert_eq!(ExitCode::of_error(&e), ExitCode::Conflict);
}

#[test]
fn io_maps_to_1() {
    let e = CoreError::Io { already_exists: false, message: "io".into() };
    assert_eq!(ExitCode::of_error(&e), ExitCode::General);
}

#[test]
fn io_already_exists_maps_to_4() {
    let e = CoreError::Io { already_exists: true, message: "exists".into() };
    assert_eq!(ExitCode::of_error(&e), ExitCode::Conflict);
}

#[test]
fn category_str_matches_spec() {
    assert_eq!(ExitCode::NotFound.category_str(), "not_found");
    assert_eq!(ExitCode::Validation.category_str(), "validation");
    assert_eq!(ExitCode::Conflict.category_str(), "conflict");
}

#[test]
fn invalid_utf8_maps_to_5() {
    let e = CoreError::InvalidUtf8 { byte_offset: 42 };
    assert_eq!(ExitCode::of_error(&e), ExitCode::Validation);
    assert_eq!(ExitCode::of_error(&e).as_i32(), 5);
}

#[test]
fn json_error_maps_to_1() {
    let e = CoreError::Json("bad".into());
    assert_eq!(ExitCode::of_error(&e).as_i32(), 1);
}

// ── error envelopes ──────────────────────────────────────────────────────────

#[test]
fn envelope_for_not_found_has_hint() {
    let (env, code) = core_error_envelope(&CoreError::NotFound("a.md".into()));
    assert_eq!(code, 3);
    assert_eq!(env.category, "not_found");
    assert_eq!(env.exit_code, 3);
    assert_eq!(env.message, "Not found: a.md");
    assert_eq!(env.next_step.as_deref(), Some("Run qwert with --vault <PATH> or cd into a vault"));
}

#[test]
fn envelope_for_invalid_utf8_names_offset_in_decimal_and_hex() {
    let (env, code) = core_error_envelope(&CoreError::InvalidUtf8 { byte_offset: 255 });
    assert_eq!(code, 5);
    assert_eq!(env.message, "Invalid UTF-8 at byte offset 255");
    assert_eq!(
        env.next_step.as_deref(),
        Some("The file contains invalid UTF-8 bytes at offset 255. Inspect with: xxd <file> | grep -A2 'ff'")
    );
}

#[test]
fn envelope_for_toml_error_has_no_hint() {
    let (env, code) = core_error_envelope(&CoreError::Toml("x".into()));
    assert_eq!(code, 5);
    assert_eq!(env.category, "validation");
    assert!(env.next_step.is_none());
}

// ── output formats and TSV ───────────────────────────────────────────────────

#[test]
fn format_variants_are_distinct() {
    assert_ne!(OutputFormat::Json, OutputFormat::Path);
    assert_ne!(OutputFormat::Raw, OutputFormat::Text);
    assert_ne!(OutputFormat::Json, OutputFormat::Raw);
    assert_ne!(OutputFormat::Tsv, OutputFormat::Json);
}

#[test]
fn tsv_escape_plain_string_unchanged() {
    assert_eq!(tsv_escape("hello world"), "hello world");
}

#[test]
fn tsv_escape_empty_string() {
    assert_eq!(tsv_escape(""), "");
}

#[test]
fn tsv_escape_tab_becomes_backslash_t() {
    assert_eq!(tsv_escape("a\tb"), r"a\tb");
}

#[test]
fn tsv_escape_newline_becomes_backslash_n() {
    assert_eq!(tsv_escape("a\nb"), r"a\nb");
}

#[test]
fn tsv_escape_carriage_return_becomes_backslash_r() {
    assert_eq!(tsv_escape("a\rb"), r"a\rb");
}

#[test]
fn tsv_escape_backslash_is_doubled() {
    assert_eq!(tsv_escape(r"a\b"), r"a\\b");
}

#[test]
fn tsv_escape_all_special_chars() {
    assert_eq!(tsv_escape("\\\t\n\r"), r"\\\t\n\r");
}

#[test]
fn tsv_row_single_field() {
    assert_eq!(tsv_row(&["path"]), "path");
}

#[test]
fn tsv_row_multiple_fields_joined_with_tab() {
    assert_eq!(tsv_row(&["path", "line", "snippet"]), "path\tline\tsnippet");
}

#[test]
fn tsv_row_escapes_embedded_tab_in_field() {
    assert_eq!(tsv_row(&["a\tb"]), r"a\tb");
}

#[test]
fn tsv_row_accepts_owned_strings() {
    let fields = vec!["alpha".to_owned(), "beta".to_owned()];
    let refs: Vec<&str> = fields.iter().map(|s| s.as_str()).collect();
    assert_eq!(tsv_row(&refs), "alpha\tbeta");
}

#[test]
fn tsv_row_empty_is_empty_line() {
    assert_eq!(tsv_row(&[]), "");
}

// ── mode switch ──────────────────────────────────────────────────────────────

fn args(v: &[&str]) -> Vec<String> {
    v.iter().map(|s| s.to_string()).collect()
}

#[test]
fn is_cli_mode_detects_file_subcommand() {
    assert!(is_cli_mode(&args(&["qwert", "file", "list"])));
}

#[test]
fn is_cli_mode_false_for_no_args() {
    assert!(!is_cli_mode(&args(&["qwert"])));
}

#[test]
fn is_cli_mode_false_for_tauri_args() {
    assert!(!is_cli_mode(&args(&["qwert", "--webview"])));
}

#[test]
fn is_cli_mode_true_for_version_flag() {
    assert!(is_cli_mode(&args(&["qwert", "-V"])));
    assert!(is_cli_mode(&args(&["qwert", "generate-man"])));
}

// ── note revision helpers ────────────────────────────────────────────────────

#[test]
fn should_prompt_tty_no_yes_confirm_true() {
    assert!(should_prompt(true, false, true));
}

#[test]
fn should_prompt_yes_flag_suppresses() {
    assert!(!should_prompt(true, true, true));
}

#[test]
fn should_prompt_non_tty_suppresses() {
    assert!(!should_prompt(false, false, true));
}

#[test]
fn should_prompt_confirm_cfg_false_suppresses() {
    assert!(!should_prompt(true, false, false));
}

#[test]
fn days_to_ymd_epoch() {
    assert_eq!(days_to_ymd(0), (1970, 1, 1));
}

#[test]
fn days_to_ymd_known_date() {
    let (y, m, d) = days_to_ymd(20611);
    assert_eq!(y, 2026);
    assert_eq!(m, 6);
    assert_eq!(d, 7);
}

#[test]
fn days_to_ymd_leap_day_and_year_end() {
    // 2000-02-29 is day 11016; 1999-12-31 is day 10956.
    assert_eq!(days_to_ymd(11016), (2000, 2, 29));
    assert_eq!(days_to_ymd(10956), (1999, 12, 31));
    assert_eq!(days_to_ymd(11017), (2000, 3, 1));
}

#[test]
fn today_yyyymmdd_has_8_digits() {
    let secs = std::time::SystemTime::now()
        .duration_since(std::time::UNIX_EPOCH)
        .map(|d| d.as_secs())
        .unwrap_or(0);
    let s = yyyymmdd((secs / 86400) as u32);
    assert_eq!(s.len(), 8, "expected YYYYMMDD: {s}");
    assert!(s.chars().all(|c| c.is_ascii_digit()), "must be digits: {s}");
}

#[test]
fn yyyymmdd_pads_month_and_day() {
    assert_eq!(yyyymmdd(0), "19700101");
    assert_eq!(yyyymmdd(20611), "20260607");
}

#[test]
fn resolve_naming_prefers_given_style() {
    assert_eq!(resolve_naming(Some(NamingStyle::Semver), "date").unwrap(), NamingStyle::Semver);
    assert_eq!(resolve_naming(None, "date").unwrap(), NamingStyle::Date);
}

#[test]
fn resolve_naming_rejects_unknown_configured_word() {
    let e = resolve_naming(None, "weekly").unwrap_err();
    assert_eq!(e.exit_code, 5);
    assert_eq!(e.message, "Unknown naming style: weekly");
    assert_eq!(e.next_step.as_deref(), Some("Use one of: increment | date | semver | manual"));
}

#[test]
fn revision_needs_yes_outside_terminal() {
    let e = revision_needs_yes(false, false).unwrap();
    assert_eq!(e.exit_code, 2);
    assert_eq!(e.category, "usage");
    assert!(revision_needs_yes(true, false).is_none());
    assert!(revision_needs_yes(false, true).is_none());
}

// ── appearance set ───────────────────────────────────────────────────────────

fn set_args(preset: Option<&str>, fg: Option<&str>, bg: Option<&str>, scope: &str) -> SetArgs {
    SetArgs {
        preset: preset.map(str::to_owned),
        fg: fg.map(str::to_owned),
        bg: bg.map(str::to_owned),
        require_aa: false,
        scope: scope.to_owned(),
        vault_root: "/vault".to_owned(),
        format: OutputFormat::Text,
    }
}

#[test]
fn set_rejects_unknown_scope() {
    let e = check_set_args(&set_args(Some("dark"), None, None, "team")).unwrap();
    assert_eq!(e.exit_code, 5);
    assert_eq!(e.message, "unknown --scope 'team'; valid values: vault, global");
}

#[test]
fn set_rejects_preset_with_colors() {
    let e = check_set_args(&set_args(Some("dark"), Some("#000"), None, "vault")).unwrap();
    assert_eq!(e.message, "preset and fg/bg are mutually exclusive");
}

#[test]
fn set_rejects_unpaired_colors() {
    let e = check_set_args(&set_args(None, Some("#000"), None, "global")).unwrap();
    assert_eq!(e.message, "fg and bg must both be specified together (F24)");
    assert_eq!(e.next_step.as_deref(), Some("Provide both --fg and --bg"));
}

#[test]
fn set_rejects_unknown_preset() {
    let e = check_set_args(&set_args(Some("neon"), None, None, "vault")).unwrap();
    assert_eq!(e.message, "unknown preset: 'neon'");
    assert_eq!(e.next_step.as_deref(), Some("Valid presets: default, high-contrast, dark, dark-high-contrast"));
}

#[test]
fn set_accepts_valid_requests() {
    assert!(check_set_args(&set_args(Some("dark"), None, None, "vault")).is_none());
    assert!(check_set_args(&set_args(None, Some("#000"), Some("#fff"), "global")).is_none());
    assert!(check_set_args(&set_args(None, None, None, "vault")).is_none());
}

#[test]
fn apply_set_preset_clears_custom_colors() {
    let mut c = AppearanceConfig::default();
    c.color.fg = Some("#111".into());
    c.color.bg = Some("#eee".into());
    apply_set(&mut c, &set_args(Some("dark"), None, None, "vault"));
    assert_eq!(c.color.preset.as_deref(), Some("dark"));
    assert!(c.color.fg.is_none() && c.color.bg.is_none());
}

#[test]
fn apply_set_colors_clear_preset_and_keep_text() {
    let mut c = AppearanceConfig::default();
    c.color.preset = Some("dark".into());
    c.text.font_size = 20;
    apply_set(&mut c, &set_args(None, Some("#111"), Some("#eee"), "vault"));
    assert!(c.color.preset.is_none());
    assert_eq!(c.color.fg.as_deref(), Some("#111"));
    assert_eq!(c.color.bg.as_deref(), Some("#eee"));
    assert_eq!(c.text.font_size, 20);
}

#[test]
fn set_reload_depends_on_scope() {
    assert_eq!(set_reload("vault"), "hot");
    assert_eq!(set_reload("global"), "restart");
}

#[test]
fn contrast_errors_name_threshold() {
    let e = contrast_threshold_error("3.20", true);
    assert_eq!(e.message, "contrast ratio 3.20:1 is below WCAG AAA threshold (7.0)");
    let e = contrast_threshold_error("3.20", false);
    assert_eq!(e.message, "contrast ratio 3.20:1 is below WCAG AA threshold (4.5)");
    let e = require_aa_error("2.00");
    assert_eq!(e.message, "contrast ratio 2.00:1 does not meet WCAG AA (≥4.5)");
}

#[test]
fn already_exists_error_maps_to_conflict() {
    let e = CoreError::Io { already_exists: true, message: "target exists".into() };
    assert_eq!(ExitCode::of_error(&e), ExitCode::Conflict);
    assert_eq!(ExitCode::of_error(&e).as_i32(), 4);
}

#[test]
fn tsv_row_splits_back_into_its_fields() {
    let row = tsv_row(&["a\tb", "c\nd", "e\\f", ""]);
    let parts: Vec<&str> = row.split('\t').collect();
    assert_eq!(parts, vec![r"a\tb", r"c\nd", r"e\\f", ""]);
    assert!(!row.contains('\n'));
}
