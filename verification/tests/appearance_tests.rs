use qwert::appearance::{
    allowed_presets, debounce_trailing, fallback_resolution, format_appearance_warning, is_allowed_preset,
    is_dangerous, is_valid_color, is_valid_dimension, is_valid_font_family, preset_fg_bg, resolve_appearance_scope,
    status_colors, to_css_vars, validate_appearance_config, AppearanceConfig, AppearanceScope, ColorConfig,
    HighlightConfig, TextConfig, VaultAppearance,
};
use qwert::appearance::{parse_contrast_colors, parse_hex_color};
use qwert::error::CoreError;
use qwert::paths::join;

fn config_with_preset(preset: &str) -> AppearanceConfig {
    let mut c = AppearanceConfig::default();
    c.color.preset = Some(preset.to_owned());
    c
}

fn config_with_fg_bg(fg: &str, bg: &str) -> AppearanceConfig {
    let mut c = AppearanceConfig::default();
    c.color.fg = Some(fg.to_owned());
    c.color.bg = Some(bg.to_owned());
    c
}

fn vault_appearance_path(root: &str) -> String {
    qwert::appearance::vault_appearance_path(root)
}

#[test]
fn dangerous_value_is_skipped() {
    let mut config = AppearanceConfig::default();
    config.color.fg = Some("url(http://evil.com)".to_owned());
    config.color.bg = Some("#ffffff".to_owned());
    let vars = to_css_vars(&config).unwrap();
    assert!(!vars.contains_key("--qw-fg"), "url() must be rejected");
    assert!(vars.contains_key("--qw-bg"));
}

#[test]
fn javascript_in_color_is_skipped() {
    let mut config = AppearanceConfig::default();
    config.color.fg = Some("javascript:alert(1)".to_owned());
    let vars = to_css_vars(&config).unwrap();
    assert!(!vars.contains_key("--qw-fg"));
}

#[test]
fn expression_in_color_is_skipped() {
    let mut config = AppearanceConfig::default();
    config.color.fg = Some("expression(alert(1))".to_owned());
    let vars = to_css_vars(&config).unwrap();
    assert!(!vars.contains_key("--qw-fg"));
}

#[test]
fn invalid_font_family_is_skipped() {
    let mut config = AppearanceConfig::default();
    config.text.font_family = "url(evil)".to_owned();
    let vars = to_css_vars(&config).unwrap();
    assert!(!vars.contains_key("--qw-font-family"));
}

#[test]
fn valid_hex_color_passes() {
    let config = config_with_fg_bg("#1a1a1a", "#ffffff");
    let vars = to_css_vars(&config).unwrap();
    assert_eq!(vars.get("--qw-fg").map(|s| s.as_str()), Some("#1a1a1a"));
}

#[test]
fn preset_dark_returns_data_theme_key() {
    let config = config_with_preset("dark");
    let vars = to_css_vars(&config).unwrap();
    assert_eq!(vars.get("data-theme").map(|s| s.as_str()), Some("dark"));
    assert!(!vars.contains_key("--qw-preset"));
}

#[test]
fn invalid_preset_is_not_emitted() {
    let config = config_with_preset("neon");
    let vars = to_css_vars(&config).unwrap();
    assert!(!vars.contains_key("data-theme"));
    assert!(!vars.contains_key("--qw-preset"));
}

#[test]
fn preset_and_fg_conflict_returns_error() {
    let mut config = config_with_preset("dark");
    config.color.fg = Some("#000000".to_owned());
    assert!(to_css_vars(&config).is_err());
}

#[test]
fn default_text_config_values() {
    let t = TextConfig::default();
    assert_eq!(t.font_size, 16);
    assert_eq!(t.editor_max_width, 72);
    assert_eq!(t.line_height, "1.6");
    assert_eq!(t.font_family, "system-ui, sans-serif");
}

#[test]
fn default_highlight_enabled() {
    assert!(HighlightConfig::default().enabled);
}

#[test]
fn font_size_emitted_as_px() {
    let mut config = AppearanceConfig::default();
    config.text.font_size = 18;
    let vars = to_css_vars(&config).unwrap();
    assert_eq!(vars.get("--qw-font-size").map(|s| s.as_str()), Some("18px"));
}

#[test]
fn all_presets_accepted() {
    for preset in allowed_presets() {
        let config = config_with_preset(preset);
        let vars = to_css_vars(&config).unwrap();
        assert_eq!(vars.get("data-theme").map(|s| s.as_str()), Some(preset));
    }
}

#[test]
fn default_config_css_vars_are_exact() {
    let vars = to_css_vars(&AppearanceConfig::default()).unwrap();
    let got: Vec<(&str, &str)> = vars.entries.iter().map(|(k, v)| (k.as_str(), v.as_str())).collect();
    assert_eq!(
        got,
        vec![
            ("--qw-font-size", "16px"),
            ("--qw-font-family", "system-ui, sans-serif"),
            ("--qw-line-height", "1.6"),
            ("--qw-letter-spacing", "0em"),
            ("--qw-word-spacing", "0em"),
            ("--qw-editor-max-width", "72ch"),
        ]
    );
}

#[test]
fn advanced_colors_are_emitted_when_valid() {
    let mut config = AppearanceConfig::default();
    config.color.advanced.cursor = Some("rgb(1, 2, 3)".into());
    config.color.advanced.cm_link = Some("#12345".into());
    let vars = to_css_vars(&config).unwrap();
    assert_eq!(vars.get("--qw-cursor").map(|s| s.as_str()), Some("rgb(1, 2, 3)"));
    assert!(!vars.contains_key("--qw-cm-link"));
}

#[test]
fn vault_scope_is_used_exclusively_no_merge() {
    let vault = config_with_preset("dark");
    let global = config_with_fg_bg("#111111", "#eeeeee");
    let (resolved, scope) = resolve_appearance_scope(Some(vault), global);
    assert_eq!(scope, AppearanceScope::Vault);
    assert_eq!(resolved.color.preset.as_deref(), Some("dark"));
    assert_eq!(resolved.color.fg, None);
    assert_eq!(resolved.color.bg, None);
}

#[test]
fn global_scope_used_when_no_vault() {
    let global = config_with_fg_bg("#111111", "#eeeeee");
    let (resolved, scope) = resolve_appearance_scope(None, global);
    assert_eq!(scope, AppearanceScope::Global);
    assert_eq!(resolved.color.fg.as_deref(), Some("#111111"));
    assert_eq!(resolved.color.bg.as_deref(), Some("#eeeeee"));
}

#[test]
fn appearance_scope_as_str() {
    assert_eq!(AppearanceScope::Global.as_str(), "global");
    assert_eq!(AppearanceScope::Vault.as_str(), "vault");
    assert_eq!(AppearanceScope::default(), AppearanceScope::Global);
}

#[test]
fn vault_appearance_path_is_dot_qwert() {
    let p = vault_appearance_path("/vault");
    assert!(p.ends_with(".qwert/appearance.toml"), "{p:?}");
    assert_eq!(p, "/vault/.qwert/appearance.toml");
    assert_eq!(vault_appearance_path("/vault/"), "/vault/.qwert/appearance.toml");
    assert_eq!(join("", "a.md"), "a.md");
}

#[test]
fn debounce_coalesces_a_burst_into_one_fire() {
    let events = [0, 50, 120, 200, 280];
    let fires = debounce_trailing(&events, 300);
    assert_eq!(fires, vec![280 + 300], "burst must coalesce to one fire");
}

#[test]
fn debounce_separates_bursts_beyond_the_window() {
    let events = [0, 100, 700, 750];
    let fires = debounce_trailing(&events, 300);
    assert_eq!(fires, vec![100 + 300, 750 + 300]);
}

#[test]
fn debounce_single_event_fires_once() {
    assert_eq!(debounce_trailing(&[42], 300), vec![342]);
}

#[test]
fn debounce_no_events_no_fire() {
    assert!(debounce_trailing(&[], 300).is_empty());
}

#[test]
fn debounce_gap_exactly_window_stays_in_burst() {
    let events = [0, 300, 600];
    let fires = debounce_trailing(&events, 300);
    assert_eq!(fires, vec![600 + 300]);
}

#[test]
fn debounce_out_of_order_events_use_saturating_gap() {
    // A later timestamp that is smaller gives a zero gap: same burst.
    assert_eq!(debounce_trailing(&[500, 100], 300), vec![400]);
}

#[test]
fn format_warning_names_conflicting_keys() {
    let err = CoreError::AppearanceConflict("preset and fg/bg cannot be set at the same time".to_owned());
    let w = format_appearance_warning(&err);
    assert!(w.contains("preset"), "{w}");
    assert!(w.contains("fg") || w.contains("bg"), "{w}");
}

#[test]
fn conflict_warning_text_is_fixed() {
    let w = format_appearance_warning(&CoreError::AppearanceConflict("x".into()));
    assert_eq!(w, "appearance.toml conflict: conflicting keys preset, fg/bg — remove one");
}

#[test]
fn format_warning_keeps_parse_message() {
    let w = format_appearance_warning(&CoreError::Toml("expected `=`, line 1, column 9".into()));
    assert_eq!(w, "appearance.toml parse error: expected `=`, line 1, column 9");
    let w = format_appearance_warning(&CoreError::NotFound("x".into()));
    assert_eq!(w, "appearance error: Not found: x");
}

#[test]
fn conflicting_vault_config_falls_back_to_global() {
    let mut vault = config_with_preset("dark");
    vault.color.fg = Some("#000".into());
    let global = config_with_fg_bg("#111111", "#eeeeee");
    let r = fallback_resolution(VaultAppearance::Loaded(vault), global);
    assert_eq!(r.scope, AppearanceScope::Global);
    assert_eq!(r.config.color.fg.as_deref(), Some("#111111"));
    assert!(r.warning.unwrap().contains("conflict"));
}

#[test]
fn syntax_error_falls_back_with_parse_warning() {
    let r = fallback_resolution(VaultAppearance::Failed(CoreError::Toml("bad".into())), AppearanceConfig::default());
    assert_eq!(r.scope, AppearanceScope::Global);
    assert!(r.warning.unwrap().contains("parse error"));
}

#[test]
fn usable_vault_config_and_absent_file_give_no_warning() {
    let r = fallback_resolution(VaultAppearance::Loaded(config_with_preset("dark")), AppearanceConfig::default());
    assert_eq!(r.scope, AppearanceScope::Vault);
    assert!(r.warning.is_none());
    let r = fallback_resolution(VaultAppearance::Absent, AppearanceConfig::default());
    assert_eq!(r.scope, AppearanceScope::Global);
    assert!(r.warning.is_none());
}

#[test]
fn validate_detects_conflict_only_with_preset() {
    assert!(validate_appearance_config(&config_with_fg_bg("#000", "#fff")).is_ok());
    let mut c = config_with_preset("dark");
    c.color.bg = Some("#fff".into());
    assert_eq!(
        validate_appearance_config(&c),
        Err(CoreError::AppearanceConflict("preset and fg/bg cannot be set at the same time".into()))
    );
}

#[test]
fn preset_fg_bg_returns_correct_colors() {
    assert_eq!(preset_fg_bg("default"), Some(("#1a1a1a", "#ffffff")));
    assert_eq!(preset_fg_bg("high-contrast"), Some(("#000000", "#ffffff")));
    assert_eq!(preset_fg_bg("dark"), Some(("#e5e7eb", "#1f2937")));
    assert_eq!(preset_fg_bg("dark-high-contrast"), Some(("#ffffff", "#000000")));
}

#[test]
fn preset_fg_bg_returns_none_for_unknown() {
    assert_eq!(preset_fg_bg("neon"), None);
    assert_eq!(preset_fg_bg(""), None);
}

#[test]
fn status_colors_use_preset_or_custom() {
    let c = config_with_preset("dark");
    assert_eq!(status_colors(&c.color), (Some("#e5e7eb".into()), Some("#1f2937".into())));
    let c = config_with_preset("neon");
    assert_eq!(status_colors(&c.color), (None, None));
    let c = config_with_fg_bg("#123456", "#abcdef");
    assert_eq!(status_colors(&c.color), (Some("#123456".into()), Some("#abcdef".into())));
    let c = ColorConfig::default();
    assert_eq!(status_colors(&c), (None, None));
}

#[test]
fn color_validation_rules() {
    assert!(is_valid_color("#abc"));
    assert!(is_valid_color("  #A0B1C2 "));
    assert!(!is_valid_color("#abcd"));
    assert!(!is_valid_color("#ggg"));
    assert!(is_valid_color("rgb(0,0,0)"));
    assert!(is_valid_color("hsl(1, 2%, 3%)"));
    assert!(!is_valid_color("rgb(0,0,0"));
    assert!(!is_valid_color("red"));
    assert!(!is_valid_color("rgb(@)"));
}

#[test]
fn dimension_validation_rules() {
    assert!(is_valid_dimension("16px"));
    assert!(is_valid_dimension("1.5em"));
    assert!(is_valid_dimension("72ch"));
    assert!(is_valid_dimension("50%"));
    assert!(is_valid_dimension("1.6"));
    assert!(is_valid_dimension("-0.5em"));
    assert!(is_valid_dimension("1e3px"));
    assert!(is_valid_dimension("inf"));
    assert!(is_valid_dimension(".5"));
    assert!(is_valid_dimension("5."));
    // `em` is tried before `rem`, so `1rem` leaves `1r`, which is no number.
    assert!(!is_valid_dimension("1rem"));
    assert!(!is_valid_dimension("px"));
    assert!(!is_valid_dimension("1e"));
    assert!(!is_valid_dimension("."));
    assert!(!is_valid_dimension("{1}px"));
}

#[test]
fn font_family_validation_rules() {
    assert!(is_valid_font_family("system-ui, sans-serif"));
    assert!(!is_valid_font_family("\"Fira Code\""));
    assert!(!is_valid_font_family("a;b"));
}

#[test]
fn dangerous_patterns_ignore_case() {
    assert!(is_dangerous("URL(x)"));
    assert!(is_dangerous("@Import"));
    assert!(!is_dangerous("#ffffff"));
    assert!(is_allowed_preset("high-contrast"));
    assert!(!is_allowed_preset("High-Contrast"));
}

#[test]
fn resolve_appearance_falls_back_to_global_scope_without_vault_file() {
    // An empty vault has no appearance file: the global config is used.
    let (_resolved, scope) = resolve_appearance_scope(None, AppearanceConfig::default());
    assert_eq!(scope, AppearanceScope::Global);
}

#[test]
fn no_vault_file_uses_global_no_warning() {
    let res = fallback_resolution(VaultAppearance::Absent, AppearanceConfig::default());
    assert_eq!(res.scope, AppearanceScope::Global);
    assert!(res.warning.is_none());
}

#[test]
fn contrast_invalid_fg_returns_err() {
    assert!(parse_contrast_colors("notacolor", "#ffffff").is_err());
}

#[test]
fn contrast_invalid_bg_rgb_syntax_returns_err() {
    // Only hex is supported for contrast; rgb() is rejected
    assert!(parse_contrast_colors("#000000", "rgb(0,0,0)").is_err());
}

#[test]
fn hex_colors_parse_long_and_short_forms() {
    assert_eq!(parse_hex_color("#1a2B3c"), Some((0x1a, 0x2b, 0x3c)));
    assert_eq!(parse_hex_color("  #fff "), Some((255, 255, 255)));
    assert_eq!(parse_hex_color("#0a5"), Some((0x00, 0xaa, 0x55)));
    assert_eq!(parse_hex_color("#12345"), None);
    assert_eq!(parse_hex_color("123456"), None);
    assert_eq!(parse_hex_color("#gg0000"), None);
    // a sign before a single digit reads as that digit
    assert_eq!(parse_hex_color("#+f0000"), Some((15, 0, 0)));
    assert_eq!(parse_hex_color("#+ff"), None);
}

#[test]
fn contrast_colors_report_the_failing_side() {
    assert_eq!(parse_contrast_colors("#000", "#ffffff").unwrap(), ((0, 0, 0), (255, 255, 255)));
    match parse_contrast_colors("nope", "also-bad") {
        Err(CoreError::AppearanceValidation(m)) => assert_eq!(m, "invalid hex color for fg: nope"),
        other => panic!("unexpected {other:?}"),
    }
    match parse_contrast_colors("#000", "also-bad") {
        Err(CoreError::AppearanceValidation(m)) => assert_eq!(m, "invalid hex color for bg: also-bad"),
        other => panic!("unexpected {other:?}"),
    }
}

#[test]
fn every_css_value_passes_the_gate() {
    let mut c = AppearanceConfig::default();
    c.color.fg = Some("url(http://evil)".into());
    c.color.bg = Some("#000".into());
    c.color.advanced.cm_keyword = Some("rgb(1,2,3)".into());
    c.color.advanced.cursor = Some("<script>".into());
    c.text.font_family = "Inter, {evil}".into();
    c.text.line_height = "expression(1)".into();
    let vars = to_css_vars(&c).unwrap();
    for (k, v) in &vars.entries {
        assert!(k == "data-theme" && is_allowed_preset(v) || !is_dangerous(v), "{k} = {v}");
    }
    assert!(!vars.contains_key("--qw-fg"));
    assert!(!vars.contains_key("--qw-cursor"));
    assert!(!vars.contains_key("--qw-font-family"));
    assert!(!vars.contains_key("--qw-line-height"));
    assert_eq!(vars.get("--qw-bg").map(String::as_str), Some("#000"));
    assert_eq!(vars.get("--qw-cm-keyword").map(String::as_str), Some("rgb(1,2,3)"));
}
