use qwert::config::{duplicate_key_specs, is_valid_key_spec, keybindings_error, Config, KeybindingsConfig};

#[test]
fn default_values_match_spec() {
    let c = Config::default();
    assert!(c.general.restore_last_vault);
    assert_eq!(c.general.autosave_delay_ms, 3000);

    assert!(c.editor.show_line_numbers);
    assert!(c.editor.word_wrap);
    assert_eq!(c.editor.tab_size, 4);
    assert!(c.editor.use_spaces);
    assert!(!c.editor.vim_mode);

    assert_eq!(c.preview.default_view, "split");
    assert!(c.preview.sync_scroll);
    assert!(c.preview.render_mermaid);
    assert!(c.preview.render_math);
}

#[test]
fn sanitize_warn_invisible_chars_defaults_true() {
    let c = Config::default();
    assert!(c.sanitize.warn_invisible_chars);
}

#[test]
fn revision_defaults_are_increment_and_confirm() {
    let c = Config::default();
    assert_eq!(c.revision.naming, "increment");
    assert!(c.revision.confirm_before_execute);
    assert!(c.revision.excluded_dirs.is_empty());
}

#[test]
fn keybindings_default_values_match_spec() {
    let kb = KeybindingsConfig::default();
    assert_eq!(kb.save, "Ctrl+S");
    assert_eq!(kb.new_note, "Ctrl+N");
    assert_eq!(kb.command_palette, "Ctrl+P");
    assert_eq!(kb.full_search, "Ctrl+Shift+F");
    assert_eq!(kb.view_mode_toggle, "Ctrl+E");
    assert_eq!(kb.sidebar_toggle, "Ctrl+B");
    assert_eq!(kb.settings, "Ctrl+,");
}

#[test]
fn is_valid_key_spec_accepts_valid_specs() {
    assert!(is_valid_key_spec("Ctrl+S"));
    assert!(is_valid_key_spec("Ctrl+Shift+F"));
    assert!(is_valid_key_spec("Ctrl+,"));
    assert!(is_valid_key_spec("Ctrl+N"));
    assert!(is_valid_key_spec("Alt+F4"));
    assert!(is_valid_key_spec("Ctrl+Alt+Delete"));
}

#[test]
fn is_valid_key_spec_rejects_invalid_specs() {
    assert!(!is_valid_key_spec("S"));
    assert!(!is_valid_key_spec("Ctrl+"));
    assert!(!is_valid_key_spec(""));
    assert!(!is_valid_key_spec("Ctrl"));
    assert!(!is_valid_key_spec("Bad+S"));
}

#[test]
fn key_spec_edge_cases() {
    // The key part is trimmed; modifiers are compared exactly.
    assert!(!is_valid_key_spec("Ctrl+ "));
    assert!(is_valid_key_spec("Meta+ x "));
    assert!(!is_valid_key_spec("ctrl+S"));
    assert!(!is_valid_key_spec("Ctrl++"));
    assert!(!is_valid_key_spec("+S"));
}

#[test]
fn duplicate_key_specs_detects_dups() {
    let mut kb = KeybindingsConfig::default();
    kb.new_note = "Ctrl+S".to_owned();
    let dups = duplicate_key_specs(&kb);
    assert!(dups.iter().any(|d| d.eq_ignore_ascii_case("Ctrl+S")));
}

#[test]
fn duplicate_key_specs_none_for_defaults() {
    let kb = KeybindingsConfig::default();
    assert!(duplicate_key_specs(&kb).is_empty());
}

#[test]
fn duplicate_key_specs_ignore_case_and_list_each_once() {
    let mut kb = KeybindingsConfig::default();
    kb.new_note = "ctrl+s".to_owned();
    kb.command_palette = "CTRL+S".to_owned();
    let dups = duplicate_key_specs(&kb);
    assert_eq!(dups, vec!["ctrl+s".to_owned()]);
}

#[test]
fn keybindings_error_reports_the_first_invalid_spec() {
    let mut kb = KeybindingsConfig::default();
    assert_eq!(keybindings_error(&kb), None);
    kb.full_search = "F".into();
    kb.settings = "Hyper+X".into();
    assert_eq!(keybindings_error(&kb), Some("invalid key spec for full_search: \"F\"".to_string()));
}

#[test]
fn keybindings_error_lists_duplicates_joined() {
    let mut kb = KeybindingsConfig::default();
    kb.new_note = "Ctrl+s".into();
    kb.settings = "Ctrl+P".into();
    assert_eq!(keybindings_error(&kb), Some("duplicate key specs: Ctrl+s, Ctrl+P".to_string()));
}
