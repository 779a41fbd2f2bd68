use qwert::sanitize::{detect_invisible_chars, InvisibleCharCategory};

#[test]
fn detects_unicode_tag() {
    let content = "normal \u{E0001} text";
    let findings = detect_invisible_chars(content);
    assert_eq!(findings.len(), 1);
    assert_eq!(findings[0].category, InvisibleCharCategory::UnicodeTag);
    assert_eq!(findings[0].char_value, '\u{E0001}');
}

#[test]
fn detects_unicode_tag_boundary() {
    let findings_start = detect_invisible_chars("\u{E0000}");
    let findings_end = detect_invisible_chars("\u{E007F}");
    assert_eq!(findings_start[0].category, InvisibleCharCategory::UnicodeTag);
    assert_eq!(findings_end[0].category, InvisibleCharCategory::UnicodeTag);
}

#[test]
fn detects_null_byte() {
    let content = "before\x00after";
    let findings = detect_invisible_chars(content);
    assert_eq!(findings.len(), 1);
    assert_eq!(findings[0].category, InvisibleCharCategory::NullByte);
    assert_eq!(findings[0].char_value, '\0');
}

#[test]
fn detects_c0_control_backspace() {
    let content = "text\x08more";
    let findings = detect_invisible_chars(content);
    assert_eq!(findings.len(), 1);
    assert_eq!(findings[0].category, InvisibleCharCategory::C0Control);
}

#[test]
fn detects_c0_control_esc() {
    let content = "\x1Bterm";
    let findings = detect_invisible_chars(content);
    assert_eq!(findings.len(), 1);
    assert_eq!(findings[0].category, InvisibleCharCategory::C0Control);
}

#[test]
fn detects_c1_control() {
    let content = "\u{0080}data";
    let findings = detect_invisible_chars(content);
    assert_eq!(findings.len(), 1);
    assert_eq!(findings[0].category, InvisibleCharCategory::C1Control);
}

#[test]
fn detects_c1_control_boundary() {
    let findings = detect_invisible_chars("\u{009F}");
    assert_eq!(findings[0].category, InvisibleCharCategory::C1Control);
    assert!(detect_invisible_chars("\u{00A0}").is_empty());
}

#[test]
fn tab_not_detected() {
    assert!(detect_invisible_chars("\there").is_empty());
}

#[test]
fn lf_not_detected() {
    assert!(detect_invisible_chars("line1\nline2").is_empty());
}

#[test]
fn cr_not_detected() {
    assert!(detect_invisible_chars("text\r\nmore").is_empty());
}

#[test]
fn normal_ascii_not_detected() {
    assert!(detect_invisible_chars("Hello, world! 123").is_empty());
}

#[test]
fn multibyte_unicode_not_detected() {
    assert!(detect_invisible_chars("こんにちは 🎉").is_empty());
}

#[test]
fn sanitize_line_and_column_are_correct() {
    let content = "clean\nnote\x08body";
    let findings = detect_invisible_chars(content);
    assert_eq!(findings.len(), 1);
    assert_eq!(findings[0].line, 2);
    assert_eq!(findings[0].column, 5);
}

#[test]
fn multiple_findings_same_line() {
    let content = "\x01hello\x02world";
    let findings = detect_invisible_chars(content);
    assert_eq!(findings.len(), 2);
    assert_eq!(findings[0].column, 1);
    assert_eq!(findings[1].column, 7);
}

#[test]
fn empty_content_returns_empty() {
    assert!(detect_invisible_chars("").is_empty());
}

#[test]
fn multibyte_char_column_counts_chars_not_bytes() {
    let findings = detect_invisible_chars("こん\x08");
    assert_eq!(findings.len(), 1);
    assert_eq!(findings[0].column, 3);
}

#[test]
fn char_hex_is_padded_uppercase() {
    let f = &detect_invisible_chars("a\u{1b}")[0];
    assert_eq!(f.char_hex(), "U+001B");
    assert_eq!(f.category_str(), "C0Control");
    let g = &detect_invisible_chars("\u{E007F}")[0];
    assert_eq!(g.char_hex(), "U+E007F");
    assert_eq!(g.category_str(), "UnicodeTag");
    assert_eq!(detect_invisible_chars("\0")[0].category_str(), "NullByte");
    assert_eq!(detect_invisible_chars("\u{85}")[0].category_str(), "C1Control");
}

#[test]
fn lone_cr_inside_line_counts_as_column() {
    // A CR that is not part of CRLF stays inside the line.
    let f = detect_invisible_chars("a\rb\x07");
    assert_eq!(f.len(), 1);
    assert_eq!(f[0].line, 1);
    assert_eq!(f[0].column, 4);
}

#[test]
fn findings_report_every_category_in_order() {
    let f = detect_invisible_chars("\u{E0041}x\n\0\x7f\u{9b}\x1f");
    let cats: Vec<InvisibleCharCategory> = f.iter().map(|x| x.category).collect();
    assert_eq!(
        cats,
        vec![
            InvisibleCharCategory::UnicodeTag,
            InvisibleCharCategory::NullByte,
            InvisibleCharCategory::C1Control,
            InvisibleCharCategory::C0Control
        ]
    );
    assert_eq!((f[1].line, f[1].column), (2, 1));
    assert_eq!((f[3].line, f[3].column), (2, 4));
}
