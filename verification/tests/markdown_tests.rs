use qwert::markdown::{
    html_attr_encode, is_external_url, is_scripted_url, make_math_block, make_math_inline, make_mermaid_block,
    render_markdown,
};

#[test]
fn gfm_table_renders_as_table_tag() {
    let md = "| A | B |\n|---|---|\n| 1 | 2 |\n";
    let html = render_markdown(md);
    assert!(html.contains("<table>"), "expected <table> in: {html}");
}

#[test]
fn task_list_renders_as_checkbox() {
    let md = "- [ ] todo\n- [x] done\n";
    let html = render_markdown(md);
    assert!(html.contains("<input") && html.contains(r#"type="checkbox""#), "expected checkbox input in: {html}");
}

#[test]
fn raw_script_tag_is_stripped() {
    let md = "hello\n<script>alert('xss')</script>\nworld";
    let html = render_markdown(md);
    assert!(!html.contains("<script>"), "script tag must not appear in: {html}");
    assert!(!html.contains("</script>"), "closing script tag must not appear in: {html}");
}

#[test]
fn raw_iframe_tag_is_stripped() {
    let md = "text\n<iframe src=\"evil\"></iframe>\nmore";
    let html = render_markdown(md);
    assert!(!html.contains("<iframe"), "iframe must not appear in: {html}");
}

#[test]
fn bold_renders_as_strong() {
    let html = render_markdown("**bold**");
    assert!(html.contains("<strong>bold</strong>"), "expected <strong>bold</strong> in: {html}");
}

#[test]
fn inline_math_produces_marker() {
    let html = render_markdown("Result: $x^2 + 1$.");
    assert!(html.contains(r#"class="math-inline""#), "expected math-inline span in: {html}");
    assert!(html.contains("data-math="), "expected data-math attribute in: {html}");
    assert!(!html.contains("$x^2"), "dollar-sign math must not appear raw in: {html}");
}

#[test]
fn inline_math_content_is_in_data_attr() {
    let html = render_markdown("$x$");
    assert!(html.contains(r#"data-math="x""#), "expected data-math=\"x\" in: {html}");
}

#[test]
fn display_math_produces_marker() {
    let html = render_markdown("$$\\int_0^1 x\\,dx$$");
    assert!(html.contains(r#"class="math-block""#), "expected math-block div in: {html}");
    assert!(html.contains("data-math="), "expected data-math attribute in: {html}");
}

#[test]
fn display_math_content_is_in_data_attr() {
    let html = render_markdown("$$E = mc^2$$");
    assert!(html.contains(r#"data-math="E = mc^2""#), "expected encoded content in: {html}");
}

#[test]
fn mermaid_block_produces_marker() {
    let md = "```mermaid\ngraph TD\n  A --> B\n```\n";
    let html = render_markdown(md);
    assert!(html.contains(r#"class="mermaid-block""#), "expected mermaid-block div in: {html}");
    assert!(html.contains("data-diagram="), "expected data-diagram attribute in: {html}");
    assert!(!html.contains("<pre>"), "pre tag must not appear in: {html}");
    assert!(!html.contains("<code>"), "code tag must not appear in: {html}");
}

#[test]
fn non_mermaid_code_block_renders_normally() {
    let md = "```rust\nfn main() {}\n```\n";
    let html = render_markdown(md);
    assert!(html.contains("<code"), "expected <code> for non-mermaid fenced block: {html}");
    assert!(!html.contains("mermaid-block"), "rust block must not be treated as mermaid: {html}");
}

#[test]
fn html_attr_encode_escapes_all_special_chars() {
    assert_eq!(html_attr_encode(r#"a&b"c<d>e'f"#), "a&amp;b&quot;c&lt;d&gt;e&#39;f");
}

#[test]
fn html_attr_encode_escapes_newlines() {
    assert_eq!(html_attr_encode("a\nb"), "a&#10;b");
    assert_eq!(html_attr_encode("a\r\nb"), "a&#13;&#10;b");
}

#[test]
fn math_content_with_angle_brackets_is_encoded() {
    let html = render_markdown("$a < b > c$");
    assert!(html.contains("&lt;"), "< must be encoded in: {html}");
    assert!(html.contains("&gt;"), "> must be encoded in: {html}");
    assert!(!html.contains("<b "), "raw < must not create tags in: {html}");
}

#[test]
fn raw_html_inside_paragraph_is_stripped() {
    let md = "para <span onclick=\"alert(1)\">text</span> end";
    let html = render_markdown(md);
    assert!(!html.contains("onclick"), "onclick must be stripped in: {html}");
}

#[test]
fn markers_have_exact_shape() {
    assert_eq!(make_math_inline("a<b"), r#"<span class="math-inline" data-math="a&lt;b"></span>"#);
    assert_eq!(make_math_block("x"), r#"<div class="math-block" data-math="x"></div>"#);
    assert_eq!(make_mermaid_block("A-->B\n"), r#"<div class="mermaid-block" data-diagram="A--&gt;B&#10;"></div>"#);
}

#[test]
fn unterminated_mermaid_block_still_becomes_marker() {
    let html = render_markdown("```mermaid\ngraph TD");
    assert!(html.contains(r#"class="mermaid-block""#), "{html}");
}

#[test]
fn javascript_link_is_disarmed() {
    let html = render_markdown("[x](javascript:alert(1))");
    assert!(!html.contains("javascript:"), "{html}");
    assert!(html.contains("<a>x</a>"), "{html}");
}

#[test]
fn javascript_link_in_other_case_is_disarmed() {
    let html = render_markdown("[x](JavaScript:alert(1))");
    assert!(!html.to_lowercase().contains("javascript:"), "{html}");
}

#[test]
fn javascript_autolink_is_disarmed() {
    let html = render_markdown("<javascript:alert(1)>");
    assert!(!html.contains("href"), "{html}");
}

#[test]
fn vbscript_link_is_disarmed() {
    let html = render_markdown("[x](vbscript:msgbox)");
    assert!(!html.contains("vbscript:"), "{html}");
}

#[test]
fn ordinary_link_keeps_its_href() {
    let html = render_markdown("[ok](https://example.com)");
    assert_eq!(html, "<p><a href=\"https://example.com\">ok</a></p>\n");
}

#[test]
fn external_image_is_not_fetched() {
    let html = render_markdown("![alt text](https://example.com/y.png)");
    assert!(!html.contains("<img"), "{html}");
    assert!(html.contains("alt text"), "{html}");
}

#[test]
fn network_path_image_is_not_fetched() {
    let html = render_markdown("![a](//cdn.example.com/y.png)");
    assert!(!html.contains("<img"), "{html}");
}

#[test]
fn local_image_is_kept() {
    let html = render_markdown("![a](img/y.png)");
    assert_eq!(html, "<p><img src=\"img/y.png\" alt=\"a\" /></p>\n");
}

#[test]
fn scripted_url_ignores_case_and_control_characters() {
    assert!(is_scripted_url("JAVA\tSCRIPT:alert(1)"));
    assert!(is_scripted_url(" javascript:x"));
    assert!(is_scripted_url("VBScript:x"));
    assert!(!is_scripted_url("https://example.com/javascript:x"));
    assert!(!is_scripted_url("notes/javascript.md"));
}

#[test]
fn external_url_is_a_scheme_or_network_path() {
    assert!(is_external_url("https://example.com/a.png"));
    assert!(is_external_url("//cdn/a.png"));
    assert!(is_external_url("data:image/png;base64,AAAA"));
    assert!(!is_external_url("img/a.png"));
    assert!(!is_external_url("./a:b.png"));
    assert!(!is_external_url("a.png?x=1:2"));
}
