use qwert::link_index::{extract_wikilinks, normalize_name, replace_wikilinks, same_note};

#[test]
fn codefence_content_not_extracted() {
    let md = "before\n```\n[[X]] in fence\n```\nafter [[Y]]\n";
    let links = extract_wikilinks(md);
    assert!(links.iter().all(|l| l.target != "X"), "X must be excluded: {links:?}");
    assert!(links.iter().any(|l| l.target == "Y"), "Y must be present: {links:?}");
}

#[test]
fn indented_code_block_not_extracted() {
    let md = "text\n\n    [[X]] indented\n\n[[Y]] normal\n";
    let links = extract_wikilinks(md);
    assert!(links.iter().all(|l| l.target != "X"), "X must be excluded: {links:?}");
    assert!(links.iter().any(|l| l.target == "Y"), "Y must be present: {links:?}");
}

#[test]
fn inline_code_span_not_extracted() {
    let md = "use `[[X]]` literally but link [[Y]]\n";
    let links = extract_wikilinks(md);
    assert!(links.iter().all(|l| l.target != "X"), "X must be excluded: {links:?}");
    assert!(links.iter().any(|l| l.target == "Y"), "Y must be present: {links:?}");
}

#[test]
fn inline_code_does_not_break_fence_or_text() {
    let md = "intro `code`\n```\n[[X]] in fence\n```\nafter [[Y]]\n";
    let links = extract_wikilinks(md);
    assert!(links.iter().all(|l| l.target != "X"), "X must be excluded: {links:?}");
    assert!(links.iter().any(|l| l.target == "Y"), "Y must be present: {links:?}");
}

#[test]
fn html_comment_not_extracted() {
    let md = "before <!-- [[X]] --> after [[Y]]\n";
    let links = extract_wikilinks(md);
    assert!(links.iter().all(|l| l.target != "X"), "X must be excluded: {links:?}");
    assert!(links.iter().any(|l| l.target == "Y"), "Y must be present: {links:?}");
}

#[test]
fn multiline_html_comment_not_extracted() {
    let md = "<!--\n[[X]] in multiline comment\n-->\n[[Y]] outside\n";
    let links = extract_wikilinks(md);
    assert!(links.iter().all(|l| l.target != "X"), "X must be excluded: {links:?}");
    assert!(links.iter().any(|l| l.target == "Y"), "Y must be present: {links:?}");
}

#[test]
fn frontmatter_not_extracted() {
    let md = "---\ntarget: [[X]]\n---\n\n[[Y]] in body\n";
    let links = extract_wikilinks(md);
    assert!(links.iter().all(|l| l.target != "X"), "X must be excluded: {links:?}");
    assert!(links.iter().any(|l| l.target == "Y"), "Y must be present: {links:?}");
}

#[test]
fn frontmatter_closed_by_dots() {
    let md = "---\nkey: value\n...\n\n[[Y]] in body\n";
    let links = extract_wikilinks(md);
    assert!(links.iter().any(|l| l.target == "Y"));
}

#[test]
fn plain_link_parsed() {
    let links = extract_wikilinks("[[A]]\n");
    assert_eq!(links.len(), 1);
    assert_eq!(links[0].target, "A");
    assert_eq!(links[0].heading, None);
    assert_eq!(links[0].display, None);
    assert!(!links[0].embed);
}

#[test]
fn aliased_link_parsed() {
    let links = extract_wikilinks("[[A|display text]]\n");
    assert_eq!(links.len(), 1);
    assert_eq!(links[0].target, "A");
    assert_eq!(links[0].display, Some("display text".into()));
    assert_eq!(links[0].heading, None);
}

#[test]
fn heading_link_parsed() {
    let links = extract_wikilinks("[[A#section]]\n");
    assert_eq!(links.len(), 1);
    assert_eq!(links[0].target, "A");
    assert_eq!(links[0].heading, Some("section".into()));
    assert_eq!(links[0].display, None);
}

#[test]
fn heading_and_display_link_parsed() {
    let links = extract_wikilinks("[[A#section|label]]\n");
    assert_eq!(links.len(), 1);
    assert_eq!(links[0].target, "A");
    assert_eq!(links[0].heading, Some("section".into()));
    assert_eq!(links[0].display, Some("label".into()));
}

#[test]
fn embed_link_parsed() {
    let links = extract_wikilinks("![[A]]\n");
    assert_eq!(links.len(), 1);
    assert_eq!(links[0].target, "A");
    assert!(links[0].embed);
}

#[test]
fn forward_match_is_distinct() {
    let links = extract_wikilinks("[[A]] [[AB]]\n");
    assert_eq!(links.len(), 2);
    let targets: Vec<&str> = links.iter().map(|l| l.target.as_str()).collect();
    assert!(targets.contains(&"A"));
    assert!(targets.contains(&"AB"));
    assert_ne!(links[0].target, links[1].target);
}

#[test]
fn link_index_line_and_column_are_correct() {
    let md = "line1\nline2 [[A]]\nline3\n";
    let links = extract_wikilinks(md);
    assert_eq!(links.len(), 1);
    assert_eq!(links[0].line, 2);
    assert_eq!(links[0].column, 7);
}

#[test]
fn case_insensitive_match() {
    assert!(same_note("AUTH", "auth"));
    assert!(same_note("Auth", "auth"));
}

#[test]
fn nfc_nfd_match() {
    let nfc = "\u{00e9}";
    let nfd = "e\u{0301}";
    assert_eq!(normalize_name(nfc), normalize_name(nfd));
    assert!(same_note(nfc, nfd));
}

#[test]
fn replace_skips_inline_code_span() {
    let md = "rename `[[A]]` but link [[A]] here\n";
    let out = replace_wikilinks(md, "A", "B");
    assert_eq!(out, "rename `[[A]]` but link [[B]] here\n");
}

#[test]
fn replace_wikilinks_plain() {
    let out = replace_wikilinks("See [[auth]] here.", "auth", "auth_2");
    assert_eq!(out, "See [[auth_2]] here.");
}

#[test]
fn replace_wikilinks_embed() {
    let out = replace_wikilinks("![[auth]]", "auth", "auth_2");
    assert_eq!(out, "![[auth_2]]");
}

#[test]
fn replace_wikilinks_heading() {
    let out = replace_wikilinks("[[auth#section]]", "auth", "auth_2");
    assert_eq!(out, "[[auth_2#section]]");
}

#[test]
fn replace_wikilinks_display() {
    let out = replace_wikilinks("[[auth|Auth Doc]]", "auth", "auth_2");
    assert_eq!(out, "[[auth_2|Auth Doc]]");
}

#[test]
fn replace_wikilinks_heading_and_display() {
    let out = replace_wikilinks("[[auth#sec|label]]", "auth", "auth_2");
    assert_eq!(out, "[[auth_2#sec|label]]");
}

#[test]
fn replace_wikilinks_no_forward_match() {
    let out = replace_wikilinks("[[authz]] and [[auth]]", "auth", "auth_2");
    assert_eq!(out, "[[authz]] and [[auth_2]]");
}

#[test]
fn replace_wikilinks_skips_code_block() {
    let md = "```\n[[auth]] in fence\n```\n[[auth]] outside\n";
    let out = replace_wikilinks(md, "auth", "auth_2");
    assert!(out.contains("[[auth]] in fence"), "inside fence must be untouched");
    assert!(out.contains("[[auth_2]] outside"), "outside fence must be updated");
}

#[test]
fn replace_wikilinks_skips_html_comment() {
    let md = "<!-- [[auth]] --> [[auth]] outside";
    let out = replace_wikilinks(md, "auth", "auth_2");
    assert!(out.contains("<!-- [[auth]] -->"), "comment must be untouched");
    assert!(out.contains("[[auth_2]] outside"));
}

#[test]
fn replace_wikilinks_skips_frontmatter() {
    let md = "---\ntarget: [[auth]]\n---\n[[auth]] in body\n";
    let out = replace_wikilinks(md, "auth", "auth_2");
    assert!(out.contains("target: [[auth]]"), "frontmatter must be untouched");
    assert!(out.contains("[[auth_2]] in body"));
}

#[test]
fn replace_wikilinks_case_insensitive() {
    let out = replace_wikilinks("[[AUTH]] and [[Auth]]", "auth", "auth_2");
    assert_eq!(out, "[[auth_2]] and [[auth_2]]");
}

#[test]
fn replace_wikilinks_no_match_returns_same() {
    let md = "[[other]] note";
    let out = replace_wikilinks(md, "auth", "auth_2");
    assert_eq!(out, md);
}

#[test]
fn byte_column_counts_multibyte_prefix() {
    let links = extract_wikilinks("é [[A]]");
    assert_eq!(links[0].column, 4);
    assert_eq!(links[0].line, 1);
}

#[test]
fn target_and_heading_are_trimmed_display_is_not() {
    let links = extract_wikilinks("[[ A #  h |  d ]]");
    assert_eq!(links[0].target, "A");
    assert_eq!(links[0].heading, Some("h".into()));
    assert_eq!(links[0].display, Some("  d ".into()));
}

#[test]
fn malformed_links_are_not_extracted() {
    assert!(extract_wikilinks("[[]] [[a|]] [[a#]] [[a\nb]] [[a]").is_empty());
    let nested = extract_wikilinks("[[[A]]");
    assert_eq!(nested.len(), 1);
    assert_eq!(nested[0].column, 2);
    let hash_in_display = extract_wikilinks("[[A|x#y]]");
    assert_eq!(hash_in_display[0].display, Some("x#y".into()));
}

#[test]
fn unclosed_frontmatter_excludes_nothing() {
    let links = extract_wikilinks("---\n[[A]]\n");
    assert_eq!(links.len(), 1);
}

#[test]
fn frontmatter_with_crlf_and_trailing_cr() {
    let links = extract_wikilinks("---\r\n[[X]]\r\n---\r\n[[Y]]\r\n");
    let targets: Vec<&str> = links.iter().map(|l| l.target.as_str()).collect();
    assert_eq!(targets, vec!["Y"]);
}

#[test]
fn replace_keeps_raw_heading_and_embed() {
    let out = replace_wikilinks("x ![[ Auth # h | d ]] y", "auth", "new");
    assert_eq!(out, "x ![[new# h | d ]] y");
}
