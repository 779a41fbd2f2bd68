use qwert::error::CoreError;
use qwert::search::{build_pattern, search_content};
use qwert::pattern::escape;

#[test]
fn literal_match_returns_correct_line_and_snippet() {
    let re = build_pattern("TODO", false).unwrap();
    let hits = search_content(&re, "note.md", "line1\nTODO: fix me\nline3\n");
    assert_eq!(hits.len(), 1);
    assert_eq!(hits[0].line, 2);
    assert_eq!(hits[0].snippet, "TODO: fix me");
    assert_eq!(hits[0].path, "note.md");
}

#[test]
fn multiple_hits_in_single_file() {
    let re = build_pattern("TODO", false).unwrap();
    let hits = search_content(&re, "notes.md", "TODO one\nmiddle\nTODO two\n");
    assert_eq!(hits.len(), 2);
    assert_eq!(hits[0].line, 1);
    assert_eq!(hits[1].line, 3);
}

#[test]
fn literal_query_escapes_metacharacters() {
    let re = build_pattern("a.b", false).unwrap();
    let hits = search_content(&re, "x.md", "axb\na.b\n");
    assert_eq!(hits.len(), 1);
    assert_eq!(hits[0].line, 2);
}

#[test]
fn regex_query_is_a_pattern() {
    let re = build_pattern(r"^T\w+", true).unwrap();
    let hits = search_content(&re, "x.md", "Todo\n todo\nTask\n");
    let lines: Vec<usize> = hits.iter().map(|h| h.line).collect();
    assert_eq!(lines, vec![1, 3]);
}

#[test]
fn invalid_regex_returns_error() {
    let result = build_pattern("[invalid", true);
    assert!(matches!(result, Err(CoreError::InvalidPattern(_))));
}

#[test]
fn unbalanced_literal_query_is_escaped() {
    assert!(matches!(build_pattern("(unclosed", true), Err(CoreError::InvalidPattern(_))));
    assert!(build_pattern("(unclosed", false).is_ok());
}

#[test]
fn crlf_lines_lose_their_carriage_return() {
    let re = build_pattern("x$", true).unwrap();
    let hits = search_content(&re, "w.md", "ax\r\nbx\rc");
    assert_eq!(hits.len(), 1);
    assert_eq!(hits[0].snippet, "ax");
}

#[test]
fn no_trailing_empty_line() {
    let re = build_pattern("^$", true).unwrap();
    let hits = search_content(&re, "e.md", "a\n\nb\n");
    assert_eq!(hits.len(), 1);
    assert_eq!(hits[0].line, 2);
    assert!(search_content(&re, "e.md", "").is_empty());
}

#[test]
fn escape_prefixes_every_metacharacter() {
    assert_eq!(escape("a.b*c"), "a\\.b\\*c");
    assert_eq!(escape("[x](y)"), "\\[x\\]\\(y\\)");
    assert_eq!(escape("-&~#"), "\\-\\&\\~\\#");
    assert_eq!(escape("plain % / ! text"), "plain % / ! text");
}

#[test]
fn escape_agrees_with_regex_crate() {
    for s in ["", "a+b", "\\d{2}$", "^(x|y)?", "über.md"] {
        assert_eq!(escape(s), regex::escape(s), "{s}");
    }
}
