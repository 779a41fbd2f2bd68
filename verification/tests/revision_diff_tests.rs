use qwert::revision::{AffectedFile, RevisionPlan};
use qwert::revision_diff::{diffs_for_plan, generate_diff, DiffRequest};

fn req(old: &str, new: &str) -> DiffRequest {
    DiffRequest {
        old_path: "auth.md".into(),
        new_path: "auth_2.md".into(),
        old_content: old.into(),
        new_content: new.into(),
    }
}

#[test]
fn generate_diff_has_unified_header() {
    let r = req("line1\nline2\n", "line1\nline2_changed\n");
    let diff = generate_diff(&r).unwrap();
    assert!(diff.contains("--- a/auth.md"), "missing old header: {diff}");
    assert!(diff.contains("+++ b/auth_2.md"), "missing new header: {diff}");
}

#[test]
fn generate_diff_shows_deletion_and_insertion() {
    let r = req("[[auth]] ref\n", "[[auth_2]] ref\n");
    let diff = generate_diff(&r).unwrap();
    assert!(diff.contains("-[[auth]] ref"), "missing deletion: {diff}");
    assert!(diff.contains("+[[auth_2]] ref"), "missing insertion: {diff}");
}

#[test]
fn generate_diff_empty_when_no_change() {
    let r = req("same content\n", "same content\n");
    let diff = generate_diff(&r).unwrap();
    assert!(!diff.contains("@@"), "unexpected hunk for identical content: {diff}");
}

#[test]
fn generate_diff_starts_with_header_lines() {
    let r = req("a\n", "b\n");
    let diff = generate_diff(&r).unwrap();
    assert!(diff.starts_with("--- a/auth.md\n+++ b/auth_2.md\n"), "{diff}");
    assert!(diff.contains("@@ -1 +1 @@"), "{diff}");
}

fn plan() -> RevisionPlan {
    RevisionPlan {
        schema_version: "v1".into(),
        kind: "revision_plan".into(),
        dry_run: true,
        old_name: "auth".into(),
        new_name: "auth_2".into(),
        old_path: "auth.md".into(),
        new_path: "auth_2.md".into(),
        affected_files: vec![
            AffectedFile { path: "auth.md".into(), wikilink_count: 1 },
            AffectedFile { path: "index.md".into(), wikilink_count: 1 },
        ],
        total_wikilinks: 2,
    }
}

#[test]
fn diffs_for_plan_rewrites_links_and_keeps_source_paths_apart() {
    let contents = vec!["# Auth [[auth]]\n".to_string(), "See [[auth]] here.\n".to_string()];
    let diffs = diffs_for_plan(&plan(), &contents);
    assert_eq!(diffs.len(), 2);
    assert_eq!(diffs[0].old_path, "auth.md");
    assert_eq!(diffs[0].new_path, "auth_2.md");
    assert_eq!(diffs[0].new_content, "# Auth [[auth_2]]\n");
    assert_eq!(diffs[1].old_path, "index.md");
    assert_eq!(diffs[1].new_path, "index.md");
    assert_eq!(diffs[1].old_content, "See [[auth]] here.\n");
    assert_eq!(diffs[1].new_content, "See [[auth_2]] here.\n");
    let d = generate_diff(&diffs[1]).unwrap();
    assert!(d.contains("--- a/index.md") && d.contains("+See [[auth_2]] here."), "{d}");
}

#[test]
fn diffs_for_plan_leaves_code_spans_alone() {
    let contents = vec![String::new(), "`[[auth]]` and [[auth|Auth]]\n".to_string()];
    let diffs = diffs_for_plan(&plan(), &contents);
    assert_eq!(diffs[1].new_content, "`[[auth]]` and [[auth_2|Auth]]\n");
}
