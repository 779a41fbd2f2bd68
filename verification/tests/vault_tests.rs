use qwert::error::CoreError;
use qwert::vault::{
    check_new_relative, check_within_vault, components_of, decode_note, dir_entry, editing_with, is_editing_in,
    move_precheck, new_path_finish, new_path_parent, sort_entries, starts_with_path, tree_enters_dir,
    write_creates_new, write_precheck, VaultEntry, WriteResult,
};

#[test]
fn within_vault_check_rejects_outside_paths() {
    // `<vault>/../secret.md` canonicalises outside the vault.
    let r = check_within_vault("/tmp/outer/secret.md", "/tmp/outer/inner", "../secret.md");
    assert!(matches!(r, Err(CoreError::PathTraversal(_))), "expected PathTraversal, got {r:?}");
}

#[test]
fn within_vault_check_is_component_wise() {
    assert!(check_within_vault("/tmp/v/note.md", "/tmp/v", "note.md").is_ok());
    // Component-wise, not textual: `/tmp/vault2` is not inside `/tmp/v`.
    assert!(check_within_vault("/tmp/vault2/x.md", "/tmp/v", "x").is_err());
}

#[test]
fn resolve_new_path_rejects_parent_dir() {
    assert!(matches!(new_path_parent("/v", "../evil.md"), Err(CoreError::PathTraversal(_))));
    assert!(matches!(check_new_relative("a/../../evil.md"), Err(CoreError::PathTraversal(_))));
}

#[test]
fn resolve_new_path_rejects_absolute() {
    assert!(matches!(new_path_parent("/v", "/etc/passwd"), Err(CoreError::PathTraversal(_))));
}

#[test]
fn resolve_new_path_accepts_vault_relative() {
    let parent = new_path_parent("/v", "new_note.md").unwrap();
    assert_eq!(parent, "/v");
    let full = new_path_finish("/v", "new_note.md", "/v").unwrap();
    assert_eq!(full, "/v/new_note.md");
    assert!(starts_with_path(&full, "/v"));
    let parent = new_path_parent("/v", "sub/dir/n.md").unwrap();
    assert_eq!(parent, "/v/sub/dir");
    assert!(new_path_finish("/v", "sub/n.md", "/elsewhere").is_err());
}

#[test]
fn path_components_follow_std() {
    let c: Vec<String> = components_of("/a//b/./c/").into_iter().map(|v| v.into_iter().collect()).collect();
    assert_eq!(c, vec!["/", "a", "b", "c"]);
    let c: Vec<String> = components_of("./x/..").into_iter().map(|v| v.into_iter().collect()).collect();
    assert_eq!(c, vec![".", "x", ".."]);
    assert!(starts_with_path("/a/b/c", "/a/b/"));
    assert!(!starts_with_path("/a/bc", "/a/b"));
}

#[test]
fn write_precheck_passes_on_matching_mtime() {
    assert_eq!(write_precheck(100, 100), None);
}

#[test]
fn write_precheck_conflicts_on_other_mtime() {
    assert!(matches!(write_precheck(100, 99), Some(WriteResult::Conflict { .. })));
}

#[test]
fn write_precheck_reports_current_mtime() {
    assert_eq!(write_precheck(1234, 1), Some(WriteResult::Conflict { current_mtime: 1234 }));
}

#[test]
fn write_falls_back_to_new_file_only_when_not_found() {
    assert!(write_creates_new(&CoreError::NotFound("x".into())));
    assert!(!write_creates_new(&CoreError::PathTraversal("x".into())));
}

#[test]
fn move_precheck_refuses_existing_destination() {
    let r = move_precheck(true, "b.md");
    assert_eq!(
        r,
        Err(CoreError::Io { already_exists: true, message: "destination already exists: b.md".into() })
    );
    assert!(move_precheck(false, "b.md").is_ok());
}

#[test]
fn read_file_invalid_utf8_returns_invalid_utf8_error() {
    let result = decode_note(b"\xFF\xFE invalid utf8 data".to_vec());
    assert!(matches!(result, Err(CoreError::InvalidUtf8 { .. })), "expected InvalidUtf8, got {result:?}");
}

#[test]
fn invalid_byte_after_ascii_is_reported() {
    let r = decode_note(vec![b'o', b'k', 0xff, b'x']);
    assert_eq!(r, Err(CoreError::InvalidUtf8 { byte_offset: 2 }));
}

#[test]
fn read_file_invalid_utf8_has_byte_offset() {
    // "valid\xFF" — first 5 bytes are valid ASCII, offset 5 is the invalid byte
    let mut bytes = b"valid".to_vec();
    bytes.push(0xFF);
    let result = decode_note(bytes);
    assert!(
        matches!(result, Err(CoreError::InvalidUtf8 { byte_offset: 5 })),
        "expected InvalidUtf8 at byte 5, got {result:?}"
    );
}

#[test]
fn truncated_sequence_at_end_is_reported_at_its_start() {
    let mut bytes = "héllo".as_bytes().to_vec();
    bytes.push(0xc3);
    assert_eq!(decode_note(bytes), Err(CoreError::InvalidUtf8 { byte_offset: 6 }));
}

#[test]
fn read_file_valid_utf8_succeeds() {
    let result = decode_note("こんにちは🎉".as_bytes().to_vec());
    assert!(result.is_ok());
    assert_eq!(result.unwrap(), "こんにちは🎉");
}

#[test]
fn editing_list_updates() {
    let paths = vec!["a.md".to_owned()];
    let added = editing_with(paths.clone(), "b.md", true);
    assert_eq!(added, vec!["a.md".to_owned(), "b.md".to_owned()]);
    assert_eq!(editing_with(added.clone(), "b.md", true), added);
    let removed = editing_with(vec!["b.md".into(), "a.md".into(), "b.md".into()], "b.md", false);
    assert_eq!(removed, vec!["a.md".to_owned()]);
    assert!(is_editing_in(&added, "b.md"));
    assert!(!is_editing_in(&removed, "b.md"));
}

fn note(name: &str) -> VaultEntry {
    VaultEntry { name: name.into(), path: name.into(), is_dir: false, children: None }
}

#[test]
fn tree_walk_skips_hidden_and_empty_dirs() {
    assert!(tree_enters_dir("notes"));
    assert!(!tree_enters_dir(".git"));
    assert!(!tree_enters_dir("node_modules"));
    assert!(dir_entry("empty".into(), "empty".into(), vec![]).is_none());
    let d = dir_entry("d".into(), "d".into(), vec![note("x.md")]).unwrap();
    assert!(d.is_dir);
}

#[test]
fn tree_entries_sorted_by_name() {
    let sorted = sort_entries(vec![note("b.md"), note("a.md"), note("Z.md"), note("é.md"), note("ab.md")]);
    let names: Vec<&str> = sorted.iter().map(|e| e.name.as_str()).collect();
    assert_eq!(names, vec!["Z.md", "a.md", "ab.md", "b.md", "é.md"]);
}

#[test]
fn finished_new_paths_stay_inside_the_vault() {
    for (rel, parent) in [("a/b.md", "/v/a"), ("n.md", "/v/"), ("x/./y.md", "/v/x")] {
        let p = new_path_finish("/v", rel, parent).unwrap();
        assert!(starts_with_path(&p, "/v"), "{p}");
    }
    assert_eq!(new_path_finish("/v", "a/b.md", "/v/a").unwrap(), "/v/a/b.md");
    assert_eq!(new_path_finish("/v", "n.md", "/v/").unwrap(), "/v/n.md");
}
