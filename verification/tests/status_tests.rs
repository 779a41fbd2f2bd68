use qwert::status::{
    conflict_base, pending_from_wal, pending_info, status_walk_visits, vault_status_from, PendingRevisionInfo, WalkedFile,
};

#[test]
fn conflict_base_simple() {
    assert_eq!(conflict_base("auth.sync-conflict-20260422-123456-ABC1234.md"), Some("auth.md".into()));
}

#[test]
fn conflict_base_with_subdirectory() {
    assert_eq!(conflict_base("specs/auth.sync-conflict-20260422-123456-ABC1234.md"), Some("specs/auth.md".into()));
}

#[test]
fn conflict_base_non_conflict_returns_none() {
    assert_eq!(conflict_base("specs/auth.md"), None);
}

#[test]
fn conflict_base_without_extension() {
    assert_eq!(conflict_base("notes/x.sync-conflict-20260101-000000-Z9"), Some("notes/x".into()));
    assert_eq!(conflict_base("é/ü.sync-conflict-20260101-000000-Z9.md"), Some("é/ü.md".into()));
}

fn walked(root: &str, rel: &str) -> WalkedFile {
    WalkedFile { path: format!("{root}/{rel}"), rel: rel.to_owned() }
}

#[test]
fn plain_notes_make_a_healthy_status() {
    let files = vec![walked("/v", "note.md")];
    let status = vault_status_from("/v".into(), &files, None);
    assert!(status.healthy, "expected healthy vault");
    assert!(status.warnings.is_empty());
    assert!(status.sync_conflicts.is_empty());
    assert!(status.pending_revision.is_none());
}

#[test]
fn status_reports_sync_conflict_copies() {
    let files = vec![walked("/v", "auth.sync-conflict-20260422-123456-ABC1234.md"), walked("/v", "auth.md")];
    let status = vault_status_from("/v".into(), &files, None);
    assert!(!status.healthy);
    assert_eq!(status.sync_conflicts.len(), 1);
    assert_eq!(status.sync_conflicts[0].base, "auth.md");
    assert!(status.sync_conflicts[0].conflict_file.contains("sync-conflict"));
    assert_eq!(status.warnings, vec!["1 sync-conflict file(s) detected. Resolve manually before continuing.".to_owned()]);
}

#[test]
fn status_reports_pending_revision() {
    let files = vec![walked("/v", "a.md")];
    let pending = pending_info(Some("specs/auth.md".into()), Some("specs/auth_2.md".into()));
    let status = vault_status_from("/v".into(), &files, Some(pending));
    assert!(!status.healthy);
    let pr = status.pending_revision.as_ref().expect("should have pending_revision");
    assert_eq!(pr.source_old_path, "specs/auth.md");
    assert_eq!(pr.source_new_path, "specs/auth_2.md");
    assert!(!status.warnings.is_empty());
}

#[test]
fn pending_info_defaults_missing_fields() {
    assert_eq!(
        pending_info(None, Some("b.md".into())),
        PendingRevisionInfo { source_old_path: "?".into(), source_new_path: "b.md".into() }
    );
}

#[test]
fn detects_appearance_conflict() {
    let files = vec![walked("/v", ".qwert/appearance.sync-conflict-20260422-123456-ABC1234.toml")];
    let status = vault_status_from("/v".into(), &files, None);
    assert!(!status.healthy);
    assert!(status.warnings.iter().any(|w| w.contains("appearance")));
    assert_eq!(status.warnings, vec!["1 appearance.toml conflict(s) in .qwert/. Resolve manually.".to_owned()]);
}

#[test]
fn appearance_conflict_outside_qwert_is_ignored() {
    let files = vec![walked("/v", "appearance.sync-conflict-20260422-123456-ABC1234.toml")];
    let status = vault_status_from("/v".into(), &files, None);
    assert!(status.healthy);
}

#[test]
fn similar_names_are_not_conflicts() {
    let files = vec![walked("/v", "note.md"), walked("/v", "sync-notes.md")];
    let status = vault_status_from("/v".into(), &files, None);
    assert!(status.healthy);
    assert!(status.sync_conflicts.is_empty());
}

#[test]
fn walk_skips_hidden_dirs_except_qwert() {
    assert!(status_walk_visits(0, ".hidden", true));
    assert!(status_walk_visits(1, ".qwert", true));
    assert!(!status_walk_visits(1, ".git", true));
    assert!(!status_walk_visits(2, "node_modules", true));
    assert!(status_walk_visits(2, ".hidden-file.md", false));
}

#[test]
fn pending_from_wal_reads_both_source_paths() {
    let raw = r#"{"kind":"pending_revision","source_old_path":"specs/auth.md","source_new_path":"specs/auth_2.md","content_ops":[]}"#;
    let p = pending_from_wal(raw).expect("a JSON log is pending");
    assert_eq!(p.source_old_path, "specs/auth.md");
    assert_eq!(p.source_new_path, "specs/auth_2.md");
}

#[test]
fn pending_from_wal_marks_missing_paths_unknown() {
    let p = pending_from_wal(r#"{"source_old_path":"a.md","source_new_path":7}"#).unwrap();
    assert_eq!(p.source_old_path, "a.md");
    assert_eq!(p.source_new_path, "?");
    let q = pending_from_wal("[1, 2]").unwrap();
    assert_eq!(q.source_old_path, "?");
    assert_eq!(q.source_new_path, "?");
}

#[test]
fn pending_from_wal_ignores_text_that_is_not_json() {
    assert_eq!(pending_from_wal("{ truncated"), None);
    assert_eq!(pending_from_wal(""), None);
}
