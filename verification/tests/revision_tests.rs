use qwert::error::CoreError;
use qwert::revision::{
    edit_target,
    bump_semver_with, edits_affected, generate_new_name, increment_stem, is_excluded, is_markdown_path,
    naming_style_from_str, parse_naming, parse_u64, plan_revision_from, revision_edits, rollback_moves_source, scan_candidate,
    sibling_path, stem_of, target_exists_error, total_wikilinks, try_generate_new_name, AffectedFile, NamingStyle,
    NoteText,
    RevisionRequest,
};

fn semver(stem: &str) -> String {
    generate_new_name(stem, &NamingStyle::Semver, None, None).unwrap()
}

#[test]
fn increment_plain() {
    assert_eq!(increment_stem("auth"), "auth_2");
}

#[test]
fn increment_existing_suffix() {
    assert_eq!(increment_stem("auth_2"), "auth_3");
    assert_eq!(increment_stem("auth_10"), "auth_11");
}

#[test]
fn increment_non_numeric_suffix_treated_as_plain() {
    assert_eq!(increment_stem("auth_draft"), "auth_draft_2");
}

#[test]
fn increment_underscored_base() {
    assert_eq!(increment_stem("my_doc_2"), "my_doc_3");
}

#[test]
fn increment_suffix_parsing_edges() {
    // `u64` parsing accepts a leading `+` and leading zeros.
    assert_eq!(increment_stem("a_+7"), "a_8");
    assert_eq!(increment_stem("a_007"), "a_8");
    assert_eq!(increment_stem("a_"), "a__2");
    assert_eq!(increment_stem("a_-1"), "a_-1_2");
    assert_eq!(increment_stem("a_18446744073709551616"), "a_18446744073709551616_2");
}

#[test]
fn semver_plain() {
    assert_eq!(semver("auth"), "auth_1.1.0");
}

#[test]
fn semver_bump_patch() {
    assert_eq!(semver("auth_1.1.0"), "auth_1.1.1");
    assert_eq!(semver("auth_2.3.9"), "auth_2.3.10");
}

#[test]
fn semver_base_is_greedy() {
    assert_eq!(semver("a_1.2.3_4.5.6"), "a_1.2.3_4.5.7");
    assert_eq!(semver("_1.2.3"), "_1.2.3_1.1.0");
}

#[test]
fn semver_with_captures_is_exact() {
    // Spans of "x_1.2.3": base 0..1, major 2..3, minor 4..5, patch 6..7.
    let caps = Some(vec![Some((0, 7)), Some((0, 1)), Some((2, 3)), Some((4, 5)), Some((6, 7))]);
    assert_eq!(bump_semver_with("x_1.2.3", caps), "x_1.2.4");
    assert_eq!(bump_semver_with("x_1.2.3", None), "x_1.2.3_1.1.0");
}

#[test]
fn generate_new_name_increment() {
    let r = generate_new_name("auth", &NamingStyle::Increment, None, None).unwrap();
    assert_eq!(r, "auth_2");
}

#[test]
fn generate_new_name_date() {
    let r = generate_new_name("auth", &NamingStyle::Date, None, Some("20260101")).unwrap();
    assert_eq!(r, "auth_20260101");
}

#[test]
fn generate_new_name_semver() {
    let r = generate_new_name("auth", &NamingStyle::Semver, None, None).unwrap();
    assert_eq!(r, "auth_1.1.0");
}

#[test]
fn generate_new_name_manual() {
    let r = generate_new_name("auth", &NamingStyle::Manual, Some("auth_jwt"), None).unwrap();
    assert_eq!(r, "auth_jwt");
}

#[test]
fn generate_new_name_manual_no_name_errors() {
    let r = generate_new_name("auth", &NamingStyle::Manual, None, None);
    assert!(r.is_err());
    assert_eq!(r, Err(CoreError::InvalidPattern("Manual style requires --name <value>".into())));
}

#[test]
fn generate_new_name_date_no_date_errors() {
    let r = generate_new_name("auth", &NamingStyle::Date, None, None);
    assert!(r.is_err());
}

#[test]
fn try_generate_refuses_overflow() {
    assert_eq!(try_generate_new_name("a_18446744073709551615", &NamingStyle::Increment, None, None), None);
    assert_eq!(try_generate_new_name("a_1.1.18446744073709551615", &NamingStyle::Semver, None, None), None);
    assert_eq!(
        try_generate_new_name("a_1", &NamingStyle::Increment, None, None),
        Some(Ok("a_2".to_owned()))
    );
}

#[test]
fn parse_u64_follows_std() {
    let p = |s: &str| parse_u64(&s.chars().collect());
    assert_eq!(p("42"), Some(42));
    assert_eq!(p("+42"), Some(42));
    assert_eq!(p("18446744073709551615"), Some(u64::MAX));
    assert_eq!(p("18446744073709551616"), None);
    assert_eq!(p(""), None);
    assert_eq!(p("+"), None);
    assert_eq!(p("4 2"), None);
}

#[test]
fn sibling_path_root() {
    assert_eq!(sibling_path("auth.md", "auth_2"), "auth_2.md");
}

#[test]
fn sibling_path_subdir() {
    assert_eq!(sibling_path("specs/auth.md", "auth_2"), "specs/auth_2.md");
}

#[test]
fn sibling_path_normalises() {
    assert_eq!(sibling_path("./auth.md", "x"), "x.md");
    assert_eq!(sibling_path("a//b/c.md", "x"), "a//b/x.md");
    assert_eq!(sibling_path("a/b.md/", "x"), "a/x.md");
    assert_eq!(sibling_path("a/b.md", "p\\q"), "a/p/q.md");
}

#[test]
fn stem_of_paths() {
    assert_eq!(stem_of("specs/auth.md").unwrap(), "auth");
    assert_eq!(stem_of(".hidden").unwrap(), ".hidden");
    assert_eq!(stem_of("a.tar.gz").unwrap(), "a.tar");
    assert_eq!(stem_of("dir/.."), Err(CoreError::InvalidPattern("Cannot derive stem from: dir/..".into())));
    assert!(stem_of("").is_err());
}

#[test]
fn naming_words() {
    assert_eq!(naming_style_from_str("increment").unwrap(), NamingStyle::Increment);
    assert_eq!(naming_style_from_str("date").unwrap(), NamingStyle::Date);
    assert_eq!(naming_style_from_str("semver").unwrap(), NamingStyle::Semver);
    assert_eq!(naming_style_from_str("manual").unwrap(), NamingStyle::Manual);
    assert!(naming_style_from_str("Date").is_err());
}

fn note(rel: &str, content: &str) -> NoteText {
    NoteText { rel: rel.to_owned(), content: content.to_owned() }
}

#[test]
fn scan_candidates_respect_excluded_dirs() {
    let excluded = vec!["decisions".to_owned()];
    assert!(scan_candidate("index.md", &excluded));
    assert!(!scan_candidate("decisions/adr-001.md", &excluded));
    assert!(!scan_candidate("image.png", &excluded));
    let excluded = vec!["decisions/".to_owned()];
    assert!(is_excluded("decisions/adr.md", &excluded));
    assert!(is_excluded("decisions-old/adr.md", &excluded));
}

#[test]
fn no_excluded_dirs_means_every_note_is_scanned() {
    assert!(scan_candidate("decisions/adr.md", &vec![]));
    assert!(is_markdown_path("x.markdown"));
    assert!(!is_markdown_path(".md"));
}

fn request(rel: &str, naming: NamingStyle) -> RevisionRequest {
    RevisionRequest {
        vault_root: "/v".into(),
        source_rel_path: rel.into(),
        naming,
        new_name: None,
        excluded_dirs: vec![],
        date_str: None,
    }
}

#[test]
fn plan_revision_dry_run() {
    let notes = vec![note("auth.md", "# Auth\n"), note("index.md", "See [[auth]].\n")];
    let plan = plan_revision_from(&request("auth.md", NamingStyle::Increment), &notes).unwrap().unwrap();
    assert_eq!(plan.old_name, "auth");
    assert_eq!(plan.new_name, "auth_2");
    assert_eq!(plan.old_path, "auth.md");
    assert_eq!(plan.new_path, "auth_2.md");
    assert!(plan.dry_run);
    assert_eq!(plan.total_wikilinks, 1);
    assert_eq!(plan.affected_files.len(), 1);
    assert_eq!(plan.affected_files[0].path, "index.md");
}

#[test]
fn plan_counts_case_insensitive_and_skips_code() {
    let notes = vec![note("a.md", "[[Auth]] [[AUTH#x]] `[[auth]]`\n```\n[[auth]]\n```\n"), note("b.md", "[[authz]]")];
    let plan = plan_revision_from(&request("specs/auth.md", NamingStyle::Semver), &notes).unwrap().unwrap();
    assert_eq!(plan.new_name, "auth_1.1.0");
    assert_eq!(plan.new_path, "specs/auth_1.1.0.md");
    assert_eq!(plan.affected_files, vec![AffectedFile { path: "a.md".into(), wikilink_count: 2 }]);
    assert_eq!(plan.total_wikilinks, 2);
}

#[test]
fn plan_reports_naming_errors() {
    let r = plan_revision_from(&request("auth.md", NamingStyle::Manual), &vec![]).unwrap();
    assert!(matches!(r, Err(CoreError::InvalidPattern(_))));
}

#[test]
fn revision_edits_include_self_references() {
    let notes = vec![note("auth.md", "# Auth\nSee [[auth#top]].\n"), note("index.md", "[[other]]")];
    let edits = revision_edits(&notes, "auth", "auth_2");
    assert_eq!(edits.len(), 1);
    assert_eq!(edits[0].rel, "auth.md");
    assert_eq!(edits[0].new_content, "# Auth\nSee [[auth_2#top]].\n");
    assert_eq!(edits[0].wikilink_count, 1);
    let affected = edits_affected(&edits);
    assert_eq!(affected, vec![AffectedFile { path: "auth.md".into(), wikilink_count: 1 }]);
}

#[test]
fn revision_edits_skip_code_block_links() {
    let notes = vec![note("n.md", "```\n[[auth]]\n```\n[[auth]]\n")];
    let edits = revision_edits(&notes, "auth", "auth_2");
    assert_eq!(edits[0].new_content, "```\n[[auth]]\n```\n[[auth_2]]\n");
}

#[test]
fn totals_and_rollback_rule() {
    let a = vec![
        AffectedFile { path: "a".into(), wikilink_count: 2 },
        AffectedFile { path: "b".into(), wikilink_count: 3 },
    ];
    assert_eq!(total_wikilinks(&a), Some(5));
    let big = vec![
        AffectedFile { path: "a".into(), wikilink_count: usize::MAX },
        AffectedFile { path: "b".into(), wikilink_count: 1 },
    ];
    assert_eq!(total_wikilinks(&big), None);
    assert!(rollback_moves_source(true, false));
    assert!(!rollback_moves_source(true, true));
    assert!(!rollback_moves_source(false, false));
}

#[test]
fn target_exists_error_is_an_already_exists_io_error() {
    match target_exists_error("specs/auth_2.md") {
        CoreError::Io { already_exists, message } => {
            assert!(already_exists);
            assert_eq!(message, "Target already exists: specs/auth_2.md");
        }
        other => panic!("unexpected {other:?}"),
    }
}

#[test]
fn parse_naming_falls_back_to_increment() {
    assert_eq!(parse_naming("date"), NamingStyle::Date);
    assert_eq!(parse_naming("semver"), NamingStyle::Semver);
    assert_eq!(parse_naming("manual"), NamingStyle::Manual);
    assert_eq!(parse_naming("increment"), NamingStyle::Increment);
    assert_eq!(parse_naming("Date"), NamingStyle::Increment);
    assert_eq!(parse_naming(""), NamingStyle::Increment);
}

#[test]
fn dry_run_lists_exactly_what_the_revision_rewrites() {
    let notes = vec![
        note("a.md", "[[Auth]] and [[auth|the auth note]]\n"),
        note("b.md", "nothing here\n"),
        note("c.md", "`[[auth]]` but [[auth#setup]]\n"),
    ];
    let plan = plan_revision_from(&request("auth.md", NamingStyle::Increment), &notes).unwrap().unwrap();
    let edits = revision_edits(&notes, &plan.old_name, &plan.new_name);
    assert_eq!(edits_affected(&edits), plan.affected_files);
    assert_eq!(plan.affected_files.len(), 2);
    assert_eq!(edits[0].new_content, "[[auth_2]] and [[auth_2|the auth note]]\n");
    assert_eq!(edits[1].new_content, "`[[auth]]` but [[auth_2#setup]]\n");
}

#[test]
fn source_rewrite_goes_to_the_new_path() {
    assert_eq!(edit_target("/v", "specs/auth.md", "specs/auth.md", "specs/auth_2.md"), "/v/specs/auth_2.md");
    assert_eq!(edit_target("/v", "specs/auth.md", "./specs//auth.md", "specs/auth_2.md"), "/v/specs/auth_2.md");
}

#[test]
fn other_rewrites_stay_in_place() {
    assert_eq!(edit_target("/v", "daily.md", "specs/auth.md", "specs/auth_2.md"), "/v/daily.md");
    assert_eq!(edit_target("/v", "specs/auth.md", "/elsewhere/specs/auth.md", "x.md"), "/v/specs/auth.md");
}
