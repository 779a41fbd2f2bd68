use qwert::backlinks::BacklinkSource;
use qwert::responses::{backlink_entries, scan_results, FileEntry, RevisionPlanDto, RevisionResultDto, ScanFinding};
use qwert::revision::{AffectedFile, NoteText, RevisionPlan, RevisionResult};
use qwert::revision_diff::{combined_diff, generate_diff, DiffRequest};
use qwert::sanitize::{InvisibleCharCategory, InvisibleCharFinding};
use qwert::vault::VaultEntry;

fn note(path: &str) -> VaultEntry {
    VaultEntry { name: path.rsplit('/').next().unwrap().to_string(), path: path.into(), is_dir: false, children: None }
}

#[test]
fn file_entry_keeps_the_tree_shape() {
    let tree = VaultEntry {
        name: "docs".into(),
        path: "docs".into(),
        is_dir: true,
        children: Some(vec![note("docs/a.md"), note("docs/b.md")]),
    };
    let f = FileEntry::from_entry(tree);
    assert_eq!(f.name, "docs");
    assert!(f.is_dir);
    let ch = f.children.unwrap();
    assert_eq!(ch.len(), 2);
    assert_eq!(ch[0].path, "docs/a.md");
    assert_eq!(ch[1].name, "b.md");
    assert!(ch[1].children.is_none());
}

#[test]
fn backlink_entries_keep_order_and_counts() {
    let sources = vec![
        BacklinkSource { path: "x.md".into(), wikilink_count: 2, links: vec![] },
        BacklinkSource { path: "y.md".into(), wikilink_count: 1, links: vec![] },
    ];
    let e = backlink_entries(&sources);
    assert_eq!(e.len(), 2);
    assert_eq!((e[0].path.as_str(), e[0].wikilink_count), ("x.md", 2));
    assert_eq!((e[1].path.as_str(), e[1].wikilink_count), ("y.md", 1));
}

#[test]
fn plan_and_result_records_copy_the_fields() {
    let plan = RevisionPlan {
        schema_version: "v1".into(),
        kind: "revision_plan".into(),
        dry_run: true,
        old_name: "auth".into(),
        new_name: "auth_2".into(),
        old_path: "auth.md".into(),
        new_path: "auth_2.md".into(),
        affected_files: vec![AffectedFile { path: "index.md".into(), wikilink_count: 3 }],
        total_wikilinks: 3,
    };
    let dto = RevisionPlanDto::of_plan(&plan, "patch".into());
    assert_eq!(dto.old_name, "auth");
    assert_eq!(dto.new_path, "auth_2.md");
    assert_eq!(dto.affected_files.len(), 1);
    assert_eq!(dto.affected_files[0].path, "index.md");
    assert_eq!(dto.affected_files[0].wikilink_count, 3);
    assert_eq!(dto.total_wikilinks, 3);
    assert_eq!(dto.diff, "patch");

    let result = RevisionResult {
        old_path: "auth.md".into(),
        new_path: "auth_2.md".into(),
        affected_files: vec![],
        total_wikilinks: 0,
    };
    let r = RevisionResultDto::of_result(&result);
    assert_eq!((r.old_path.as_str(), r.new_path.as_str(), r.total_wikilinks), ("auth.md", "auth_2.md", 0));
}

#[test]
fn scan_finding_has_code_hex_and_category() {
    let f = InvisibleCharFinding { line: 2, column: 5, char_value: '\u{E0041}', category: InvisibleCharCategory::UnicodeTag };
    let d = ScanFinding::of_finding(&f);
    assert_eq!((d.line, d.column), (2, 5));
    assert_eq!(d.char_code, 0xE0041);
    assert_eq!(d.char_hex, "U+E0041");
    assert_eq!(d.category, "UnicodeTag");
}

#[test]
fn scan_results_keep_only_notes_with_findings() {
    let notes = vec![
        NoteText { rel: "clean.md".into(), content: "plain text\n".into() },
        NoteText { rel: "dirty.md".into(), content: "a\u{0000}b\n".into() },
    ];
    let r = scan_results(&notes);
    assert_eq!(r.len(), 1);
    assert_eq!(r[0].path, "dirty.md");
    assert_eq!(r[0].findings.len(), 1);
    assert_eq!(r[0].findings[0].char_hex, "U+0000");
    assert_eq!(r[0].findings[0].category, "NullByte");
    assert_eq!((r[0].findings[0].line, r[0].findings[0].column), (1, 2));
}

#[test]
fn combined_diff_concatenates_in_order() {
    let a = DiffRequest { old_path: "a.md".into(), new_path: "a.md".into(), old_content: "x\n".into(), new_content: "y\n".into() };
    let b = DiffRequest { old_path: "b.md".into(), new_path: "b.md".into(), old_content: "p\n".into(), new_content: "q\n".into() };
    let expected = format!("{}{}", generate_diff(&a).unwrap(), generate_diff(&b).unwrap());
    let all = combined_diff(&vec![a, b]);
    assert_eq!(all, expected);
    assert!(all.find("--- a/a.md").unwrap() < all.find("--- a/b.md").unwrap());
    assert_eq!(combined_diff(&vec![]), "");
}
