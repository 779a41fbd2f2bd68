use qwert::backlinks::{backlinks_in, resolve_link_among};
use qwert::revision::NoteText;

fn note(rel: &str, content: &str) -> NoteText {
    NoteText { rel: rel.to_owned(), content: content.to_owned() }
}

#[test]
fn backlinks_collect_matching_links_per_note() {
    let notes = vec![
        note("a.md", "[[Target]] and [[other]] and ![[target#h|x]]"),
        note("b.md", "no links"),
        note("c.md", "`[[target]]` in code"),
        note("d.md", "[[ target ]]"),
    ];
    let sources = backlinks_in(&notes, "target");
    let paths: Vec<&str> = sources.iter().map(|s| s.path.as_str()).collect();
    assert_eq!(paths, vec!["a.md", "d.md"]);
    assert_eq!(sources[0].wikilink_count, 2);
    assert_eq!(sources[0].links[1].heading.as_deref(), Some("h"));
    assert!(sources[0].links[1].embed);
    assert_eq!(sources[1].wikilink_count, 1);
}

#[test]
fn resolve_link_picks_first_markdown_stem_match() {
    let rels = vec!["img/target.png".to_owned(), "notes/Target.md".to_owned(), "target.md".to_owned()];
    assert_eq!(resolve_link_among(&rels, "target"), Some("notes/Target.md".to_owned()));
    assert_eq!(resolve_link_among(&rels, "missing"), None);
}
