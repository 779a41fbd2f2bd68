//! Backlinks and link resolution over the notes of a vault.

use vstd::prelude::*;
use crate::cmark::cmark_gfm_spans;
use crate::link_index::{extract_wikilinks, names_match, refs_view, same_note, WikilinkRef, WikilinkView};
use crate::paths::{file_stem, file_stem_of};
use crate::revision::{is_markdown, is_markdown_path, note_links, texts_fit, NoteText};

verus! {

/// A note with links to a target note, and those links.
#[derive(Debug, Clone)]
pub struct BacklinkSource {
    pub path: String,
    pub wikilink_count: usize,
    pub links: Vec<WikilinkRef>,
}

/// The links of `links` whose target names the note `target`, in order.
pub open spec fn links_to(links: Seq<WikilinkView>, target: Seq<char>) -> Seq<WikilinkView> {
    links.filter(|l: WikilinkView| names_match(l.target, target))
}

/// The backlink sources among `notes`: each note with at least one link to
/// `target`, with those links, in input order.
pub open spec fn backlinks_of(notes: Seq<NoteText>, target: Seq<char>) -> Seq<(Seq<char>, Seq<WikilinkView>)>
    decreases notes.len(),
{
    if notes.len() == 0 {
        Seq::empty()
    } else {
        let rest = backlinks_of(notes.drop_last(), target);
        let n = notes.last();
        let m = links_to(note_links(n.content@), target);
        if m.len() > 0 {
            rest.push((n.rel@, m))
        } else {
            rest
        }
    }
}

/// The view of a backlink source.
pub open spec fn source_view(s: BacklinkSource) -> (Seq<char>, Seq<WikilinkView>) {
    (s.path@, refs_view(s.links@))
}

fn copy_ref(w: &WikilinkRef) -> (r: WikilinkRef)
    ensures
        r@ == w@,
{
    WikilinkRef {
        target: w.target.clone(),
        heading: crate::text::clone_opt(&w.heading),
        display: crate::text::clone_opt(&w.display),
        embed: w.embed,
        line: w.line,
        column: w.column,
    }
}

fn matching_links(content: &str, target: &str) -> (r: Vec<WikilinkRef>)
    requires
        content@.len() < usize::MAX,
    ensures
        refs_view(r@) == links_to(note_links(content@), target@),
{
    let links = extract_wikilinks(content);
    let ghost lv = refs_view(links@);
    let mut out: Vec<WikilinkRef> = Vec::new();
    let mut i: usize = 0;
    proof {
        assert(lv.take(0).filter(|l: WikilinkView| names_match(l.target, target@)) =~= Seq::<WikilinkView>::empty());
    }
    while i < links.len()
        invariant
            i <= links@.len(),
            lv == refs_view(links@),
            lv == note_links(content@),
            refs_view(out@) == lv.take(i as int).filter(|l: WikilinkView| names_match(l.target, target@)),
        decreases links@.len() - i,
    {
        assert(lv.take(i + 1).drop_last() =~= lv.take(i as int));
        assert(lv[i as int] == links@[i as int]@);
        proof {
            lv.take(i as int).lemma_filter_push(lv[i as int], |l: WikilinkView| names_match(l.target, target@));
            assert(lv.take(i as int).push(lv[i as int]) =~= lv.take(i + 1));
        }
        let ghost prev = refs_view(out@);
        if same_note(links[i].target.as_str(), target) {
            out.push(copy_ref(&links[i]));
            assert(refs_view(out@) =~= prev.push(lv[i as int]));
        }
        i = i + 1;
    }
    assert(lv.take(links@.len() as int) =~= lv);
    out
}

/// The notes that link to `target_stem` (names compared as [`same_note`]
/// does), with the matching links, in input order.
pub fn backlinks_in(notes: &Vec<NoteText>, target_stem: &str) -> (r: Vec<BacklinkSource>)
    requires
        texts_fit(notes@),
    ensures
        r@.map_values(|s: BacklinkSource| source_view(s)) == backlinks_of(notes@, target_stem@),
        forall|k: int| 0 <= k < r@.len() ==> (#[trigger] r@[k]).wikilink_count == r@[k].links@.len(),
{
    let mut out: Vec<BacklinkSource> = Vec::new();
    let mut i: usize = 0;
    proof {
        assert(notes@.take(0) =~= Seq::<NoteText>::empty());
    }
    while i < notes.len()
        invariant
            i <= notes@.len(),
            texts_fit(notes@),
            out@.map_values(|s: BacklinkSource| source_view(s)) == backlinks_of(notes@.take(i as int), target_stem@),
            forall|k: int| 0 <= k < out@.len() ==> (#[trigger] out@[k]).wikilink_count == out@[k].links@.len(),
        decreases notes@.len() - i,
    {
        assert(notes@.take(i + 1).drop_last() =~= notes@.take(i as int));
        assert(notes@.take(i + 1).last() == notes@[i as int]);
        let m = matching_links(notes[i].content.as_str(), target_stem);
        if m.len() > 0 {
            let ghost prev = out@;
            let n = m.len();
            out.push(BacklinkSource { path: notes[i].rel.clone(), wikilink_count: n, links: m });
            assert(out@.map_values(|s: BacklinkSource| source_view(s)) =~= prev.map_values(
                |s: BacklinkSource| source_view(s),
            ).push(source_view(out@[prev.len() as int])));
        }
        i = i + 1;
    }
    assert(notes@.take(notes@.len() as int) =~= notes@);
    out
}

/// The first note path among `rels` that is a Markdown note whose stem names
/// the note `target`.
pub open spec fn resolves_to(rels: Seq<String>, target: Seq<char>, k: int) -> bool {
    is_markdown(rels[k]@) && (file_stem(rels[k]@) matches Some(st) && names_match(st, target))
}

/// The vault-relative path of the note that `target` resolves to: the first
/// Markdown note in walk order whose stem matches it.
pub fn resolve_link_among(rels: &Vec<String>, target: &str) -> (r: Option<String>)
    ensures
        match r {
            Some(p) => exists|k: int| 0 <= k < rels@.len() && #[trigger] resolves_to(rels@, target@, k) && p == rels@[k]
                && forall|j: int| 0 <= j < k ==> !resolves_to(rels@, target@, j),
            None => forall|k: int| 0 <= k < rels@.len() ==> !resolves_to(rels@, target@, k),
        },
{
    let mut i: usize = 0;
    while i < rels.len()
        invariant
            i <= rels@.len(),
            forall|j: int| 0 <= j < i ==> !resolves_to(rels@, target@, j),
        decreases rels@.len() - i,
    {
        let p = rels[i].as_str();
        if is_markdown_path(p) {
            match file_stem_of(p) {
                Some(st) => {
                    let s = crate::text::string_from_chars(&st);
                    if same_note(s.as_str(), target) {
                        assert(resolves_to(rels@, target@, i as int));
                        return Some(rels[i].clone());
                    }
                },
                None => {},
            }
        }
        i = i + 1;
    }
    None
}

} // verus!
