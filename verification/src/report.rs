//! The plain-text and list forms of command results: note paths of the tree,
//! invisible-character reports, search hits and write conflicts.

use vstd::prelude::*;
use crate::error::ActionableError;
use crate::revision::NoteText;
use crate::sanitize::{category_name, char_hex_text, detect_invisible_chars, findings_of, InvisibleCharFinding};
use crate::search::SearchHit;
use crate::text::{chars_eq, chars_of, dec_digits, decimal_chars, push_all, push_str, string_from_chars};
use crate::vault::VaultEntry;

verus! {

// ── The note tree ────────────────────────────────────────────────────────────

/// The note paths of a tree, depth first, in tree order.
pub open spec fn tree_paths(entries: Seq<VaultEntry>) -> Seq<Seq<char>>
    decreases entries,
{
    if entries.len() == 0 {
        Seq::empty()
    } else {
        let rest = tree_paths(entries.drop_last());
        let e = entries.last();
        if e.is_dir {
            match e.children {
                Some(ch) => rest + tree_paths(ch@),
                None => rest,
            }
        } else {
            rest.push(e.path@)
        }
    }
}

/// Append the note paths of `entries` to `out`, depth first.
pub fn collect_paths(entries: &Vec<VaultEntry>, out: &mut Vec<String>)
    ensures
        final(out)@.map_values(|s: String| s@) == old(out)@.map_values(|s: String| s@) + tree_paths(entries@),
    decreases entries@,
{
    let ghost start = out@.map_values(|s: String| s@);
    let mut i: usize = 0;
    assert(entries@.take(0) =~= Seq::<VaultEntry>::empty());
    while i < entries.len()
        invariant
            i <= entries@.len(),
            out@.map_values(|s: String| s@) == start + tree_paths(entries@.take(i as int)),
        decreases entries@.len() - i,
    {
        let e = &entries[i];
        assert(entries@.take(i + 1).drop_last() =~= entries@.take(i as int));
        assert(entries@.take(i + 1).last() == entries@[i as int]);
        let ghost before = out@.map_values(|s: String| s@);
        if e.is_dir {
            match &e.children {
                Some(ch) => {
                    assert(decreases_to!(entries@ => entries@[i as int]));
                    collect_paths(ch, out);
                    assert(out@.map_values(|s: String| s@) =~= start + tree_paths(entries@.take(i + 1)));
                },
                None => {},
            }
        } else {
            out.push(e.path.clone());
            assert(out@.map_values(|s: String| s@) =~= before.push(e.path@));
            assert(out@.map_values(|s: String| s@) =~= start + tree_paths(entries@.take(i + 1)));
        }
        i = i + 1;
    }
    assert(entries@.take(entries@.len() as int) =~= entries@);
}

// ── Invisible-character reports ──────────────────────────────────────────────

/// The notes with findings, each with its findings, in input order.
pub open spec fn findings_by_note(notes: Seq<NoteText>) -> Seq<(Seq<char>, Seq<InvisibleCharFinding>)>
    decreases notes.len(),
{
    if notes.len() == 0 {
        Seq::empty()
    } else {
        let rest = findings_by_note(notes.drop_last());
        let n = notes.last();
        let f = findings_of(n.content@);
        if f.len() > 0 { rest.push((n.rel@, f)) } else { rest }
    }
}

/// A note path with the invisible characters found in it.
#[derive(Debug, Clone)]
pub struct NoteFindings {
    pub path: String,
    pub findings: Vec<InvisibleCharFinding>,
}

/// Scan every note; the notes with findings, with those findings.
pub fn scan_notes(notes: &Vec<NoteText>) -> (r: Vec<NoteFindings>)
    requires
        crate::revision::texts_fit(notes@),
    ensures
        r@.map_values(|n: NoteFindings| (n.path@, n.findings@)) == findings_by_note(notes@),
{
    let mut out: Vec<NoteFindings> = Vec::new();
    let mut i: usize = 0;
    assert(notes@.take(0) =~= Seq::<NoteText>::empty());
    while i < notes.len()
        invariant
            i <= notes@.len(),
            crate::revision::texts_fit(notes@),
            out@.map_values(|n: NoteFindings| (n.path@, n.findings@)) == findings_by_note(notes@.take(i as int)),
        decreases notes@.len() - i,
    {
        assert(notes@.take(i + 1).drop_last() =~= notes@.take(i as int));
        assert(notes@.take(i + 1).last() == notes@[i as int]);
        let f = detect_invisible_chars(notes[i].content.as_str());
        if f.len() > 0 {
            let ghost before = out@.map_values(|n: NoteFindings| (n.path@, n.findings@));
            out.push(NoteFindings { path: notes[i].rel.clone(), findings: f });
            assert(out@.map_values(|n: NoteFindings| (n.path@, n.findings@)) =~= before.push(
                (notes@[i as int].rel@, findings_of(notes@[i as int].content@)),
            ));
        }
        i = i + 1;
    }
    assert(notes@.take(notes@.len() as int) =~= notes@);
    out
}

/// The text line of one finding: `path:line:column: category (U+XXXX)`.
pub open spec fn finding_line(path: Seq<char>, f: InvisibleCharFinding) -> Seq<char> {
    path + ":"@ + dec_digits(f.line as nat) + ":"@ + dec_digits(f.column as nat) + ": "@ + category_name(f.category)
        + " ("@ + char_hex_text(f.char_value) + ")"@
}

/// [`finding_line`] for `f` in note `path`.
pub fn format_finding(path: &str, f: &InvisibleCharFinding) -> (r: String)
    ensures
        r@ == finding_line(path@, *f),
{
    let mut out = chars_of(path);
    out.push(':');
    push_all(&mut out, &decimal_chars(f.line as u64));
    out.push(':');
    push_all(&mut out, &decimal_chars(f.column as u64));
    push_str(&mut out, ": ");
    push_str(&mut out, f.category_str());
    push_str(&mut out, " (");
    let h = f.char_hex();
    push_str(&mut out, h.as_str());
    push_str(&mut out, ")");
    proof {
        reveal_strlit(":");
        assert(out@ =~= finding_line(path@, *f));
    }
    string_from_chars(&out)
}

// ── Search hits ──────────────────────────────────────────────────────────────

/// The text line of a search hit: `path:line: snippet`.
pub open spec fn hit_line(h: SearchHit) -> Seq<char> {
    h.path@ + ":"@ + dec_digits(h.line as nat) + ": "@ + h.snippet@
}

/// [`hit_line`] of `h`.
pub fn format_hit(h: &SearchHit) -> (r: String)
    ensures
        r@ == hit_line(*h),
{
    let mut out = chars_of(h.path.as_str());
    out.push(':');
    push_all(&mut out, &decimal_chars(h.line as u64));
    push_str(&mut out, ": ");
    push_str(&mut out, h.snippet.as_str());
    proof {
        reveal_strlit(":");
        assert(out@ =~= hit_line(*h));
    }
    string_from_chars(&out)
}

/// The distinct paths of the first `n` hits, in order of first appearance.
pub open spec fn distinct_paths(hits: Seq<SearchHit>, n: nat) -> Seq<Seq<char>>
    decreases n,
{
    if n == 0 {
        Seq::empty()
    } else {
        let rest = distinct_paths(hits, (n - 1) as nat);
        let p = hits[n - 1].path@;
        if rest.contains(p) { rest } else { rest.push(p) }
    }
}

/// The paths of `hits`, each once, in order of first appearance.
pub fn hit_paths(hits: &Vec<SearchHit>) -> (r: Vec<String>)
    ensures
        r@.map_values(|s: String| s@) == distinct_paths(hits@, hits@.len() as nat),
{
    let mut out: Vec<String> = Vec::new();
    let mut i: usize = 0;
    while i < hits.len()
        invariant
            i <= hits@.len(),
            out@.map_values(|s: String| s@) == distinct_paths(hits@, i as nat),
        decreases hits@.len() - i,
    {
        let p = chars_of(hits[i].path.as_str());
        let ghost ov = out@.map_values(|s: String| s@);
        let mut seen = false;
        let mut k: usize = 0;
        while k < out.len()
            invariant
                k <= out@.len(),
                ov == out@.map_values(|s: String| s@),
                p@ == hits@[i as int].path@,
                seen ==> ov.contains(p@),
                !seen ==> forall|j: int| 0 <= j < k ==> ov[j] != p@,
            decreases out@.len() - k,
        {
            let q = chars_of(out[k].as_str());
            assert(ov[k as int] == q@);
            if chars_eq(&q, &p) {
                seen = true;
            }
            k = k + 1;
        }
        if !seen {
            out.push(hits[i].path.clone());
            assert(out@.map_values(|s: String| s@) =~= ov.push(p@));
        }
        i = i + 1;
    }
    out
}

// ── Write conflicts ──────────────────────────────────────────────────────────

/// The error for a guarded write that found a newer file.
pub fn write_conflict_error(path: &str, expected: u64, current: u64) -> (r: ActionableError)
    ensures
        r.schema_version@ == "v1"@,
        r.kind@ == "error"@,
        r.category@ == "conflict"@,
        r.exit_code == 4,
        r.candidates@.len() == 0,
        r.required_args@.len() == 0,
        r.message@ == "mtime conflict on '"@ + path@ + "': expected "@ + dec_digits(expected as nat)
            + ", current "@ + dec_digits(current as nat),
        r.next_step matches Some(s) && s@ == "Re-read with file_read path="@ + path@
            + ", use the returned mtime in if_match"@,
{
    let mut m = chars_of("mtime conflict on '");
    push_str(&mut m, path);
    push_str(&mut m, "': expected ");
    push_all(&mut m, &decimal_chars(expected));
    push_str(&mut m, ", current ");
    push_all(&mut m, &decimal_chars(current));
    let msg = string_from_chars(&m);
    let mut n = chars_of("Re-read with file_read path=");
    push_str(&mut n, path);
    push_str(&mut n, ", use the returned mtime in if_match");
    let next = string_from_chars(&n);
    ActionableError::new("conflict", 4, msg.as_str()).with_next_step(next.as_str())
}

} // verus!
