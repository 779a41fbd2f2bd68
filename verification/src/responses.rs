//! The records the desktop shell answers its front end with: the note tree,
//! backlinks, revision plans and results, and invisible-character findings.

use vstd::prelude::*;
use crate::backlinks::BacklinkSource;
use crate::report::{findings_by_note, scan_notes};
use crate::revision::{AffectedFile, NoteText, RevisionPlan, RevisionResult};
use crate::sanitize::{category_name, char_hex_text, InvisibleCharFinding};
use crate::vault::VaultEntry;

verus! {

// ── Note tree ────────────────────────────────────────────────────────────────

/// A node of the note tree as the front end sees it.
#[derive(Debug)]
pub struct FileEntry {
    pub name: String,
    pub path: String,
    pub is_dir: bool,
    pub children: Option<Vec<FileEntry>>,
}

/// `f` has the name, path, kind and (recursively) the children of `v`.
pub open spec fn entry_matches(v: VaultEntry, f: FileEntry) -> bool
    decreases v,
{
    &&& v.name@ == f.name@
    &&& v.path@ == f.path@
    &&& v.is_dir == f.is_dir
    &&& match v.children {
        None => f.children is None,
        Some(ch) => f.children matches Some(fc) && fc@.len() == ch@.len()
            && forall|i: int| 0 <= i < ch@.len() ==> entry_matches(#[trigger] ch@[i], fc@[i]),
    }
}

impl FileEntry {
    /// The front-end record of a tree node, children included.
    pub fn from_entry(e: VaultEntry) -> (r: FileEntry)
        ensures
            entry_matches(e, r),
    {
        file_entry_of(&e)
    }
}

fn file_entry_of(e: &VaultEntry) -> (r: FileEntry)
    ensures
        entry_matches(*e, r),
    decreases e,
{
    let children = match &e.children {
        None => None,
        Some(ch) => {
            let mut out: Vec<FileEntry> = Vec::new();
            let mut i: usize = 0;
            while i < ch.len()
                invariant
                    i <= ch@.len(),
                    e.children == Some(*ch),
                    out@.len() == i,
                    forall|k: int| 0 <= k < i ==> entry_matches(#[trigger] ch@[k], out@[k]),
                decreases ch@.len() - i,
            {
                proof {
                    let c = e.children;
                    assert(decreases_to!(*e => c));
                    assert(decreases_to!(c => c->0));
                    assert(decreases_to!(c->0 => ch@));
                    assert(decreases_to!(ch@ => ch@[i as int]));
                }
                let f = file_entry_of(&ch[i]);
                out.push(f);
                i = i + 1;
            }
            Some(out)
        },
    };
    FileEntry { name: e.name.clone(), path: e.path.clone(), is_dir: e.is_dir, children }
}

// ── Backlinks ────────────────────────────────────────────────────────────────

/// A note that links to the one asked about, with its link count.
#[derive(Debug, Clone)]
pub struct BacklinkEntry {
    pub path: String,
    pub wikilink_count: usize,
}

/// The front-end records of backlink sources, in the same order.
pub fn backlink_entries(sources: &Vec<BacklinkSource>) -> (r: Vec<BacklinkEntry>)
    ensures
        r@.len() == sources@.len(),
        forall|i: int| 0 <= i < r@.len() ==> (#[trigger] r@[i]).path@ == sources@[i].path@
            && r@[i].wikilink_count == sources@[i].wikilink_count,
{
    let mut out: Vec<BacklinkEntry> = Vec::new();
    let mut i: usize = 0;
    while i < sources.len()
        invariant
            i <= sources@.len(),
            out@.len() == i,
            forall|k: int| 0 <= k < i ==> (#[trigger] out@[k]).path@ == sources@[k].path@
                && out@[k].wikilink_count == sources@[k].wikilink_count,
        decreases sources@.len() - i,
    {
        let s = &sources[i];
        out.push(BacklinkEntry { path: s.path.clone(), wikilink_count: s.wikilink_count });
        i = i + 1;
    }
    out
}

// ── Revisions ────────────────────────────────────────────────────────────────

/// A note whose links a revision rewrites.
#[derive(Debug, Clone)]
pub struct AffectedFileDto {
    pub path: String,
    pub wikilink_count: usize,
}

/// A dry-run revision plan, with the unified diff of every affected file.
#[derive(Debug, Clone)]
pub struct RevisionPlanDto {
    pub old_name: String,
    pub new_name: String,
    pub old_path: String,
    pub new_path: String,
    pub affected_files: Vec<AffectedFileDto>,
    pub total_wikilinks: usize,
    /// Unified diff for all affected files (empty when no links change).
    pub diff: String,
}

/// A carried-out revision.
#[derive(Debug, Clone)]
pub struct RevisionResultDto {
    pub old_path: String,
    pub new_path: String,
    pub total_wikilinks: usize,
}

/// `d` lists the files of `a`, in order, with their counts.
pub open spec fn affected_match(a: Seq<AffectedFile>, d: Seq<AffectedFileDto>) -> bool {
    &&& a.len() == d.len()
    &&& forall|i: int| 0 <= i < a.len() ==> (#[trigger] d[i]).path@ == a[i].path@
        && d[i].wikilink_count == a[i].wikilink_count
}

fn affected_dtos(files: &Vec<AffectedFile>) -> (r: Vec<AffectedFileDto>)
    ensures
        affected_match(files@, r@),
{
    let mut out: Vec<AffectedFileDto> = Vec::new();
    let mut i: usize = 0;
    while i < files.len()
        invariant
            i <= files@.len(),
            out@.len() == i,
            forall|k: int| 0 <= k < i ==> (#[trigger] out@[k]).path@ == files@[k].path@
                && out@[k].wikilink_count == files@[k].wikilink_count,
        decreases files@.len() - i,
    {
        let f = &files[i];
        out.push(AffectedFileDto { path: f.path.clone(), wikilink_count: f.wikilink_count });
        i = i + 1;
    }
    out
}

impl RevisionPlanDto {
    /// The front-end record of `plan`, with `diff` as its combined diff.
    pub fn of_plan(plan: &RevisionPlan, diff: String) -> (r: RevisionPlanDto)
        ensures
            r.old_name@ == plan.old_name@,
            r.new_name@ == plan.new_name@,
            r.old_path@ == plan.old_path@,
            r.new_path@ == plan.new_path@,
            affected_match(plan.affected_files@, r.affected_files@),
            r.total_wikilinks == plan.total_wikilinks,
            r.diff == diff,
    {
        RevisionPlanDto {
            old_name: plan.old_name.clone(),
            new_name: plan.new_name.clone(),
            old_path: plan.old_path.clone(),
            new_path: plan.new_path.clone(),
            affected_files: affected_dtos(&plan.affected_files),
            total_wikilinks: plan.total_wikilinks,
            diff,
        }
    }
}

impl RevisionResultDto {
    /// The front-end record of a carried-out revision.
    pub fn of_result(result: &RevisionResult) -> (r: RevisionResultDto)
        ensures
            r.old_path@ == result.old_path@,
            r.new_path@ == result.new_path@,
            r.total_wikilinks == result.total_wikilinks,
    {
        RevisionResultDto {
            old_path: result.old_path.clone(),
            new_path: result.new_path.clone(),
            total_wikilinks: result.total_wikilinks,
        }
    }
}

// ── Invisible characters ─────────────────────────────────────────────────────

/// One invisible character, with its code point as a number and in `U+XXXX`
/// form, and its category's name.
#[derive(Debug, Clone)]
pub struct ScanFinding {
    pub line: usize,
    pub column: usize,
    pub char_code: u32,
    pub char_hex: String,
    pub category: &'static str,
}

/// `d` is the front-end form of `f`.
pub open spec fn finding_matches(f: InvisibleCharFinding, d: ScanFinding) -> bool {
    &&& d.line == f.line
    &&& d.column == f.column
    &&& d.char_code == f.char_value as u32
    &&& d.char_hex@ == char_hex_text(f.char_value)
    &&& d.category@ == category_name(f.category)
}

impl ScanFinding {
    /// The front-end form of a finding.
    pub fn of_finding(f: &InvisibleCharFinding) -> (r: ScanFinding)
        ensures
            finding_matches(*f, r),
    {
        ScanFinding {
            line: f.line,
            column: f.column,
            char_code: f.char_value as u32,
            char_hex: f.char_hex(),
            category: f.category_str(),
        }
    }
}

/// A note with the invisible characters found in it.
#[derive(Debug, Clone)]
pub struct FileScanResult {
    pub path: String,
    pub findings: Vec<ScanFinding>,
}

/// `d` is the front-end form of the findings `f`, in order.
pub open spec fn findings_match(f: Seq<InvisibleCharFinding>, d: Seq<ScanFinding>) -> bool {
    &&& f.len() == d.len()
    &&& forall|i: int| 0 <= i < f.len() ==> finding_matches(f[i], #[trigger] d[i])
}

fn scan_findings(fs: &Vec<InvisibleCharFinding>) -> (r: Vec<ScanFinding>)
    ensures
        findings_match(fs@, r@),
{
    let mut out: Vec<ScanFinding> = Vec::new();
    let mut i: usize = 0;
    while i < fs.len()
        invariant
            i <= fs@.len(),
            out@.len() == i,
            forall|k: int| 0 <= k < i ==> finding_matches(fs@[k], #[trigger] out@[k]),
        decreases fs@.len() - i,
    {
        out.push(ScanFinding::of_finding(&fs[i]));
        i = i + 1;
    }
    out
}

/// Scan every note read from the vault (in tree order, the unreadable ones
/// left out): the notes with findings, each with its findings, in order.
pub fn scan_results(notes: &Vec<NoteText>) -> (r: Vec<FileScanResult>)
    requires
        crate::revision::texts_fit(notes@),
    ensures
        r@.len() == findings_by_note(notes@).len(),
        forall|i: int| 0 <= i < r@.len() ==> (#[trigger] r@[i]).path@ == findings_by_note(notes@)[i].0
            && findings_match(findings_by_note(notes@)[i].1, r@[i].findings@),
{
    let found = scan_notes(notes);
    let mut out: Vec<FileScanResult> = Vec::new();
    let mut i: usize = 0;
    while i < found.len()
        invariant
            i <= found@.len(),
            found@.len() == findings_by_note(notes@).len(),
            forall|k: int| 0 <= k < found@.len() ==> (#[trigger] found@[k]).path@ == findings_by_note(notes@)[k].0
                && found@[k].findings@ == findings_by_note(notes@)[k].1,
            out@.len() == i,
            forall|k: int| 0 <= k < i ==> (#[trigger] out@[k]).path@ == findings_by_note(notes@)[k].0
                && findings_match(findings_by_note(notes@)[k].1, out@[k].findings@),
        decreases found@.len() - i,
    {
        let n = &found[i];
        let findings = scan_findings(&n.findings);
        out.push(FileScanResult { path: n.path.clone(), findings });
        i = i + 1;
    }
    out
}

} // verus!
