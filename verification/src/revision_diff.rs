//! Unified diffs of the files a revision rewrites, to be looked over before the
//! revision is applied.

use vstd::prelude::*;
use similar::TextDiff;
use crate::error::CoreError;
use crate::link_index::{renamed_text, replace_wikilinks};
use crate::cmark::cmark_gfm_spans;
use crate::revision::RevisionPlan;
use crate::text::{chars_of, owned, push_str, str_eq, string_from_chars};

verus! {

/// One file change to show as a diff.
pub struct DiffRequest {
    /// Vault-relative path shown in the diff header for the old side.
    pub old_path: String,
    /// Vault-relative path shown in the diff header for the new side.
    pub new_path: String,
    pub old_content: String,
    pub new_content: String,
}

/// The text of a line-by-line unified diff of `old` against `new`, with
/// `old_header` and `new_header` as the file names of its header.
pub uninterp spec fn unified_line_diff(old: Seq<char>, new: Seq<char>, old_header: Seq<char>, new_header: Seq<char>) -> Seq<char>;

/// The two header lines of a unified diff.
pub open spec fn diff_header(old_header: Seq<char>, new_header: Seq<char>) -> Seq<char> {
    "--- "@ + old_header + "\n"@ + "+++ "@ + new_header + "\n"@
}

/// `TextDiff::from_lines(old, new).unified_diff().header(a, b)`, written
/// out as text. Its result is named [`unified_line_diff`]; the formatter
/// writes nothing when there is no hunk and otherwise starts with the two
/// header lines, which is all that is stated of its shape.
#[verifier::external_body]
fn line_diff(old: &str, new: &str, old_header: &str, new_header: &str) -> (r: String)
    ensures
        r@ == unified_line_diff(old@, new@, old_header@, new_header@),
        r@.len() == 0 || r@.subrange(0, diff_header(old_header@, new_header@).len() as int) == diff_header(old_header@, new_header@),
{
    let diff = TextDiff::from_lines(old, new);
    let mut udiff = diff.unified_diff();
    udiff.header(old_header, new_header);
    format!("{}", udiff)
}

/// Generate a unified diff string for a single file change, with
/// `a/<old_path>` and `b/<new_path>` as its header. Never fails.
pub fn generate_diff(req: &DiffRequest) -> (r: Result<String, CoreError>)
    ensures
        r matches Ok(s) && s@ == unified_line_diff(req.old_content@, req.new_content@,
            "a/"@ + req.old_path@, "b/"@ + req.new_path@),
{
    let mut a = chars_of("a/");
    push_str(&mut a, req.old_path.as_str());
    let mut b = chars_of("b/");
    push_str(&mut b, req.new_path.as_str());
    let a = string_from_chars(&a);
    let b = string_from_chars(&b);
    Ok(line_diff(req.old_content.as_str(), req.new_content.as_str(), a.as_str(), b.as_str()))
}

/// The diff of one request, as [`generate_diff`] gives it.
pub open spec fn request_diff(d: DiffRequest) -> Seq<char> {
    unified_line_diff(d.old_content@, d.new_content@, "a/"@ + d.old_path@, "b/"@ + d.new_path@)
}

/// The diffs of all requests, one after the other.
pub open spec fn combined_text(ds: Seq<DiffRequest>) -> Seq<char>
    decreases ds.len(),
{
    if ds.len() == 0 { Seq::empty() } else { combined_text(ds.drop_last()) + request_diff(ds.last()) }
}

/// All the diffs of `diffs`, concatenated in order: the patch of a whole
/// revision.
pub fn combined_diff(diffs: &Vec<DiffRequest>) -> (r: String)
    ensures
        r@ == combined_text(diffs@),
{
    let mut out: Vec<char> = Vec::new();
    let mut i: usize = 0;
    assert(diffs@.take(0) =~= Seq::<DiffRequest>::empty());
    while i < diffs.len()
        invariant
            i <= diffs@.len(),
            out@ == combined_text(diffs@.take(i as int)),
        decreases diffs@.len() - i,
    {
        assert(diffs@.take(i + 1).drop_last() =~= diffs@.take(i as int));
        match generate_diff(&diffs[i]) {
            Ok(s) => push_str(&mut out, s.as_str()),
            Err(_) => {},
        }
        i = i + 1;
    }
    assert(diffs@.take(diffs@.len() as int) =~= diffs@);
    string_from_chars(&out)
}

/// The diff request for one affected file of `plan` whose current text is
/// `old_content`: the renamed source keeps its old and new paths apart,
/// every other file shows its own path on both sides.
pub open spec fn plan_diff_spec(plan_old_path: Seq<char>, plan_new_path: Seq<char>, old_name: Seq<char>,
    new_name: Seq<char>, path: Seq<char>, old_content: Seq<char>) -> (Seq<char>, Seq<char>, Seq<char>, Seq<char>)
{
    (
        if path == plan_old_path { plan_old_path } else { path },
        if path == plan_old_path { plan_new_path } else { path },
        old_content,
        renamed_text(old_content, cmark_gfm_spans(old_content), old_name, new_name),
    )
}

/// The view of a diff request as its four texts.
pub open spec fn request_view(d: DiffRequest) -> (Seq<char>, Seq<char>, Seq<char>, Seq<char>) {
    (d.old_path@, d.new_path@, d.old_content@, d.new_content@)
}

/// Per-file diff requests for all affected files of `plan`, given the
/// current text of each (`contents[i]` belongs to `plan.affected_files[i]`).
/// The new text is the old one with the wikilinks to the old name
/// rewritten to the new name.
pub fn diffs_for_plan(plan: &RevisionPlan, contents: &Vec<String>) -> (r: Vec<DiffRequest>)
    requires
        contents@.len() == plan.affected_files@.len(),
        forall|i: int| 0 <= i < contents@.len() ==> (#[trigger] contents@[i])@.len() < usize::MAX,
    ensures
        r@.len() == contents@.len(),
        forall|i: int| 0 <= i < r@.len() ==> request_view(#[trigger] r@[i]) == plan_diff_spec(
            plan.old_path@, plan.new_path@, plan.old_name@, plan.new_name@,
            plan.affected_files@[i].path@, contents@[i]@),
{
    let mut out: Vec<DiffRequest> = Vec::new();
    let mut i: usize = 0;
    while i < contents.len()
        invariant
            i <= contents@.len(),
            contents@.len() == plan.affected_files@.len(),
            forall|k: int| 0 <= k < contents@.len() ==> (#[trigger] contents@[k])@.len() < usize::MAX,
            out@.len() == i,
            forall|k: int| 0 <= k < i ==> request_view(#[trigger] out@[k]) == plan_diff_spec(
                plan.old_path@, plan.new_path@, plan.old_name@, plan.new_name@,
                plan.affected_files@[k].path@, contents@[k]@),
        decreases contents@.len() - i,
    {
        let path = plan.affected_files[i].path.as_str();
        let old_content = contents[i].as_str();
        let is_source = str_eq(&chars_of(path), plan.old_path.as_str());
        let old_path = if is_source { owned(plan.old_path.as_str()) } else { owned(path) };
        let new_path = if is_source { owned(plan.new_path.as_str()) } else { owned(path) };
        let new_content = replace_wikilinks(old_content, plan.old_name.as_str(), plan.new_name.as_str());
        out.push(DiffRequest { old_path, new_path, old_content: owned(old_content), new_content });
        i = i + 1;
    }
    out
}

} // verus!
