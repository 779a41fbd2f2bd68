//! Full-text search over the notes: literal or regular-expression queries,
//! matched line by line.

use vstd::prelude::*;
use crate::error::CoreError;
use crate::pattern::{compile, escape, escaped, is_match, regex_compile_error, regex_matches, CompiledRegex};
use crate::text::{chars_of, slice_chars, split_char, split_chars, string_from_chars};

verus! {

/// A line of a note that matches the query.
#[derive(Debug, Clone, PartialEq, Eq)]
pub struct SearchHit {
    pub path: String,
    /// 1-based line number.
    pub line: usize,
    pub snippet: String,
}

/// The regex source for a query: the query itself, or the query escaped so
/// that it matches literally.
pub open spec fn query_pattern(query: Seq<char>, use_regex: bool) -> Seq<char> {
    if use_regex { query } else { escaped(query) }
}

/// Compile the search pattern; a pattern that does not compile is
/// `InvalidPattern` with the compiler's message.
pub fn build_pattern(query: &str, use_regex: bool) -> (r: Result<CompiledRegex, CoreError>)
    ensures
        match r {
            Ok(re) => re.pattern() == query_pattern(query@, use_regex)
                && regex_compile_error(query_pattern(query@, use_regex)) is None,
            Err(e) => e matches CoreError::InvalidPattern(s)
                && regex_compile_error(query_pattern(query@, use_regex)) == Some(s@),
        },
{
    let pat = if use_regex {
        crate::text::owned(query)
    } else {
        escape(query)
    };
    match compile(pat.as_str()) {
        Ok(re) => Ok(re),
        Err(m) => Err(CoreError::InvalidPattern(m)),
    }
}

/// `s` without one trailing carriage return.
pub open spec fn strip_cr(s: Seq<char>) -> Seq<char> {
    if s.len() > 0 && s.last() == '\r' { s.drop_last() } else { s }
}

/// The lines of `s` as `str::lines` yields them: split at `\n`, a `\r`
/// before the `\n` removed, and no empty last line after a final `\n`.
pub open spec fn text_lines(s: Seq<char>) -> Seq<Seq<char>> {
    let parts = split_char(s, '\n');
    let m = parts.len() - 1;
    Seq::new(m as nat, |k: int| strip_cr(parts[k])) + if parts[m].len() > 0 { seq![parts[m]] } else { seq![] }
}

/// The hits among the first `n` lines.
pub open spec fn hits_upto(pattern: Seq<char>, lines: Seq<Seq<char>>, n: nat) -> Seq<(int, Seq<char>)>
    decreases n,
{
    if n == 0 {
        Seq::empty()
    } else {
        let rest = hits_upto(pattern, lines, (n - 1) as nat);
        if regex_matches(pattern, lines[n - 1]) {
            rest.push((n as int, lines[n - 1]))
        } else {
            rest
        }
    }
}

/// The matching lines of `content`: line number and text, in order.
pub open spec fn line_hits(pattern: Seq<char>, content: Seq<char>) -> Seq<(int, Seq<char>)> {
    hits_upto(pattern, text_lines(content), text_lines(content).len())
}

fn lines_of(content: &str) -> (r: Vec<Vec<char>>)
    ensures
        r@.len() == text_lines(content@).len(),
        forall|k: int| 0 <= k < r@.len() ==> (#[trigger] r@[k])@ == text_lines(content@)[k],
{
    let v = chars_of(content);
    let parts = split_chars(&v, '\n');
    proof {
        crate::text::lemma_split_nonempty(v@, '\n');
    }
    let ghost sp = split_char(v@, '\n');
    let m = parts.len() - 1;
    let mut out: Vec<Vec<char>> = Vec::new();
    let mut k: usize = 0;
    while k < m
        invariant
            k <= m,
            m + 1 == parts@.len(),
            sp == split_char(content@, '\n'),
            parts@.len() == sp.len(),
            forall|j: int| 0 <= j < parts@.len() ==> (#[trigger] parts@[j])@ == sp[j],
            out@.len() == k,
            forall|j: int| 0 <= j < k ==> (#[trigger] out@[j])@ == strip_cr(sp[j]),
        decreases m - k,
    {
        let p = &parts[k];
        assert(p@ == sp[k as int]);
        let line = if p.len() > 0 && p[p.len() - 1] == '\r' {
            slice_chars(p, 0, p.len() - 1)
        } else {
            slice_chars(p, 0, p.len())
        };
        assert(line@ =~= strip_cr(sp[k as int]));
        out.push(line);
        k = k + 1;
    }
    if parts[m].len() > 0 {
        let last = slice_chars(&parts[m], 0, parts[m].len());
        assert(last@ =~= sp[m as int]);
        out.push(last);
    }
    proof {
        let tl = text_lines(content@);
        assert(tl.len() == out@.len());
        assert forall|j: int| 0 <= j < out@.len() implies (#[trigger] out@[j])@ == tl[j] by {
            if j < m {
                assert(tl[j] == strip_cr(sp[j]));
            }
        }
    }
    out
}

/// The hits of `re` in the note `rel` with text `content`.
pub fn search_content(re: &CompiledRegex, rel: &str, content: &str) -> (r: Vec<SearchHit>)
    ensures
        r@.len() == line_hits(re.pattern(), content@).len(),
        forall|k: int| 0 <= k < r@.len() ==> (#[trigger] r@[k]).path@ == rel@
            && r@[k].line == line_hits(re.pattern(), content@)[k].0
            && r@[k].snippet@ == line_hits(re.pattern(), content@)[k].1,
{
    let lines = lines_of(content);
    let ghost tl = text_lines(content@);
    let mut hits: Vec<SearchHit> = Vec::new();
    let mut i: usize = 0;
    while i < lines.len()
        invariant
            i <= lines@.len(),
            lines@.len() == tl.len(),
            tl == text_lines(content@),
            forall|k: int| 0 <= k < lines@.len() ==> (#[trigger] lines@[k])@ == tl[k],
            hits@.len() == hits_upto(re.pattern(), tl, i as nat).len(),
            forall|k: int| 0 <= k < hits@.len() ==> (#[trigger] hits@[k]).path@ == rel@
                && hits@[k].line == hits_upto(re.pattern(), tl, i as nat)[k].0
                && hits@[k].snippet@ == hits_upto(re.pattern(), tl, i as nat)[k].1,
            hits@.len() <= i,
        decreases lines@.len() - i,
    {
        let line = string_from_chars(&lines[i]);
        assert(line@ == tl[i as int]);
        if is_match(re, line.as_str()) {
            hits.push(SearchHit { path: crate::text::owned(rel), line: i + 1, snippet: line });
        }
        i = i + 1;
    }
    hits
}


// ── Laws of lines ────────────────────────────────────────────────────────────

/// A non-empty text without a line feed is a single line, searched as it
/// stands.
pub proof fn law_text_without_newline_is_one_line(b: Seq<char>)
    requires
        b.len() > 0,
        forall|k: int| 0 <= k < b.len() ==> b[k] != '\n',
    ensures
        text_lines(b) == seq![b],
{
    crate::text::lemma_split_without_separator(b, '\n');
    assert(text_lines(b) =~= seq![b]);
}

/// After the last line feed, a non-empty rest of the text is one more line
/// (the last): a note need not end in a line feed for its last line to be
/// searched.
pub proof fn law_unterminated_last_line(q: Seq<char>, b: Seq<char>)
    requires
        q.len() > 0,
        q.last() == '\n',
        b.len() > 0,
        forall|k: int| 0 <= k < b.len() ==> b[k] != '\n',
    ensures
        text_lines(q + b) == text_lines(q).push(b),
        text_lines(q + b).last() == b,
{
    crate::text::lemma_split_after_separator(q, '\n', b);
    let pq = split_char(q, '\n');
    let pb = split_char(q + b, '\n');
    crate::text::lemma_split_nonempty(q.drop_last(), '\n');
    assert(pq == split_char(q.drop_last(), '\n').push(Seq::<char>::empty()));
    assert(pq[pq.len() - 1].len() == 0);
    assert(text_lines(q + b) =~= text_lines(q).push(b));
}

/// A line ended by a line feed is one line, without a carriage return just
/// before the line feed, after the lines of the text before it (empty or
/// ending in a line feed).
pub proof fn law_terminated_line(a: Seq<char>, l: Seq<char>)
    requires
        a.len() == 0 || a.last() == '\n',
        forall|k: int| 0 <= k < l.len() ==> l[k] != '\n',
    ensures
        text_lines(a + l + seq!['\n']) == text_lines(a).push(
            if l.len() > 0 && l.last() == '\r' { l.drop_last() } else { l },
        ),
{
    let t = a + l + seq!['\n'];
    assert(t.drop_last() =~= a + l);
    assert(t.last() == '\n');
    crate::text::lemma_split_nonempty(a + l, '\n');
    let pal = split_char(a + l, '\n');
    assert(split_char(t, '\n') == pal.push(Seq::<char>::empty()));
    if a.len() == 0 {
        assert(a + l =~= l);
        crate::text::lemma_split_without_separator(l, '\n');
        crate::text::lemma_split_without_separator(a, '\n');
        assert(a =~= Seq::<char>::empty());
        assert(text_lines(a) =~= Seq::<Seq<char>>::empty());
        assert(text_lines(t) =~= text_lines(a).push(strip_cr(l)));
    } else {
        crate::text::lemma_split_after_separator(a, '\n', l);
        let pa = split_char(a, '\n');
        crate::text::lemma_split_nonempty(a.drop_last(), '\n');
        assert(pa == split_char(a.drop_last(), '\n').push(Seq::<char>::empty()));
        assert(pa[pa.len() - 1].len() == 0);
        assert(text_lines(t) =~= text_lines(a).push(strip_cr(l)));
    }
}
} // verus!
