//! Wikilink extraction, resolution and renaming.
//!
//! The link grammar is `!?[[target(#heading)?(|display)?]]`, where target and
//! heading exclude `[ ] | # \n` and display excludes `[ ] \n`. Links are found
//! left to right without overlap; a link is ignored when it starts inside the
//! YAML frontmatter, an HTML comment, or a code block / inline code span.

use vstd::prelude::*;
use crate::cmark::MdKind;
use crate::sanitize::line_at;
use unicode_normalization::UnicodeNormalization;
use crate::text::{slice_chars, chars_of, string_from_chars, push_all, trim, trim_bounds, utf8_width, byte_offset, byte_len, char_width, has_at, matches_at};

verus! {

// ── Link grammar ─────────────────────────────────────────────────────────────

/// Characters allowed in a link target or heading.
pub open spec fn is_target_char(c: char) -> bool {
    c != '[' && c != ']' && c != '|' && c != '#' && c != '\n'
}

/// Characters allowed in a link's display text.
pub open spec fn is_display_char(c: char) -> bool {
    c != '[' && c != ']' && c != '\n'
}

/// End of the run of target characters starting at `i`.
pub open spec fn target_run_end(s: Seq<char>, i: int) -> int
    decreases s.len() - i,
{
    if i < 0 || i >= s.len() || !is_target_char(s[i]) {
        i
    } else {
        target_run_end(s, i + 1)
    }
}

/// End of the run of display characters starting at `i`.
pub open spec fn display_run_end(s: Seq<char>, i: int) -> int
    decreases s.len() - i,
{
    if i < 0 || i >= s.len() || !is_display_char(s[i]) {
        i
    } else {
        display_run_end(s, i + 1)
    }
}

/// Character positions of one wikilink occurrence.
#[derive(Clone, Copy, Debug)]
pub struct LinkSpan {
    /// Position of `!` (embed) or of the first `[`.
    pub start: usize,
    /// Position just after the closing `]]`.
    pub end: usize,
    /// `true` for `![[...]]`.
    pub embed: bool,
    /// Range of the raw target text.
    pub target: (usize, usize),
    /// Range of the raw heading text after `#`, if any.
    pub heading: Option<(usize, usize)>,
    /// Range of the raw display text after `|`, if any.
    pub display: Option<(usize, usize)>,
}

/// The wikilink that starts exactly at position `p` of `s`, if any.
pub open spec fn link_at(s: Seq<char>, p: int) -> Option<LinkSpan> {
    let embed = 0 <= p < s.len() && s[p] == '!';
    let q = if embed { p + 1 } else { p };
    if !(0 <= p && q + 1 < s.len() && s[q] == '[' && s[q + 1] == '[') {
        None
    } else {
        let t0 = q + 2;
        let t1 = target_run_end(s, t0);
        if t1 == t0 || t1 >= s.len() {
            None
        } else {
            let has_h = s[t1] == '#';
            let h1 = if has_h { target_run_end(s, t1 + 1) } else { t1 };
            if has_h && (h1 == t1 + 1 || h1 >= s.len()) {
                None
            } else {
                let has_d = s[h1] == '|';
                let d1 = if has_d { display_run_end(s, h1 + 1) } else { h1 };
                if has_d && d1 == h1 + 1 {
                    None
                } else if !(d1 + 1 < s.len() && s[d1] == ']' && s[d1 + 1] == ']') {
                    None
                } else {
                    Some(LinkSpan {
                        start: p as usize,
                        end: (d1 + 2) as usize,
                        embed: embed,
                        target: (t0 as usize, t1 as usize),
                        heading: if has_h { Some(((t1 + 1) as usize, h1 as usize)) } else { None },
                        display: if has_d { Some(((h1 + 1) as usize, d1 as usize)) } else { None },
                    })
                }
            }
        }
    }
}

/// All wikilinks of `s` found by a left-to-right, non-overlapping scan from `p`.
pub open spec fn links_from(s: Seq<char>, p: int) -> Seq<LinkSpan>
    decreases s.len() - p,
{
    if p < 0 || p >= s.len() {
        seq![]
    } else {
        match link_at(s, p) {
            Some(m) => if p < m.end <= s.len() { seq![m] + links_from(s, m.end as int) } else { seq![] },
            None => links_from(s, p + 1),
        }
    }
}

proof fn lemma_target_run(s: Seq<char>, i: int)
    requires
        0 <= i <= s.len(),
    ensures
        i <= target_run_end(s, i) <= s.len(),
        forall|k: int| i <= k < target_run_end(s, i) ==> is_target_char(#[trigger] s[k]),
        target_run_end(s, i) < s.len() ==> !is_target_char(s[target_run_end(s, i)]),
    decreases s.len() - i,
{
    if i < s.len() && is_target_char(s[i]) {
        lemma_target_run(s, i + 1);
    }
}

proof fn lemma_display_run(s: Seq<char>, i: int)
    requires
        0 <= i <= s.len(),
    ensures
        i <= display_run_end(s, i) <= s.len(),
        forall|k: int| i <= k < display_run_end(s, i) ==> is_display_char(#[trigger] s[k]),
        display_run_end(s, i) < s.len() ==> !is_display_char(s[display_run_end(s, i)]),
    decreases s.len() - i,
{
    if i < s.len() && is_display_char(s[i]) {
        lemma_display_run(s, i + 1);
    }
}

/// Facts about a link found at `p`: its parts are ordered and in bounds.
pub proof fn lemma_link_shape(s: Seq<char>, p: int)
    requires
        s.len() <= usize::MAX,
        link_at(s, p) is Some,
    ensures
        ({
            let m = link_at(s, p)->0;
            &&& m.start == p
            &&& p + 4 <= m.end <= s.len()
            &&& p < m.target.0 < m.target.1 < m.end
            &&& (m.heading matches Some(h) ==> m.target.1 < h.0 <= h.1 < m.end)
            &&& (m.display matches Some(d) ==> m.target.1 < d.0 <= d.1 < m.end)
        }),
{
    let embed = 0 <= p < s.len() && s[p] == '!';
    let q = if embed { p + 1 } else { p };
    let t0 = q + 2;
    lemma_target_run(s, t0);
    let t1 = target_run_end(s, t0);
    if s[t1] == '#' {
        lemma_target_run(s, t1 + 1);
    }
    let h1 = if s[t1] == '#' { target_run_end(s, t1 + 1) } else { t1 };
    if s[h1] == '|' {
        lemma_display_run(s, h1 + 1);
    }
}

fn target_end_exec(v: &Vec<char>, i: usize) -> (r: usize)
    requires
        i <= v.len(),
    ensures
        r == target_run_end(v@, i as int),
        i <= r <= v.len(),
{
    let mut j: usize = i;
    while j < v.len() && v[j] != '[' && v[j] != ']' && v[j] != '|' && v[j] != '#' && v[j] != '\n'
        invariant
            i <= j <= v.len(),
            target_run_end(v@, j as int) == target_run_end(v@, i as int),
        decreases v.len() - j,
    {
        j = j + 1;
    }
    j
}

fn display_end_exec(v: &Vec<char>, i: usize) -> (r: usize)
    requires
        i <= v.len(),
    ensures
        r == display_run_end(v@, i as int),
        i <= r <= v.len(),
{
    let mut j: usize = i;
    while j < v.len() && v[j] != '[' && v[j] != ']' && v[j] != '\n'
        invariant
            i <= j <= v.len(),
            display_run_end(v@, j as int) == display_run_end(v@, i as int),
        decreases v.len() - j,
    {
        j = j + 1;
    }
    j
}

/// The wikilink starting at position `p` of `v`, if any.
pub fn link_at_exec(v: &Vec<char>, p: usize) -> (r: Option<LinkSpan>)
    requires
        p <= v.len(),
    ensures
        r == link_at(v@, p as int),
{
    let n = v.len();
    let embed = p < n && v[p] == '!';
    let q: usize = if embed { p + 1 } else { p };
    if !(q < n && q + 1 < n && v[q] == '[' && v[q + 1] == '[') {
        return None;
    }
    let t0: usize = q + 2;
    let t1 = target_end_exec(v, t0);
    if t1 == t0 || t1 >= n {
        return None;
    }
    let has_h = v[t1] == '#';
    let h1: usize = if has_h { target_end_exec(v, t1 + 1) } else { t1 };
    if has_h && (h1 == t1 + 1 || h1 >= n) {
        return None;
    }
    let has_d = v[h1] == '|';
    let d1: usize = if has_d { display_end_exec(v, h1 + 1) } else { h1 };
    if has_d && d1 == h1 + 1 {
        return None;
    }
    if !(d1 < n && d1 + 1 < n && v[d1] == ']' && v[d1 + 1] == ']') {
        return None;
    }
    Some(LinkSpan {
        start: p,
        end: d1 + 2,
        embed: embed,
        target: (t0, t1),
        heading: if has_h { Some((t1 + 1, h1)) } else { None },
        display: if has_d { Some((h1 + 1, d1)) } else { None },
    })
}

/// All wikilink occurrences of `v`, left to right.
pub fn scan_links(v: &Vec<char>) -> (r: Vec<LinkSpan>)
    ensures
        r@ == links_from(v@, 0),
        forall|k: int| 0 <= k < r@.len() ==> link_at(v@, r@[k].start as int) == Some(#[trigger] r@[k]),
{
    let mut out: Vec<LinkSpan> = Vec::new();
    let mut p: usize = 0;
    while p < v.len()
        invariant
            p <= v.len(),
            out@ + links_from(v@, p as int) == links_from(v@, 0),
            forall|k: int| 0 <= k < out@.len() ==> link_at(v@, out@[k].start as int) == Some(#[trigger] out@[k]),
        decreases v.len() - p,
    {
        match link_at_exec(v, p) {
            Some(m) => {
                proof {
                    lemma_link_shape(v@, p as int);
                }
                assert(links_from(v@, p as int) == seq![m] + links_from(v@, m.end as int));
                out.push(m);
                assert(out@ + links_from(v@, m.end as int) =~= links_from(v@, 0));
                p = m.end;
            },
            None => {
                p = p + 1;
            },
        }
    }
    assert(links_from(v@, p as int) == Seq::<LinkSpan>::empty());
    assert(out@ =~= links_from(v@, 0));
    out
}

} // verus!

verus! {

// ── Positions ────────────────────────────────────────────────────────────────

/// 1-indexed byte column of character position `i` within its line.
pub open spec fn byte_column_at(s: Seq<char>, i: int) -> int
    decreases i,
{
    if i <= 0 {
        1
    } else if s[i - 1] == '\n' {
        1
    } else {
        byte_column_at(s, i - 1) + utf8_width(s[i - 1])
    }
}

proof fn lemma_byte_column_bound(s: Seq<char>, i: int)
    requires
        0 <= i <= s.len(),
    ensures
        1 <= byte_column_at(s, i) <= byte_offset(s, i) + 1,
    decreases i,
{
    if i > 0 {
        lemma_byte_column_bound(s, i - 1);
        crate::text::lemma_byte_offset_step(s, i - 1);
        crate::text::lemma_width_encode(s[i - 1]);
        crate::text::lemma_byte_offset_bounds(s, i - 1);
    }
}

/// Line, byte column and byte offset of every position `0..=len` of `v`.
pub struct Positions {
    pub lines: Vec<usize>,
    pub columns: Vec<usize>,
    pub offsets: Vec<usize>,
}

impl Positions {
    /// The tables are exact for the characters `s`.
    pub open spec fn describes(&self, s: Seq<char>) -> bool {
        &&& self.lines@.len() == s.len() + 1
        &&& self.columns@.len() == s.len()
        &&& self.offsets@.len() == s.len() + 1
        &&& forall|k: int| 0 <= k <= s.len() ==> #[trigger] self.lines@[k] == line_at(s, k)
        &&& forall|k: int| 0 <= k < s.len() ==> #[trigger] self.columns@[k] == byte_column_at(s, k)
        &&& forall|k: int| 0 <= k <= s.len() ==> #[trigger] self.offsets@[k] == byte_offset(s, k)
    }
}

/// Build the position tables of `v`, whose UTF-8 length is `nbytes`.
pub fn positions(v: &Vec<char>, nbytes: usize) -> (r: Positions)
    requires
        nbytes == byte_len(v@),
        v.len() < usize::MAX,
    ensures
        r.describes(v@),
{
    let mut lines: Vec<usize> = Vec::new();
    let mut columns: Vec<usize> = Vec::new();
    let mut offsets: Vec<usize> = Vec::new();
    let mut line: usize = 1;
    let mut col: usize = 1;
    let mut off: usize = 0;
    let mut i: usize = 0;
    proof {
        assert(v@.take(0) =~= Seq::<char>::empty());
    }
    while i < v.len()
        invariant
            i <= v.len() < usize::MAX,
            nbytes == byte_len(v@),
            lines@.len() == i && columns@.len() == i && offsets@.len() == i,
            line as int == line_at(v@, i as int),
            i < v.len() ==> col as int == byte_column_at(v@, i as int),
            off as int == byte_offset(v@, i as int),
            1 <= line <= i + 1,
            forall|k: int| 0 <= k < i ==> #[trigger] lines@[k] == line_at(v@, k),
            forall|k: int| 0 <= k < i ==> #[trigger] columns@[k] == byte_column_at(v@, k),
            forall|k: int| 0 <= k < i ==> #[trigger] offsets@[k] == byte_offset(v@, k),
        decreases v.len() - i,
    {
        lines.push(line);
        columns.push(col);
        offsets.push(off);
        let c = v[i];
        proof {
            crate::text::lemma_byte_offset_step(v@, i as int);
            crate::text::lemma_byte_offset_bounds(v@, i as int + 1);
            lemma_byte_column_bound(v@, i as int);
        }
        let w = char_width(c);
        if c == '\n' {
            line = line + 1;
            col = 1;
        } else if i + 1 < v.len() {
            proof {
                crate::text::lemma_byte_offset_bounds(v@, i as int + 1);
                lemma_byte_column_bound(v@, i as int + 1);
            }
            col = col + w;
        }
        off = off + w;
        i = i + 1;
    }
    lines.push(line);
    offsets.push(off);
    Positions { lines, columns, offsets }
}

// ── Frontmatter ──────────────────────────────────────────────────────────────

/// `s` without its trailing carriage returns.
pub open spec fn strip_cr_end(s: Seq<char>) -> Seq<char>
    decreases s.len(),
{
    if s.len() > 0 && s.last() == '\r' {
        strip_cr_end(s.drop_last())
    } else {
        s
    }
}

/// Position of the first `'\n'` at or after `i`, or the end of `s`.
pub open spec fn next_newline(s: Seq<char>, i: int) -> int
    decreases s.len() - i,
{
    if i < 0 || i >= s.len() || s[i] == '\n' {
        i
    } else {
        next_newline(s, i + 1)
    }
}

/// A frontmatter delimiter line: `---` or `...`.
pub open spec fn is_fm_close(line: Seq<char>) -> bool {
    line == seq!['-', '-', '-'] || line == seq!['.', '.', '.']
}

/// End (just after its line break) of the first closing line at or after `pos`.
pub open spec fn fm_close_from(s: Seq<char>, pos: int) -> Option<int>
    decreases s.len() - pos,
{
    if pos < 0 || pos >= s.len() {
        None
    } else {
        let nn = next_newline(s, pos);
        let le = if nn < s.len() { nn + 1 } else { nn };
        if is_fm_close(strip_cr_end(s.subrange(pos, nn))) {
            Some(le)
        } else if pos < le <= s.len() {
            fm_close_from(s, le)
        } else {
            None
        }
    }
}

/// End of the YAML frontmatter: the first line must be `---` and the block
/// runs through the next `---` or `...` line. `None` when there is no
/// closed frontmatter.
pub open spec fn frontmatter_end(s: Seq<char>) -> Option<int> {
    let nl = next_newline(s, 0);
    if nl >= s.len() {
        None
    } else if strip_cr_end(s.subrange(0, nl)) != seq!['-', '-', '-'] {
        None
    } else {
        fm_close_from(s, nl + 1)
    }
}

proof fn lemma_next_newline(s: Seq<char>, i: int)
    requires
        0 <= i <= s.len(),
    ensures
        i <= next_newline(s, i) <= s.len(),
        next_newline(s, i) < s.len() ==> s[next_newline(s, i)] == '\n',
    decreases s.len() - i,
{
    if i < s.len() && s[i] != '\n' {
        lemma_next_newline(s, i + 1);
    }
}

fn next_newline_exec(v: &Vec<char>, i: usize) -> (r: usize)
    requires
        i <= v.len(),
    ensures
        r == next_newline(v@, i as int),
        i <= r <= v.len(),
{
    let mut j: usize = i;
    while j < v.len() && v[j] != '\n'
        invariant
            i <= j <= v.len(),
            next_newline(v@, j as int) == next_newline(v@, i as int),
        decreases v.len() - j,
    {
        j = j + 1;
    }
    j
}

/// Whether `v[from..to]`, without trailing carriage returns, is `c c c`.
fn line_is_triple(v: &Vec<char>, from: usize, to: usize, c: char) -> (r: bool)
    requires
        from <= to <= v.len(),
    ensures
        r == (strip_cr_end(v@.subrange(from as int, to as int)) == seq![c, c, c]),
{
    let mut b: usize = to;
    while b > from && v[b - 1] == '\r'
        invariant
            from <= b <= to <= v.len(),
            strip_cr_end(v@.subrange(from as int, b as int))
                == strip_cr_end(v@.subrange(from as int, to as int)),
        decreases b,
    {
        assert(v@.subrange(from as int, b as int).drop_last() =~= v@.subrange(from as int, b - 1));
        b = b - 1;
    }
    let ghost line = v@.subrange(from as int, b as int);
    assert(strip_cr_end(line) == line);
    if b - from != 3 {
        assert(line.len() != 3);
        return false;
    }
    let r = v[from] == c && v[from + 1] == c && v[from + 2] == c;
    if r {
        assert(line =~= seq![c, c, c]);
    } else {
        assert(line[0] != c || line[1] != c || line[2] != c);
    }
    r
}

/// End of the frontmatter block of `v`, if it has a closed one.
pub fn frontmatter_end_exec(v: &Vec<char>) -> (r: Option<usize>)
    ensures
        r matches Some(e) ==> frontmatter_end(v@) == Some(e as int),
        r is None ==> frontmatter_end(v@) is None,
{
    let nl = next_newline_exec(v, 0);
    if nl >= v.len() {
        return None;
    }
    if !line_is_triple(v, 0, nl, '-') {
        return None;
    }
    let mut pos: usize = nl + 1;
    while pos < v.len()
        invariant
            0 <= nl < v.len(),
            nl + 1 <= pos <= v.len(),
            frontmatter_end(v@) == fm_close_from(v@, pos as int),
        decreases v.len() - pos,
    {
        let nn = next_newline_exec(v, pos);
        let le: usize = if nn < v.len() { nn + 1 } else { nn };
        if line_is_triple(v, pos, nn, '-') || line_is_triple(v, pos, nn, '.') {
            return Some(le);
        }
        pos = le;
    }
    None
}

// ── HTML comments ────────────────────────────────────────────────────────────

/// End (after `-->`) of the first comment close at or after `i`.
pub open spec fn comment_close(s: Seq<char>, i: int) -> Option<int>
    decreases s.len() - i,
{
    if i < 0 || i + 3 > s.len() {
        None
    } else if has_at(s, i, seq!['-', '-', '>']) {
        Some(i + 3)
    } else {
        comment_close(s, i + 1)
    }
}

/// HTML comments `<!-- ... -->` of `s` found left to right from `p`
/// (shortest match, possibly spanning lines).
pub open spec fn comments_from(s: Seq<char>, p: int) -> Seq<(int, int)>
    decreases s.len() - p,
{
    if p < 0 || p >= s.len() {
        seq![]
    } else if has_at(s, p, seq!['<', '!', '-', '-']) && comment_close(s, p + 4) is Some {
        let e = comment_close(s, p + 4)->0;
        if p < e <= s.len() {
            seq![(p, e)] + comments_from(s, e)
        } else {
            seq![]
        }
    } else {
        comments_from(s, p + 1)
    }
}

proof fn lemma_comment_close(s: Seq<char>, i: int)
    requires
        0 <= i,
    ensures
        comment_close(s, i) matches Some(e) ==> i + 3 <= e <= s.len(),
    decreases s.len() - i,
{
    if i + 3 <= s.len() && !has_at(s, i, seq!['-', '-', '>']) {
        lemma_comment_close(s, i + 1);
    }
}

fn comment_close_exec(v: &Vec<char>, i: usize, close: &Vec<char>) -> (r: Option<usize>)
    requires
        close@ == seq!['-', '-', '>'],
    ensures
        r matches Some(e) ==> comment_close(v@, i as int) == Some(e as int),
        r is None ==> comment_close(v@, i as int) is None,
{
    let mut j: usize = i;
    while j <= v.len() && v.len() - j >= 3
        invariant
            i <= j,
            close@ == seq!['-', '-', '>'],
            comment_close(v@, j as int) == comment_close(v@, i as int),
        decreases v.len() - j,
    {
        if matches_at(v, j, close) {
            return Some(j + 3);
        }
        j = j + 1;
    }
    None
}

/// All HTML comment ranges of `v`, in order.
pub fn comment_ranges(v: &Vec<char>) -> (r: Vec<(usize, usize)>)
    ensures
        r@.len() == comments_from(v@, 0).len(),
        forall|k: int| 0 <= k < r@.len() ==>
            (#[trigger] r@[k]).0 as int == comments_from(v@, 0)[k].0
            && r@[k].1 as int == comments_from(v@, 0)[k].1,
{
    let open = chars_of("<!--");
    let close = chars_of("-->");
    proof {
        reveal_strlit("<!--");
        reveal_strlit("-->");
        assert(open@ =~= seq!['<', '!', '-', '-']);
        assert(close@ =~= seq!['-', '-', '>']);
    }
    let mut out: Vec<(usize, usize)> = Vec::new();
    let ghost mut acc: Seq<(int, int)> = seq![];
    let mut p: usize = 0;
    while p < v.len()
        invariant
            p <= v.len(),
            open@ == seq!['<', '!', '-', '-'],
            close@ == seq!['-', '-', '>'],
            acc + comments_from(v@, p as int) == comments_from(v@, 0),
            out@.len() == acc.len(),
            forall|k: int| 0 <= k < out@.len() ==>
                (#[trigger] out@[k]).0 as int == acc[k].0 && out@[k].1 as int == acc[k].1,
        decreases v.len() - p,
    {
        let found = if matches_at(v, p, &open) { comment_close_exec(v, p + 4, &close) } else { None };
        match found {
            Some(e) => {
                proof {
                    lemma_comment_close(v@, p as int + 4);
                }
                assert(comments_from(v@, p as int) == seq![(p as int, e as int)] + comments_from(v@, e as int));
                out.push((p, e));
                proof {
                    acc = acc.push((p as int, e as int));
                }
                assert(acc + comments_from(v@, e as int) =~= comments_from(v@, 0));
                p = e;
            },
            None => {
                p = p + 1;
            },
        }
    }
    assert(acc =~= comments_from(v@, 0));
    out
}

} // verus!

verus! {

// ── Name normalisation ───────────────────────────────────────────────────────

/// Unicode NFC normalisation of `s` (unicode-normalization's `nfc()`).
pub uninterp spec fn unicode_nfc(s: Seq<char>) -> Seq<char>;

/// Case-insensitive equality as unicase's `eq` decides it (ASCII case for
/// ASCII strings, Unicode case folding otherwise).
pub uninterp spec fn unicase_equal(a: Seq<char>, b: Seq<char>) -> bool;

/// `s.nfc().collect()`: the NFC form of `s`, named [`unicode_nfc`].
#[verifier::external_body]
fn nfc(s: &str) -> (r: String)
    ensures
        r@ == unicode_nfc(s@),
{
    s.nfc().collect()
}

/// `unicase::eq(a, b)`: case-insensitive equality, named [`unicase_equal`];
/// equal strings are equal ignoring case.
#[verifier::external_body]
fn unicase_eq(a: &str, b: &str) -> (r: bool)
    ensures
        r == unicase_equal(a@, b@),
        a@ == b@ ==> r,
{
    unicase::eq(a, b)
}

/// The normalised form of a note name: trimmed, then NFC.
pub open spec fn normal_form(name: Seq<char>) -> Seq<char> {
    unicode_nfc(trim(name))
}

/// Two note names resolve to the same note: equal after trimming and NFC
/// normalisation, ignoring case.
pub open spec fn names_match(a: Seq<char>, b: Seq<char>) -> bool {
    unicase_equal(normal_form(a), normal_form(b))
}

/// Normalise a wikilink target for resolution: trim, then NFC. Two names
/// resolve to the same note when their normal forms are equal ignoring case
/// (see [`same_note`]).
pub fn normalize_name(name: &str) -> (r: String)
    ensures
        r@ == normal_form(name@),
{
    let v = chars_of(name);
    let (a, b) = trim_bounds(&v, 0, v.len());
    assert(v@.subrange(0, v@.len() as int) =~= v@);
    let t = slice_chars(&v, a, b);
    let ts = string_from_chars(&t);
    nfc(ts.as_str())
}

/// Whether the names `a` and `b` resolve to the same note.
pub fn same_note(a: &str, b: &str) -> (r: bool)
    ensures
        r == names_match(a@, b@),
{
    let na = normalize_name(a);
    let nb = normalize_name(b);
    unicase_eq(na.as_str(), nb.as_str())
}

// ── Exclusion ────────────────────────────────────────────────────────────────

/// Byte position `b` lies in a code block or inline code span of the parse.
pub open spec fn in_code(spans: Seq<(MdKind, usize, usize)>, b: int) -> bool {
    exists|k: int| 0 <= k < spans.len() && spans[k].0 != MdKind::Other
        && spans[k].1 <= b < #[trigger] spans[k].2
}

/// Character position `p` lies in an HTML comment of `s`.
pub open spec fn in_comment(s: Seq<char>, p: int) -> bool {
    exists|k: int| 0 <= k < comments_from(s, 0).len() && comments_from(s, 0)[k].0 <= p
        < #[trigger] comments_from(s, 0)[k].1
}

/// Character position `p` lies in the frontmatter of `s`.
pub open spec fn in_frontmatter(s: Seq<char>, p: int) -> bool {
    frontmatter_end(s) matches Some(e) && p < e
}

/// A link starting at `p` is ignored: it lies in frontmatter, a comment or code.
pub open spec fn excluded_at(s: Seq<char>, spans: Seq<(MdKind, usize, usize)>, p: int) -> bool {
    in_frontmatter(s, p) || in_comment(s, p) || in_code(spans, byte_offset(s, p))
}

/// The excluded regions of a document.
pub struct Exclusions {
    pub frontmatter: Option<usize>,
    pub comments: Vec<(usize, usize)>,
    pub spans: Vec<(MdKind, usize, usize)>,
}

impl Exclusions {
    pub open spec fn describes(&self, s: Seq<char>, spans: Seq<(MdKind, usize, usize)>) -> bool {
        &&& (self.frontmatter matches Some(e) ==> frontmatter_end(s) == Some(e as int))
        &&& (self.frontmatter is None ==> frontmatter_end(s) is None)
        &&& self.comments@.len() == comments_from(s, 0).len()
        &&& forall|k: int| 0 <= k < self.comments@.len() ==>
            (#[trigger] self.comments@[k]).0 as int == comments_from(s, 0)[k].0
            && self.comments@[k].1 as int == comments_from(s, 0)[k].1
        &&& self.spans@ == spans
    }

    /// Whether a link at character `p` (byte offset `b`) is ignored.
    pub fn excludes(&self, p: usize, b: usize, Ghost(s): Ghost<Seq<char>>, Ghost(spans): Ghost<Seq<(MdKind, usize, usize)>>) -> (r: bool)
        requires
            self.describes(s, spans),
            b == byte_offset(s, p as int),
        ensures
            r == excluded_at(s, spans, p as int),
    {
        if let Some(e) = self.frontmatter {
            if p < e {
                return true;
            }
        }
        let mut k: usize = 0;
        while k < self.comments.len()
            invariant
                self.describes(s, spans),
                k <= self.comments@.len(),
                forall|j: int| 0 <= j < k ==> !(comments_from(s, 0)[j].0 <= p < #[trigger] comments_from(s, 0)[j].1),
            decreases self.comments.len() - k,
        {
            let (a, e) = self.comments[k];
            if a <= p && p < e {
                assert(self.comments@[k as int] == (a, e));
                assert(comments_from(s, 0)[k as int].0 <= p < comments_from(s, 0)[k as int].1);
                assert(in_comment(s, p as int));
                return true;
            }
            k = k + 1;
        }
        let mut j: usize = 0;
        while j < self.spans.len()
            invariant
                self.describes(s, spans),
                b == byte_offset(s, p as int),
                j <= self.spans@.len(),
                forall|i: int| 0 <= i < j ==> !(spans[i].0 != MdKind::Other && spans[i].1 <= b < #[trigger] spans[i].2),
            decreases self.spans.len() - j,
        {
            let (kind, a, e) = self.spans[j];
            let is_code = match kind {
                MdKind::Other => false,
                _ => true,
            };
            if is_code && a <= b && b < e {
                assert(spans[j as int].1 <= b < spans[j as int].2);
                return true;
            }
            j = j + 1;
        }
        false
    }
}

/// Compute the excluded regions of `v` given the parse `spans`.
pub fn exclusions(v: &Vec<char>, spans: Vec<(MdKind, usize, usize)>) -> (r: Exclusions)
    ensures
        r.describes(v@, spans@),
{
    Exclusions { frontmatter: frontmatter_end_exec(v), comments: comment_ranges(v), spans }
}

// ── Extraction ───────────────────────────────────────────────────────────────

/// A single wikilink occurrence in a document.
#[derive(Debug, Clone, PartialEq, Eq)]
pub struct WikilinkRef {
    /// Target note name (trimmed; no heading, no display).
    pub target: String,
    /// Optional heading anchor (`[[A#heading]]`, trimmed).
    pub heading: Option<String>,
    /// Optional display text (`[[A|display]]`, verbatim).
    pub display: Option<String>,
    /// `true` for embed links (`![[A]]`).
    pub embed: bool,
    /// 1-indexed line number in the source document.
    pub line: usize,
    /// 1-indexed byte column in the source line.
    pub column: usize,
}

/// The view of a [`WikilinkRef`].
pub struct WikilinkView {
    pub target: Seq<char>,
    pub heading: Option<Seq<char>>,
    pub display: Option<Seq<char>>,
    pub embed: bool,
    pub line: int,
    pub column: int,
}

/// The view of an optional string.
pub open spec fn opt_view(o: Option<String>) -> Option<Seq<char>> {
    match o {
        Some(x) => Some(x@),
        None => None,
    }
}

impl View for WikilinkRef {
    type V = WikilinkView;

    open spec fn view(&self) -> WikilinkView {
        WikilinkView {
            target: self.target@,
            heading: opt_view(self.heading),
            display: opt_view(self.display),
            embed: self.embed,
            line: self.line as int,
            column: self.column as int,
        }
    }
}

/// The view of a sequence of links.
pub open spec fn refs_view(v: Seq<WikilinkRef>) -> Seq<WikilinkView> {
    v.map_values(|w: WikilinkRef| w@)
}

/// The reference reported for the link `m` of `s`.
pub open spec fn link_view(s: Seq<char>, m: LinkSpan) -> WikilinkView {
    WikilinkView {
        target: trim(s.subrange(m.target.0 as int, m.target.1 as int)),
        heading: match m.heading {
            Some(h) => Some(trim(s.subrange(h.0 as int, h.1 as int))),
            None => None,
        },
        display: match m.display {
            Some(d) => Some(s.subrange(d.0 as int, d.1 as int)),
            None => None,
        },
        embed: m.embed,
        line: line_at(s, m.start as int),
        column: byte_column_at(s, m.start as int),
    }
}

/// References for the first `n` links of `links`, skipping excluded ones.
pub open spec fn refs_upto(s: Seq<char>, spans: Seq<(MdKind, usize, usize)>, links: Seq<LinkSpan>, n: int) -> Seq<WikilinkView>
    decreases n,
{
    if n <= 0 {
        seq![]
    } else if excluded_at(s, spans, links[n - 1].start as int) {
        refs_upto(s, spans, links, n - 1)
    } else {
        refs_upto(s, spans, links, n - 1).push(link_view(s, links[n - 1]))
    }
}

/// All wikilinks of `s` that are not excluded, in document order.
pub open spec fn wikilinks_of(s: Seq<char>, spans: Seq<(MdKind, usize, usize)>) -> Seq<WikilinkView> {
    refs_upto(s, spans, links_from(s, 0), links_from(s, 0).len() as int)
}

fn opt_trimmed(v: &Vec<char>, r: Option<(usize, usize)>) -> (o: Option<String>)
    requires
        r matches Some(x) ==> x.0 <= x.1 <= v.len(),
    ensures
        opt_view(o) == match r {
            Some(x) => Some(trim(v@.subrange(x.0 as int, x.1 as int))),
            None => None::<Seq<char>>,
        },
{
    match r {
        Some((a, b)) => {
            let (ta, tb) = trim_bounds(v, a, b);
            let t = slice_chars(v, ta, tb);
            Some(string_from_chars(&t))
        },
        None => None,
    }
}

fn opt_raw(v: &Vec<char>, r: Option<(usize, usize)>) -> (o: Option<String>)
    requires
        r matches Some(x) ==> x.0 <= x.1 <= v.len(),
    ensures
        opt_view(o) == match r {
            Some(x) => Some(v@.subrange(x.0 as int, x.1 as int)),
            None => None::<Seq<char>>,
        },
{
    match r {
        Some((a, b)) => {
            let t = slice_chars(v, a, b);
            Some(string_from_chars(&t))
        },
        None => None,
    }
}

/// Extract the wikilinks of `content`, given the code parse `spans` of it
/// (see [`crate::cmark::gfm_spans`]): every link of the grammar found left to
/// right, except those starting in frontmatter, HTML comments or code.
pub fn extract_wikilinks_with(content: &str, spans: Vec<(MdKind, usize, usize)>) -> (r: Vec<WikilinkRef>)
    requires
        content@.len() < usize::MAX,
    ensures
        refs_view(r@) == wikilinks_of(content@, spans@),
{
    let v = chars_of(content);
    let nbytes = crate::text::str_byte_len(content);
    let pos = positions(&v, nbytes);
    let ghost gspans = spans@;
    let ex = exclusions(&v, spans);
    let links = scan_links(&v);
    let mut out: Vec<WikilinkRef> = Vec::new();
    let mut i: usize = 0;
    while i < links.len()
        invariant
            v@ == content@,
            v.len() < usize::MAX,
            pos.describes(v@),
            ex.describes(v@, gspans),
            links@ == links_from(v@, 0),
            forall|k: int| 0 <= k < links@.len() ==> link_at(v@, links@[k].start as int) == Some(#[trigger] links@[k]),
            i <= links.len(),
            refs_view(out@) == refs_upto(v@, gspans, links@, i as int),
        decreases links.len() - i,
    {
        let m = links[i];
        proof {
            lemma_link_shape(v@, m.start as int);
        }
        let p = m.start;
        if !ex.excludes(p, pos.offsets[p], Ghost(v@), Ghost(gspans)) {
            let (ta, tb) = trim_bounds(&v, m.target.0, m.target.1);
            let t = slice_chars(&v, ta, tb);
            let r = WikilinkRef {
                target: string_from_chars(&t),
                heading: opt_trimmed(&v, m.heading),
                display: opt_raw(&v, m.display),
                embed: m.embed,
                line: pos.lines[p],
                column: pos.columns[p],
            };
            assert(r@ == link_view(v@, m));
            let ghost before = out@;
            out.push(r);
            assert(refs_view(out@) =~= refs_view(before).push(r@));
        }
        i = i + 1;
    }
    out
}

} // verus!

verus! {

/// Extract all wikilinks from `content`, excluding those inside fenced or
/// indented code blocks and inline code spans (as the CommonMark parse finds
/// them), HTML comments, and the YAML frontmatter.
pub fn extract_wikilinks(content: &str) -> (r: Vec<WikilinkRef>)
    requires
        content@.len() < usize::MAX,
    ensures
        refs_view(r@) == wikilinks_of(content@, crate::cmark::cmark_gfm_spans(content@)),
{
    let spans = crate::cmark::gfm_spans(content);
    extract_wikilinks_with(content, spans)
}

// ── Renaming ─────────────────────────────────────────────────────────────────

/// The text of link `m` retargeted to `new`: embed marker, heading and
/// display text are kept verbatim.
pub open spec fn renamed_link_text(s: Seq<char>, m: LinkSpan, new: Seq<char>) -> Seq<char> {
    (if m.embed { seq!['!'] } else { Seq::<char>::empty() }) + seq!['[', '['] + new
        + (match m.heading {
            Some(h) => seq!['#'] + s.subrange(h.0 as int, h.1 as int),
            None => Seq::<char>::empty(),
        })
        + (match m.display {
            Some(d) => seq!['|'] + s.subrange(d.0 as int, d.1 as int),
            None => Seq::<char>::empty(),
        })
        + seq![']', ']']
}

/// Link `m` of `s` is rewritten when renaming `old`: it is not excluded and
/// its target names `old`.
pub open spec fn link_renamed(s: Seq<char>, spans: Seq<(MdKind, usize, usize)>, m: LinkSpan, old: Seq<char>) -> bool {
    !excluded_at(s, spans, m.start as int) && names_match(
        trim(s.subrange(m.target.0 as int, m.target.1 as int)),
        old,
    )
}

/// The text of `s` from position `p` with every renamed link retargeted.
pub open spec fn rewrite_from(
    s: Seq<char>,
    spans: Seq<(MdKind, usize, usize)>,
    old: Seq<char>,
    new: Seq<char>,
    p: int,
) -> Seq<char>
    decreases s.len() - p,
{
    if p < 0 || p >= s.len() {
        seq![]
    } else {
        match link_at(s, p) {
            Some(m) => if p < m.end <= s.len() {
                (if link_renamed(s, spans, m, old) {
                    renamed_link_text(s, m, new)
                } else {
                    s.subrange(p, m.end as int)
                }) + rewrite_from(s, spans, old, new, m.end as int)
            } else {
                seq![]
            },
            None => seq![s[p]] + rewrite_from(s, spans, old, new, p + 1),
        }
    }
}

/// `s` with every link to `old` (outside excluded regions) retargeted to `new`.
pub open spec fn renamed_text(s: Seq<char>, spans: Seq<(MdKind, usize, usize)>, old: Seq<char>, new: Seq<char>) -> Seq<char> {
    rewrite_from(s, spans, old, new, 0)
}

fn push_renamed(out: &mut Vec<char>, v: &Vec<char>, m: LinkSpan, new: &Vec<char>)
    requires
        m.heading matches Some(h) ==> h.0 <= h.1 <= v.len(),
        m.display matches Some(d) ==> d.0 <= d.1 <= v.len(),
    ensures
        final(out)@ == old(out)@ + renamed_link_text(v@, m, new@),
{
    let ghost start = out@;
    if m.embed {
        out.push('!');
    }
    out.push('[');
    out.push('[');
    push_all(out, new);
    let ghost mid = out@;
    match m.heading {
        Some((a, b)) => {
            out.push('#');
            let h = slice_chars(v, a, b);
            push_all(out, &h);
        },
        None => {},
    }
    let ghost mid2 = out@;
    match m.display {
        Some((a, b)) => {
            out.push('|');
            let d = slice_chars(v, a, b);
            push_all(out, &d);
        },
        None => {},
    }
    let ghost mid3 = out@;
    out.push(']');
    out.push(']');
    proof {
        let e: Seq<char> = if m.embed { seq!['!'] } else { Seq::<char>::empty() };
        assert(mid =~= start + e + seq!['[', '['] + new@);
        let hs: Seq<char> = match m.heading {
            Some(h) => seq!['#'] + v@.subrange(h.0 as int, h.1 as int),
            None => Seq::<char>::empty(),
        };
        let ds: Seq<char> = match m.display {
            Some(d) => seq!['|'] + v@.subrange(d.0 as int, d.1 as int),
            None => Seq::<char>::empty(),
        };
        assert(mid2 =~= mid + hs);
        assert(mid3 =~= mid2 + ds);
        assert(out@ =~= start + (e + seq!['[', '['] + new@ + hs + ds + seq![']', ']']));
    }
}

/// Replace every wikilink of `content` that targets `old_stem` with one that
/// targets `new_stem`, given the code parse `spans` of `content`. Links in
/// excluded regions are left alone; heading anchors and display text are kept.
pub fn replace_wikilinks_with(
    content: &str,
    spans: Vec<(MdKind, usize, usize)>,
    old_stem: &str,
    new_stem: &str,
) -> (r: String)
    requires
        content@.len() < usize::MAX,
    ensures
        r@ == renamed_text(content@, spans@, old_stem@, new_stem@),
{
    let v = chars_of(content);
    let new = chars_of(new_stem);
    let nbytes = crate::text::str_byte_len(content);
    let pos = positions(&v, nbytes);
    let ghost gspans = spans@;
    let ex = exclusions(&v, spans);
    let mut out: Vec<char> = Vec::new();
    let mut p: usize = 0;
    while p < v.len()
        invariant
            v@ == content@,
            new@ == new_stem@,
            v.len() < usize::MAX,
            pos.describes(v@),
            ex.describes(v@, gspans),
            p <= v.len(),
            out@ + rewrite_from(v@, gspans, old_stem@, new@, p as int)
                == rewrite_from(v@, gspans, old_stem@, new@, 0),
        decreases v.len() - p,
    {
        let ghost before = out@;
        match link_at_exec(&v, p) {
            Some(m) => {
                proof {
                    lemma_link_shape(v@, p as int);
                }
                let excluded = ex.excludes(p, pos.offsets[p], Ghost(v@), Ghost(gspans));
                let mut renamed = false;
                if !excluded {
                    let (ta, tb) = trim_bounds(&v, m.target.0, m.target.1);
                    let t = slice_chars(&v, ta, tb);
                    let ts = string_from_chars(&t);
                    renamed = same_note(ts.as_str(), old_stem);
                }
                assert(renamed == link_renamed(v@, gspans, m, old_stem@));
                if renamed {
                    push_renamed(&mut out, &v, m, &new);
                } else {
                    let raw = slice_chars(&v, p, m.end);
                    push_all(&mut out, &raw);
                }
                assert(out@ + rewrite_from(v@, gspans, old_stem@, new@, m.end as int)
                    =~= before + rewrite_from(v@, gspans, old_stem@, new@, p as int));
                p = m.end;
            },
            None => {
                out.push(v[p]);
                assert(out@ + rewrite_from(v@, gspans, old_stem@, new@, p + 1)
                    =~= before + rewrite_from(v@, gspans, old_stem@, new@, p as int));
                p = p + 1;
            },
        }
    }
    assert(out@ =~= rewrite_from(v@, gspans, old_stem@, new@, 0));
    string_from_chars(&out)
}

/// Replace all wikilinks targeting `old_stem` with `new_stem` in `content`,
/// respecting the same exclusion rules as [`extract_wikilinks`]. Heading
/// anchors and display text are preserved verbatim.
pub fn replace_wikilinks(content: &str, old_stem: &str, new_stem: &str) -> (r: String)
    requires
        content@.len() < usize::MAX,
    ensures
        r@ == renamed_text(content@, crate::cmark::cmark_gfm_spans(content@), old_stem@, new_stem@),
{
    let spans = crate::cmark::gfm_spans(content);
    replace_wikilinks_with(content, spans, old_stem, new_stem)
}

} // verus!

verus! {

proof fn lemma_rewrite_identity(
    s: Seq<char>,
    spans: Seq<(MdKind, usize, usize)>,
    old: Seq<char>,
    new: Seq<char>,
    p: int,
)
    requires
        0 <= p <= s.len(),
        s.len() <= usize::MAX,
        forall|k: int| 0 <= k < links_from(s, p).len() ==> !link_renamed(s, spans, #[trigger] links_from(s, p)[k], old),
    ensures
        rewrite_from(s, spans, old, new, p) == s.subrange(p, s.len() as int),
    decreases s.len() - p,
{
    if p < s.len() {
        match link_at(s, p) {
            Some(m) => {
                lemma_link_shape(s, p);
                assert(links_from(s, p) == seq![m] + links_from(s, m.end as int));
                assert(links_from(s, p)[0] == m);
                assert forall|k: int| 0 <= k < links_from(s, m.end as int).len() implies
                    !link_renamed(s, spans, #[trigger] links_from(s, m.end as int)[k], old) by {
                    assert(links_from(s, m.end as int)[k] == links_from(s, p)[k + 1]);
                }
                lemma_rewrite_identity(s, spans, old, new, m.end as int);
                assert(s.subrange(p, m.end as int) + s.subrange(m.end as int, s.len() as int)
                    =~= s.subrange(p, s.len() as int));
            },
            None => {
                assert(links_from(s, p) == links_from(s, p + 1));
                lemma_rewrite_identity(s, spans, old, new, p + 1);
                assert(seq![s[p]] + s.subrange(p + 1, s.len() as int) =~= s.subrange(p, s.len() as int));
            },
        }
    } else {
        assert(s.subrange(p, p) =~= Seq::<char>::empty());
    }
}

proof fn lemma_refs_contain(
    s: Seq<char>,
    spans: Seq<(MdKind, usize, usize)>,
    links: Seq<LinkSpan>,
    n: int,
    k: int,
)
    requires
        0 <= k < n <= links.len(),
        !excluded_at(s, spans, links[k].start as int),
    ensures
        refs_upto(s, spans, links, n).contains(link_view(s, links[k])),
    decreases n,
{
    if k < n - 1 {
        lemma_refs_contain(s, spans, links, n - 1, k);
        let prev = refs_upto(s, spans, links, n - 1);
        let j = choose|j: int| 0 <= j < prev.len() && prev[j] == link_view(s, links[k]);
        if !excluded_at(s, spans, links[n - 1].start as int) {
            assert(refs_upto(s, spans, links, n)[j] == prev[j]);
        }
    } else {
        let prev = refs_upto(s, spans, links, n - 1);
        assert(refs_upto(s, spans, links, n)[prev.len() as int] == link_view(s, links[k]));
    }
}

/// Renaming leaves a document unchanged when none of its extracted links
/// names the old note.
pub proof fn law_rename_without_reference_is_identity(
    s: Seq<char>,
    spans: Seq<(MdKind, usize, usize)>,
    old: Seq<char>,
    new: Seq<char>,
)
    requires
        s.len() <= usize::MAX,
        forall|j: int| 0 <= j < wikilinks_of(s, spans).len()
            ==> !names_match(#[trigger] wikilinks_of(s, spans)[j].target, old),
    ensures
        renamed_text(s, spans, old, new) == s,
{
    let links = links_from(s, 0);
    assert forall|k: int| 0 <= k < links.len() implies !link_renamed(s, spans, #[trigger] links[k], old) by {
        if link_renamed(s, spans, links[k], old) {
            lemma_refs_contain(s, spans, links, links.len() as int, k);
            let refs = wikilinks_of(s, spans);
            let j = choose|j: int| 0 <= j < refs.len() && refs[j] == link_view(s, links[k]);
            assert(refs[j].target == trim(s.subrange(links[k].target.0 as int, links[k].target.1 as int)));
        }
    }
    lemma_rewrite_identity(s, spans, old, new, 0);
    assert(s.subrange(0, s.len() as int) =~= s);
}


// ── Law of the frontmatter ───────────────────────────────────────────────────

/// The line starting at `q` reads `---` or `...` (trailing carriage returns
/// ignored).
pub open spec fn delimiter_line_at(s: Seq<char>, q: int) -> bool {
    let l = strip_cr_end(s.subrange(q, next_newline(s, q)));
    l == seq!['-', '-', '-'] || l == seq!['.', '.', '.']
}

proof fn lemma_next_newline_before(s: Seq<char>, q: int, j: int)
    requires
        0 <= q <= j < s.len(),
        s[j] == '\n',
    ensures
        next_newline(s, q) <= j,
    decreases j - q,
{
    if s[q] != '\n' {
        lemma_next_newline_before(s, q + 1, j);
    }
}

proof fn lemma_close_from_skips(s: Seq<char>, q: int, p: int)
    requires
        4 <= q <= p < s.len(),
        s[q - 1] == '\n',
        s[p - 1] == '\n',
        forall|r: int| 4 <= r < p && s[r - 1] == '\n' ==> !#[trigger] delimiter_line_at(s, r),
    ensures
        fm_close_from(s, q) == fm_close_from(s, p),
    decreases p - q,
{
    if q < p {
        lemma_next_newline(s, q);
        lemma_next_newline_before(s, q, p - 1);
        let nn = next_newline(s, q);
        assert(!delimiter_line_at(s, q));
        lemma_close_from_skips(s, nn + 1, p);
    }
}

/// A frontmatter opened by a first line `---` runs through the first later
/// line that reads `---` or `...`: a `...` line closes it just as `---` does,
/// and no link that starts before the closing line is extracted.
pub proof fn law_frontmatter_closed_by_dots(s: Seq<char>, p: int)
    requires
        s.len() >= 4,
        s.subrange(0, 4) == seq!['-', '-', '-', '\n'],
        4 <= p,
        p + 3 <= s.len(),
        s[p - 1] == '\n',
        s.subrange(p, p + 3) == seq!['.', '.', '.'],
        p + 3 == s.len() || s[p + 3] == '\n',
        forall|r: int| 4 <= r < p && s[r - 1] == '\n' ==> !#[trigger] delimiter_line_at(s, r),
    ensures
        frontmatter_end(s) == Some(if p + 3 < s.len() { p + 4 } else { p + 3 }),
        forall|q: int, spans: Seq<(MdKind, usize, usize)>| 0 <= q < p ==> #[trigger] excluded_at(s, spans, q),
{
    assert(s[0] == '-' && s[1] == '-' && s[2] == '-' && s[3] == '\n') by {
        assert(s.subrange(0, 4)[0] == s[0]);
        assert(s.subrange(0, 4)[1] == s[1]);
        assert(s.subrange(0, 4)[2] == s[2]);
        assert(s.subrange(0, 4)[3] == s[3]);
    }
    assert(s[p] == '.' && s[p + 1] == '.' && s[p + 2] == '.') by {
        assert(s.subrange(p, p + 3)[0] == s[p]);
        assert(s.subrange(p, p + 3)[1] == s[p + 1]);
        assert(s.subrange(p, p + 3)[2] == s[p + 2]);
    }
    assert(next_newline(s, 0) == 3) by {
        assert(next_newline(s, 3) == 3);
        assert(next_newline(s, 2) == 3);
        assert(next_newline(s, 1) == 3);
    }
    assert(s.subrange(0, 3) =~= seq!['-', '-', '-']);
    assert(strip_cr_end(s.subrange(0, 3)) == s.subrange(0, 3));
    assert(next_newline(s, p) == p + 3) by {
        assert(next_newline(s, p + 3) == p + 3);
        assert(next_newline(s, p + 2) == p + 3);
        assert(next_newline(s, p + 1) == p + 3);
    }
    assert(s.subrange(p, p + 3) =~= seq!['.', '.', '.']);
    assert(strip_cr_end(s.subrange(p, p + 3)) == s.subrange(p, p + 3));
    if p < s.len() {
        lemma_close_from_skips(s, 4, p);
    }
    assert(frontmatter_end(s) == fm_close_from(s, 4));
}
} // verus!
