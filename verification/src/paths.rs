//! Unix path text: trailing-separator normalisation, file names, stems,
//! extensions, parents and joining, as `std::path::Path` defines them for
//! `/`-separated paths.

use vstd::prelude::*;
use crate::text::{chars_eq, chars_of, push_all, slice_chars, split_char, split_chars, str_eq, string_from_chars};

verus! {

/// `p` with trailing separators and trailing `/.` components removed; a lone
/// root `/` and a leading `.` stay (they are components of their own).
pub open spec fn trim_end(p: Seq<char>) -> Seq<char>
    decreases p.len(),
{
    if p.len() >= 2 && p.last() == '/' {
        trim_end(p.drop_last())
    } else if p.len() >= 2 && p.last() == '.' && p[p.len() - 2] == '/' {
        trim_end(p.drop_last())
    } else {
        p
    }
}

/// Start of the last `/`-separated segment of `q` (0 when there is no `/`).
pub open spec fn last_seg_start(q: Seq<char>) -> int
    decreases q.len(),
{
    if q.len() == 0 {
        0
    } else if q.last() == '/' {
        q.len() as int
    } else {
        last_seg_start(q.drop_last())
    }
}

/// The text of the last component of `p` (after normalisation).
pub open spec fn last_component(p: Seq<char>) -> Seq<char> {
    let q = trim_end(p);
    q.subrange(last_seg_start(q), q.len() as int)
}

/// `Path::file_name`: the last component when it is a normal name; `None` for
/// an empty path, the root, `.` and `..`.
pub open spec fn file_name(p: Seq<char>) -> Option<Seq<char>> {
    let q = trim_end(p);
    let l = last_component(p);
    if q.len() == 0 || q == seq!['/'] || l == seq!['.'] || l == seq!['.', '.'] {
        None
    } else {
        Some(l)
    }
}

/// Position of the last `.` in `n` before index `i`, or -1.
pub open spec fn last_dot_before(n: Seq<char>, i: int) -> int
    decreases i,
{
    if i <= 0 {
        -1
    } else if n[i - 1] == '.' {
        i - 1
    } else {
        last_dot_before(n, i - 1)
    }
}

/// `Path::file_stem`: the file name without its final `.extension`; the whole
/// name when it has no `.` other than a leading one.
pub open spec fn file_stem(p: Seq<char>) -> Option<Seq<char>> {
    match file_name(p) {
        Some(n) => {
            let d = last_dot_before(n, n.len() as int);
            if d <= 0 { Some(n) } else { Some(n.subrange(0, d)) }
        },
        None => None,
    }
}

/// `Path::extension`: the text after the final `.` of the file name, when that
/// `.` is not its first character.
pub open spec fn extension(p: Seq<char>) -> Option<Seq<char>> {
    match file_name(p) {
        Some(n) => {
            let d = last_dot_before(n, n.len() as int);
            if d <= 0 { None } else { Some(n.subrange(d + 1, n.len() as int)) }
        },
        None => None,
    }
}

/// `Path::parent`: the path without its last component (trailing separators
/// removed); `None` for an empty path and for the root.
pub open spec fn parent(p: Seq<char>) -> Option<Seq<char>> {
    let q = trim_end(p);
    if q.len() == 0 || q == seq!['/'] {
        None
    } else {
        Some(trim_end(q.subrange(0, last_seg_start(q))))
    }
}

/// `PathBuf::push`/`Path::join` for `/` paths: an absolute `seg` replaces `base`;
/// otherwise a separator is inserted unless `base` is empty or ends with one.
pub open spec fn path_join(base: Seq<char>, seg: Seq<char>) -> Seq<char> {
    if seg.len() > 0 && seg[0] == '/' {
        seg
    } else if base.len() == 0 || base.last() == '/' {
        base + seg
    } else {
        base + seq!['/'] + seg
    }
}

// ── Executable counterparts ──────────────────────────────────────────────────

/// Length of `trim_end(v[..n])`.
fn trim_end_len(v: &Vec<char>, n: usize) -> (r: usize)
    requires
        n <= v.len(),
    ensures
        r <= n,
        v@.subrange(0, r as int) == trim_end(v@.subrange(0, n as int)),
{
    let mut k: usize = n;
    while (k >= 2 && v[k - 1] == '/') || (k >= 2 && v[k - 1] == '.' && v[k - 2] == '/')
        invariant
            k <= n <= v.len(),
            trim_end(v@.subrange(0, k as int)) == trim_end(v@.subrange(0, n as int)),
        decreases k,
    {
        assert(v@.subrange(0, k as int).drop_last() =~= v@.subrange(0, k - 1));
        k = k - 1;
    }
    k
}

/// `last_seg_start(v[..n])`.
fn last_seg_start_exec(v: &Vec<char>, n: usize) -> (r: usize)
    requires
        n <= v.len(),
    ensures
        r <= n,
        r == last_seg_start(v@.subrange(0, n as int)),
{
    let mut k: usize = n;
    while k > 0 && v[k - 1] != '/'
        invariant
            k <= n <= v.len(),
            last_seg_start(v@.subrange(0, k as int)) == last_seg_start(v@.subrange(0, n as int)),
        decreases k,
    {
        assert(v@.subrange(0, k as int).drop_last() =~= v@.subrange(0, k - 1));
        k = k - 1;
    }
    k
}

fn is_one(v: &Vec<char>, from: usize, to: usize, c: char) -> (r: bool)
    requires
        from <= to <= v.len(),
    ensures
        r == (v@.subrange(from as int, to as int) == seq![c]),
{
    if to - from == 1 && v[from] == c {
        assert(v@.subrange(from as int, to as int) =~= seq![c]);
        true
    } else {
        let ghost t = v@.subrange(from as int, to as int);
        let ghost one = seq![c];
        assert(one.len() == 1 && one[0] == c);
        if to - from == 1 {
            assert(t[0] == v@[from as int]);
            assert(t[0] != one[0]);
        }
        assert(t != one);
        false
    }
}

fn is_dotdot(v: &Vec<char>, from: usize, to: usize) -> (r: bool)
    requires
        from <= to <= v.len(),
    ensures
        r == (v@.subrange(from as int, to as int) == seq!['.', '.']),
{
    if to - from == 2 && v[from] == '.' && v[from + 1] == '.' {
        assert(v@.subrange(from as int, to as int) =~= seq!['.', '.']);
        true
    } else {
        let ghost t = v@.subrange(from as int, to as int);
        let ghost dd = seq!['.', '.'];
        assert(dd.len() == 2 && dd[0] == '.' && dd[1] == '.');
        if to - from == 2 {
            assert(t[0] == v@[from as int]);
            assert(t[1] == v@[from + 1]);
            assert(t[0] != dd[0] || t[1] != dd[1]);
        }
        assert(t != dd);
        false
    }
}

/// [`file_name`] of `p`.
pub fn file_name_of(p: &str) -> (r: Option<Vec<char>>)
    ensures
        match r {
            Some(n) => file_name(p@) == Some(n@),
            None => file_name(p@) is None,
        },
{
    let v = chars_of(p);
    let q = trim_end_len(&v, v.len());
    assert(v@.subrange(0, v@.len() as int) =~= v@);
    let s = last_seg_start_exec(&v, q);
    let ghost qs = v@.subrange(0, q as int);
    assert(qs.subrange(s as int, q as int) =~= v@.subrange(s as int, q as int));
    if q == 0 || is_one(&v, 0, q, '/') || is_one(&v, s, q, '.') || is_dotdot(&v, s, q) {
        proof {
            if q != 0 && !is_one_spec(v@, 0, q as int, '/') {
                assert(v@.subrange(0, q as int) == qs);
            }
        }
        return None;
    }
    Some(slice_chars(&v, s, q))
}

spec fn is_one_spec(v: Seq<char>, from: int, to: int, c: char) -> bool {
    v.subrange(from, to) == seq![c]
}

/// Position of the last `.` in `n` (or `None`).
fn last_dot(n: &Vec<char>) -> (r: Option<usize>)
    ensures
        match r {
            Some(d) => d < n@.len() && d == last_dot_before(n@, n@.len() as int),
            None => last_dot_before(n@, n@.len() as int) == -1,
        },
{
    let mut i: usize = n.len();
    while i > 0 && n[i - 1] != '.'
        invariant
            i <= n@.len(),
            last_dot_before(n@, i as int) == last_dot_before(n@, n@.len() as int),
        decreases i,
    {
        i = i - 1;
    }
    if i == 0 {
        None
    } else {
        Some(i - 1)
    }
}

/// [`file_stem`] of `p`.
pub fn file_stem_of(p: &str) -> (r: Option<Vec<char>>)
    ensures
        match r {
            Some(n) => file_stem(p@) == Some(n@),
            None => file_stem(p@) is None,
        },
{
    match file_name_of(p) {
        Some(n) => match last_dot(&n) {
            Some(d) => {
                if d == 0 {
                    Some(n)
                } else {
                    Some(slice_chars(&n, 0, d))
                }
            },
            None => Some(n),
        },
        None => None,
    }
}

/// [`extension`] of `p`.
pub fn extension_of(p: &str) -> (r: Option<Vec<char>>)
    ensures
        match r {
            Some(e) => extension(p@) == Some(e@),
            None => extension(p@) is None,
        },
{
    match file_name_of(p) {
        Some(n) => match last_dot(&n) {
            Some(d) => {
                if d == 0 {
                    None
                } else {
                    Some(slice_chars(&n, d + 1, n.len()))
                }
            },
            None => None,
        },
        None => None,
    }
}

/// [`parent`] of `p`.
pub fn parent_of(p: &str) -> (r: Option<Vec<char>>)
    ensures
        match r {
            Some(n) => parent(p@) == Some(n@),
            None => parent(p@) is None,
        },
{
    let v = chars_of(p);
    let q = trim_end_len(&v, v.len());
    assert(v@.subrange(0, v@.len() as int) =~= v@);
    if q == 0 || is_one(&v, 0, q, '/') {
        return None;
    }
    let s = last_seg_start_exec(&v, q);
    let t = trim_end_len(&v, s);
    let ghost qs = v@.subrange(0, q as int);
    assert(qs.subrange(0, s as int) =~= v@.subrange(0, s as int));
    Some(slice_chars(&v, 0, t))
}

/// [`path_join`] of `base` and `seg`.
pub fn join_chars(base: &Vec<char>, seg: &Vec<char>) -> (r: Vec<char>)
    ensures
        r@ == path_join(base@, seg@),
{
    if seg.len() > 0 && seg[0] == '/' {
        return slice_chars(seg, 0, seg.len());
    }
    let mut out = slice_chars(base, 0, base.len());
    if base.len() > 0 && base[base.len() - 1] != '/' {
        out.push('/');
    }
    push_all(&mut out, seg);
    out
}

/// The path of `file` inside directory `dir`, as `Path::join` builds it.
pub fn join(dir: &str, file: &str) -> (r: String)
    ensures
        r@ == path_join(dir@, file@),
{
    let b = chars_of(dir);
    let s = chars_of(file);
    let j = join_chars(&b, &s);
    string_from_chars(&j)
}

/// [`last_component`] of `v`.
pub fn last_component_of(v: &Vec<char>) -> (r: Vec<char>)
    ensures
        r@ == last_component(v@),
{
    let q = trim_end_len(v, v.len());
    assert(v@.subrange(0, v@.len() as int) =~= v@);
    let s = last_seg_start_exec(v, q);
    let ghost qs = v@.subrange(0, q as int);
    assert(qs.subrange(s as int, q as int) =~= v@.subrange(s as int, q as int));
    slice_chars(v, s, q)
}


// ── Comparing paths ──────────────────────────────────────────────────────────

/// The named pieces of `parts`: empty pieces and `.` pieces left out.
pub open spec fn kept_pieces(parts: Seq<Seq<char>>) -> Seq<Seq<char>>
    decreases parts.len(),
{
    if parts.len() == 0 {
        Seq::empty()
    } else {
        kept_pieces(parts.drop_last()) + (if parts.last().len() == 0 || parts.last() == "."@ {
            Seq::<Seq<char>>::empty()
        } else {
            seq![parts.last()]
        })
    }
}

/// The pieces `Path` compares after its head: the text between `/`s, with
/// repeated and trailing separators and `.` pieces ignored.
pub open spec fn path_pieces(p: Seq<char>) -> Seq<Seq<char>> {
    kept_pieces(split_char(p, '/'))
}

/// The head of a path: whether it starts at the root, and whether it starts
/// with a `.` piece (the one place where `Path` keeps one).
pub open spec fn path_head(p: Seq<char>) -> (bool, bool) {
    let rooted = p.len() > 0 && p[0] == '/';
    (rooted, !rooted && p.len() > 0 && p[0] == '.' && (p.len() == 1 || p[1] == '/'))
}

/// `a` and `b` are equal as `Path`s, which compare component by component.
pub open spec fn same_path(a: Seq<char>, b: Seq<char>) -> bool {
    path_head(a) == path_head(b) && path_pieces(a) == path_pieces(b)
}

fn pieces_of(v: &Vec<char>) -> (r: Vec<Vec<char>>)
    ensures
        r@.map_values(|x: Vec<char>| x@) == path_pieces(v@),
{
    let parts = split_chars(v, '/');
    let ghost pv = split_char(v@, '/');
    let mut out: Vec<Vec<char>> = Vec::new();
    let mut i: usize = 0;
    proof {
        assert(pv.take(0) =~= Seq::<Seq<char>>::empty());
    }
    while i < parts.len()
        invariant
            i <= parts@.len() == pv.len(),
            pv == split_char(v@, '/'),
            forall|k: int| 0 <= k < parts@.len() ==> (#[trigger] parts@[k])@ == pv[k],
            out@.map_values(|x: Vec<char>| x@) == kept_pieces(pv.take(i as int)),
        decreases parts@.len() - i,
    {
        assert(pv.take(i + 1).drop_last() =~= pv.take(i as int));
        assert(pv.take(i + 1).last() == pv[i as int]);
        let ghost before = out@.map_values(|x: Vec<char>| x@);
        let part = &parts[i];
        if part.len() == 0 || str_eq(part, ".") {
            assert(before + Seq::<Seq<char>>::empty() =~= before);
        } else {
            out.push(slice_chars(part, 0, part.len()));
            assert(part@.subrange(0, part@.len() as int) =~= part@);
            assert(out@.map_values(|x: Vec<char>| x@) =~= before + seq![pv[i as int]]);
        }
        i = i + 1;
    }
    assert(pv.take(pv.len() as int) =~= pv);
    out
}

fn head_of(v: &Vec<char>) -> (r: (bool, bool))
    ensures
        r == path_head(v@),
{
    let rooted = v.len() > 0 && v[0] == '/';
    (rooted, !rooted && v.len() > 0 && v[0] == '.' && (v.len() == 1 || v[1] == '/'))
}

/// Whether `a` and `b` are equal as `Path`s (see [`same_path`]).
pub fn same_path_chars(a: &Vec<char>, b: &Vec<char>) -> (r: bool)
    ensures
        r == same_path(a@, b@),
{
    let (ra, da) = head_of(a);
    let (rb, db) = head_of(b);
    if ra != rb || da != db {
        return false;
    }
    let pa = pieces_of(a);
    let pb = pieces_of(b);
    let ghost va = pa@.map_values(|x: Vec<char>| x@);
    let ghost vb = pb@.map_values(|x: Vec<char>| x@);
    if pa.len() != pb.len() {
        assert(va.len() != vb.len());
        return false;
    }
    let mut i: usize = 0;
    while i < pa.len()
        invariant
            i <= pa@.len() == pb@.len(),
            va == pa@.map_values(|x: Vec<char>| x@),
            vb == pb@.map_values(|x: Vec<char>| x@),
            va == path_pieces(a@),
            vb == path_pieces(b@),
            forall|k: int| 0 <= k < i ==> va[k] == vb[k],
        decreases pa@.len() - i,
    {
        if !chars_eq(&pa[i], &pb[i]) {
            assert(va[i as int] != vb[i as int]);
            return false;
        }
        i = i + 1;
    }
    assert(va =~= vb);
    true
}

} // verus!
