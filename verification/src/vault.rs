//! Vault file rules: containment of paths in the vault, optimistic writes,
//! the note tree, UTF-8 decoding and the editing-state list.

use vstd::prelude::*;
use crate::error::CoreError;
use crate::paths::{file_name, file_name_of, parent, parent_of, path_join};
use crate::text::{chars_eq, chars_of, owned, push_str, split_char, split_chars, str_eq, string_from_chars};

verus! {

// ── Path components ──────────────────────────────────────────────────────────

/// A segment that is a component: not empty and not `.`.
pub open spec fn keeps_segment(s: Seq<char>) -> bool {
    s.len() > 0 && s != seq!['.']
}

/// The component segments among the first `n` segments.
pub open spec fn kept_segments(segs: Seq<Seq<char>>, n: nat) -> Seq<Seq<char>>
    decreases n,
{
    if n == 0 {
        Seq::empty()
    } else {
        kept_segments(segs, (n - 1) as nat) + if keeps_segment(segs[n - 1]) { seq![segs[n - 1]] } else { seq![] }
    }
}

/// `Path::components` of a `/` path, as texts: `/` for the root, `.` for a
/// leading current directory, then every non-empty segment other than `.`.
pub open spec fn components(p: Seq<char>) -> Seq<Seq<char>> {
    let segs = split_char(p, '/');
    let root = p.len() > 0 && p[0] == '/';
    let cur = !root && segs[0] == seq!['.'];
    (if root { seq![seq!['/']] } else { seq![] }) + (if cur { seq![seq!['.']] } else { seq![] })
        + kept_segments(segs, segs.len())
}

/// `Path::starts_with`: the components of `base` begin the components of `p`.
pub open spec fn path_starts_with(p: Seq<char>, base: Seq<char>) -> bool {
    let a = components(p);
    let b = components(base);
    b.len() <= a.len() && a.subrange(0, b.len() as int) == b
}

/// An absolute path.
pub open spec fn is_absolute(p: Seq<char>) -> bool {
    p.len() > 0 && p[0] == '/'
}

/// A path with a `..` component.
pub open spec fn has_parent_dir(p: Seq<char>) -> bool {
    exists|k: int| 0 <= k < components(p).len() && #[trigger] components(p)[k] == seq!['.', '.']
}

fn is_single(v: &Vec<char>, c: char) -> (r: bool)
    ensures
        r == (v@ == seq![c]),
{
    if v.len() == 1 && v[0] == c {
        assert(v@ =~= seq![c]);
        true
    } else {
        assert(seq![c].len() == 1 && seq![c][0] == c);
        if v.len() == 1 {
            assert(v@[0] != seq![c][0]);
        }
        false
    }
}

fn is_dot_dot(v: &Vec<char>) -> (r: bool)
    ensures
        r == (v@ == seq!['.', '.']),
{
    let ghost dd = seq!['.', '.'];
    assert(dd.len() == 2 && dd[0] == '.' && dd[1] == '.');
    if v.len() == 2 && v[0] == '.' && v[1] == '.' {
        assert(v@ =~= dd);
        true
    } else {
        if v.len() == 2 {
            assert(v@[0] != dd[0] || v@[1] != dd[1]);
        }
        false
    }
}

/// [`components`] of `p`.
pub fn components_of(p: &str) -> (r: Vec<Vec<char>>)
    ensures
        r@.len() == components(p@).len(),
        forall|k: int| 0 <= k < r@.len() ==> (#[trigger] r@[k])@ == components(p@)[k],
{
    let v = chars_of(p);
    let segs = split_chars(&v, '/');
    proof {
        crate::text::lemma_split_nonempty(v@, '/');
    }
    let ghost ss = split_char(v@, '/');
    let root = v.len() > 0 && v[0] == '/';
    let cur = !root && is_single(&segs[0], '.');
    let mut out: Vec<Vec<char>> = Vec::new();
    if root {
        let mut r: Vec<char> = Vec::new();
        r.push('/');
        out.push(r);
    }
    if cur {
        let mut d: Vec<char> = Vec::new();
        d.push('.');
        out.push(d);
    }
    let ghost head = out@.map_values(|x: Vec<char>| x@);
    assert(head =~= (if root { seq![seq!['/']] } else { seq![] }) + (if cur { seq![seq!['.']] } else { seq![] }));
    let mut i: usize = 0;
    while i < segs.len()
        invariant
            i <= segs@.len(),
            segs@.len() == ss.len(),
            ss == split_char(p@, '/'),
            forall|j: int| 0 <= j < segs@.len() ==> (#[trigger] segs@[j])@ == ss[j],
            out@.map_values(|x: Vec<char>| x@) == head + kept_segments(ss, i as nat),
        decreases segs@.len() - i,
    {
        let s = &segs[i];
        assert(s@ == ss[i as int]);
        let ghost prev = out@.map_values(|x: Vec<char>| x@);
        if s.len() > 0 && !is_single(s, '.') {
            let c = crate::text::slice_chars(s, 0, s.len());
            assert(c@ =~= s@);
            out.push(c);
            assert(out@.map_values(|x: Vec<char>| x@) =~= prev.push(ss[i as int]));
        }
        i = i + 1;
    }
    out
}

fn comps_prefix(a: &Vec<Vec<char>>, b: &Vec<Vec<char>>) -> (r: bool)
    ensures
        r == (b@.len() <= a@.len() && a@.map_values(|x: Vec<char>| x@).subrange(0, b@.len() as int)
            == b@.map_values(|x: Vec<char>| x@)),
{
    if b.len() > a.len() {
        return false;
    }
    let mut i: usize = 0;
    while i < b.len()
        invariant
            i <= b@.len() <= a@.len(),
            forall|k: int| 0 <= k < i ==> (#[trigger] a@[k])@ == b@[k]@,
        decreases b@.len() - i,
    {
        if !chars_eq(&a[i], &b[i]) {
            assert(a@.map_values(|x: Vec<char>| x@).subrange(0, b@.len() as int)[i as int] != b@.map_values(
                |x: Vec<char>| x@,
            )[i as int]);
            return false;
        }
        i = i + 1;
    }
    assert(a@.map_values(|x: Vec<char>| x@).subrange(0, b@.len() as int) =~= b@.map_values(|x: Vec<char>| x@));
    true
}

/// Whether the components of `base` begin those of `p` (`Path::starts_with`).
pub fn starts_with_path(p: &str, base: &str) -> (r: bool)
    ensures
        r == path_starts_with(p@, base@),
{
    let a = components_of(p);
    let b = components_of(base);
    assert(a@.map_values(|x: Vec<char>| x@) =~= components(p@));
    assert(b@.map_values(|x: Vec<char>| x@) =~= components(base@));
    comps_prefix(&a, &b)
}

fn has_parent_dir_exec(p: &str) -> (r: bool)
    ensures
        r == has_parent_dir(p@),
{
    let c = components_of(p);
    let mut i: usize = 0;
    while i < c.len()
        invariant
            i <= c@.len(),
            c@.len() == components(p@).len(),
            forall|k: int| 0 <= k < c@.len() ==> (#[trigger] c@[k])@ == components(p@)[k],
            forall|k: int| 0 <= k < i ==> components(p@)[k] != seq!['.', '.'],
        decreases c@.len() - i,
    {
        if is_dot_dot(&c[i]) {
            assert(components(p@)[i as int] == seq!['.', '.']);
            return true;
        }
        i = i + 1;
    }
    false
}

// ── Containment ──────────────────────────────────────────────────────────────

/// The error for a path that leaves the vault.
pub open spec fn traversal(e: CoreError, relative: Seq<char>) -> bool {
    e matches CoreError::PathTraversal(m) && m@ == relative
}

fn traversal_error(relative: &str) -> (r: CoreError)
    ensures
        traversal(r, relative@),
{
    CoreError::PathTraversal(owned(relative))
}

/// A path given for a new file must be relative and free of `..`.
pub fn check_new_relative(relative: &str) -> (r: Result<(), CoreError>)
    ensures
        r is Err <==> (is_absolute(relative@) || has_parent_dir(relative@)),
        r matches Err(e) ==> traversal(e, relative@),
{
    let v = chars_of(relative);
    if (v.len() > 0 && v[0] == '/') || has_parent_dir_exec(relative) {
        return Err(traversal_error(relative));
    }
    Ok(())
}

/// An existing path, once canonicalised, must lie inside the vault.
pub fn check_within_vault(canonical: &str, vault_root: &str, relative: &str) -> (r: Result<(), CoreError>)
    ensures
        r is Err <==> !path_starts_with(canonical@, vault_root@),
        r matches Err(e) ==> traversal(e, relative@),
{
    if !starts_with_path(canonical, vault_root) {
        return Err(traversal_error(relative));
    }
    Ok(())
}

/// First step for a new path: the lexical check, then the parent directory of
/// `vault_root` joined with `relative`, which the caller canonicalises.
pub fn new_path_parent(vault_root: &str, relative: &str) -> (r: Result<String, CoreError>)
    ensures
        match r {
            Ok(p) => !is_absolute(relative@) && !has_parent_dir(relative@)
                && parent(path_join(vault_root@, relative@)) == Some(p@),
            Err(e) => traversal(e, relative@) && (is_absolute(relative@) || has_parent_dir(relative@)
                || parent(path_join(vault_root@, relative@)) is None),
        },
{
    check_new_relative(relative)?;
    let joined = crate::paths::join(vault_root, relative);
    match parent_of(joined.as_str()) {
        Some(p) => Ok(string_from_chars(&p)),
        None => Err(traversal_error(relative)),
    }
}

/// Second step for a new path: the canonical parent must lie inside the
/// vault, and the path must end in a file name; the result is that name
/// inside the canonical parent.
pub fn new_path_finish(vault_root: &str, relative: &str, parent_canonical: &str) -> (r: Result<String, CoreError>)
    ensures
        match r {
            Ok(p) => path_starts_with(parent_canonical@, vault_root@)
                && (file_name(path_join(vault_root@, relative@)) matches Some(n)
                && p@ == path_join(parent_canonical@, n))
                && path_starts_with(p@, vault_root@),
            Err(e) => traversal(e, relative@) && (!path_starts_with(parent_canonical@, vault_root@)
                || file_name(path_join(vault_root@, relative@)) is None),
        },
{
    check_within_vault(parent_canonical, vault_root, relative)?;
    let joined = crate::paths::join(vault_root, relative);
    match file_name_of(joined.as_str()) {
        Some(n) => {
            let pc = chars_of(parent_canonical);
            let j = crate::paths::join_chars(&pc, &n);
            proof {
                law_new_path_inside_vault(parent_canonical@, vault_root@, path_join(vault_root@, relative@));
            }
            Ok(string_from_chars(&j))
        },
        None => Err(traversal_error(relative)),
    }
}

/// `n` has no `/` in it.
pub open spec fn no_slash(n: Seq<char>) -> bool {
    forall|i: int| 0 <= i < n.len() ==> n[i] != '/'
}

/// The components of `base` begin those of `p`.
pub open spec fn extends_components(p: Seq<char>, base: Seq<char>) -> bool {
    components(base).len() <= components(p).len()
        && components(p).subrange(0, components(base).len() as int) == components(base)
}

proof fn lemma_kept_prefix(a: Seq<Seq<char>>, b: Seq<Seq<char>>, n: nat)
    requires
        n <= a.len(),
        n <= b.len(),
        forall|i: int| 0 <= i < n ==> a[i] == b[i],
    ensures
        kept_segments(a, n) == kept_segments(b, n),
    decreases n,
{
    if n > 0 {
        lemma_kept_prefix(a, b, (n - 1) as nat);
    }
}

proof fn lemma_components_append(q: Seq<char>, n: Seq<char>)
    requires
        q.len() > 0,
        q.last() == '/',
        no_slash(n),
    ensures
        components(q + n) == components(q) + (if keeps_segment(n) { seq![n] } else { Seq::<Seq<char>>::empty() }),
{
    let sq = split_char(q, '/');
    let l = sq.len();
    crate::text::lemma_split_nonempty(q.drop_last(), '/');
    assert(sq == split_char(q.drop_last(), '/').push(Seq::<char>::empty()));
    crate::text::lemma_split_after_separator(q, '/', n);
    let sn = split_char(q + n, '/');
    assert(sn == sq.update(l - 1, n));
    lemma_kept_prefix(sn, sq, (l - 1) as nat);
    assert(!keeps_segment(sq[l - 1]));
    assert(kept_segments(sq, l as nat) == kept_segments(sq, (l - 1) as nat));
    assert(kept_segments(sn, l as nat) == kept_segments(sq, (l - 1) as nat)
        + (if keeps_segment(n) { seq![n] } else { Seq::<Seq<char>>::empty() }));
    assert((q + n)[0] == q[0]);
    assert(sn[0] == sq[0]);
}

proof fn lemma_components_slash(p: Seq<char>)
    requires
        p.len() > 0,
    ensures
        components(p + seq!['/']) == components(p),
{
    let q = p + seq!['/'];
    assert(q.drop_last() =~= p);
    let sp = split_char(p, '/');
    crate::text::lemma_split_nonempty(p, '/');
    let sq = split_char(q, '/');
    assert(sq == sp.push(Seq::<char>::empty()));
    lemma_kept_prefix(sq, sp, sp.len());
    assert(kept_segments(sq, sq.len()) == kept_segments(sp, sp.len()));
    assert(q[0] == p[0]);
    assert(sq[0] == sp[0]);
}

/// Joining a name without `/` to a path only adds to its components.
proof fn lemma_join_extends(base: Seq<char>, n: Seq<char>)
    requires
        no_slash(n),
    ensures
        extends_components(path_join(base, n), base),
{
    if n.len() > 0 && n[0] == '/' {
        assert(false);
    } else if base.len() == 0 {
        let s0 = split_char(base, '/');
        assert(s0 == seq![Seq::<char>::empty()]);
        assert(s0.len() == 1 && s0[0].len() == 0);
        assert(seq!['.'].len() == 1);
        assert(s0[0] != seq!['.']);
        assert(!keeps_segment(s0[0]));
        assert(kept_segments(s0, 0) =~= Seq::<Seq<char>>::empty());
        assert(kept_segments(s0, 1) =~= Seq::<Seq<char>>::empty());
        assert(components(base) =~= Seq::<Seq<char>>::empty());
        assert(components(path_join(base, n)).subrange(0, 0) =~= components(base));
    } else if base.last() == '/' {
        lemma_components_append(base, n);
        let cb = components(base);
        let t = if keeps_segment(n) { seq![n] } else { Seq::<Seq<char>>::empty() };
        assert((cb + t).subrange(0, cb.len() as int) =~= cb);
    } else {
        let q = base + seq!['/'];
        lemma_components_slash(base);
        lemma_components_append(q, n);
        assert(path_join(base, n) =~= q + n);
        let cb = components(base);
        let t = if keeps_segment(n) { seq![n] } else { Seq::<Seq<char>>::empty() };
        assert((cb + t).subrange(0, cb.len() as int) =~= cb);
    }
}

proof fn lemma_last_seg(q: Seq<char>)
    ensures
        0 <= crate::paths::last_seg_start(q) <= q.len(),
        forall|i: int| crate::paths::last_seg_start(q) <= i < q.len() ==> q[i] != '/',
    decreases q.len(),
{
    if q.len() > 0 && q.last() != '/' {
        lemma_last_seg(q.drop_last());
        assert forall|i: int| crate::paths::last_seg_start(q) <= i < q.len() implies q[i] != '/' by {
            if i < q.len() - 1 {
                assert(q[i] == q.drop_last()[i]);
            }
        }
    }
}

/// A file name has no `/` in it.
proof fn lemma_file_name_no_slash(p: Seq<char>)
    ensures
        file_name(p) matches Some(n) ==> no_slash(n),
{
    let q = crate::paths::trim_end(p);
    lemma_last_seg(q);
    if let Some(n) = file_name(p) {
        let st = crate::paths::last_seg_start(q);
        assert forall|i: int| 0 <= i < n.len() implies n[i] != '/' by {
            assert(n[i] == q[st + i]);
        }
    }
}

/// A path prefix of a path prefix is a path prefix.
proof fn lemma_starts_with_trans(p: Seq<char>, mid: Seq<char>, root: Seq<char>)
    requires
        extends_components(p, mid),
        path_starts_with(mid, root),
    ensures
        path_starts_with(p, root),
{
    let a = components(p);
    let b = components(mid);
    let c = components(root);
    assert forall|i: int| 0 <= i < c.len() implies a.subrange(0, c.len() as int)[i] == c[i] by {
        assert(a.subrange(0, b.len() as int)[i] == b[i]);
        assert(b.subrange(0, c.len() as int)[i] == c[i]);
    }
    assert(a.subrange(0, c.len() as int) =~= c);
}

/// A new path resolved for writing always lies inside the vault: its parent
/// was checked to be there, and the file name appended cannot climb out.
pub proof fn law_new_path_inside_vault(parent_canonical: Seq<char>, vault_root: Seq<char>, target: Seq<char>)
    requires
        path_starts_with(parent_canonical, vault_root),
        file_name(target) is Some,
    ensures
        path_starts_with(path_join(parent_canonical, file_name(target)->0), vault_root),
{
    let n = file_name(target)->0;
    lemma_file_name_no_slash(target);
    lemma_join_extends(parent_canonical, n);
    lemma_starts_with_trans(path_join(parent_canonical, n), parent_canonical, vault_root);
}

// ── Writes ───────────────────────────────────────────────────────────────────

/// The outcome of a write guarded by the file's modification time.
#[derive(Debug, Clone, Copy, PartialEq, Eq, Structural)]
pub enum WriteResult {
    /// Written; the new modification time (Unix seconds).
    Success { new_mtime: u64 },
    /// Not written: the file changed since it was read; its current time.
    Conflict { current_mtime: u64 },
}

/// A guarded write goes ahead only when the file's current modification time
/// is the one the writer read; otherwise it is a conflict reporting the
/// current time, and nothing is written.
pub fn write_precheck(current_mtime: u64, expected_mtime: u64) -> (r: Option<WriteResult>)
    ensures
        r is None <==> current_mtime == expected_mtime,
        r matches Some(w) ==> w == (WriteResult::Conflict { current_mtime }),
{
    if current_mtime != expected_mtime {
        Some(WriteResult::Conflict { current_mtime })
    } else {
        None
    }
}

/// A write to a path that does not resolve goes on as a new file only when
/// the path was not found (any other error is returned).
pub fn write_creates_new(err: &CoreError) -> (r: bool)
    ensures
        r == (*err is NotFound),
{
    match err {
        CoreError::NotFound(_) => true,
        _ => false,
    }
}

/// A move never replaces an existing destination.
pub fn move_precheck(dst_exists: bool, dst_rel: &str) -> (r: Result<(), CoreError>)
    ensures
        r is Err <==> dst_exists,
        r matches Err(e) ==> (e matches CoreError::Io { already_exists, message } && already_exists
            && message@ == "destination already exists: "@ + dst_rel@),
{
    if dst_exists {
        let mut m = chars_of("destination already exists: ");
        push_str(&mut m, dst_rel);
        return Err(CoreError::Io { already_exists: true, message: string_from_chars(&m) });
    }
    Ok(())
}

// ── Decoding ─────────────────────────────────────────────────────────────────

/// `String::from_utf8`: the text when the bytes are valid UTF-8, otherwise
/// `valid_up_to` of the error, the longest valid prefix.
#[verifier::external_body]
fn from_utf8(bytes: Vec<u8>) -> (r: Result<String, usize>)
    ensures
        match r {
            Ok(s) => vstd::utf8::valid_utf8(bytes@) && s@ == vstd::utf8::decode_utf8(bytes@),
            Err(k) => !vstd::utf8::valid_utf8(bytes@) && k <= bytes@.len()
                && vstd::utf8::valid_utf8(bytes@.take(k as int))
                && (forall|j: int| k < j <= bytes@.len() ==> !vstd::utf8::valid_utf8(#[trigger] bytes@.take(j))),
        },
{
    String::from_utf8(bytes).map_err(|e| e.utf8_error().valid_up_to())
}

/// The text of a note read as bytes; invalid UTF-8 is `InvalidUtf8` at the
/// offset of the first byte that is not part of a valid prefix.
pub fn decode_note(bytes: Vec<u8>) -> (r: Result<String, CoreError>)
    ensures
        match r {
            Ok(s) => vstd::utf8::valid_utf8(bytes@) && s@ == vstd::utf8::decode_utf8(bytes@),
            Err(e) => e matches CoreError::InvalidUtf8 { byte_offset } && !vstd::utf8::valid_utf8(bytes@)
                && byte_offset <= bytes@.len() && vstd::utf8::valid_utf8(bytes@.take(byte_offset as int))
                && (forall|j: int| byte_offset < j <= bytes@.len() ==> !vstd::utf8::valid_utf8(#[trigger] bytes@.take(j))),
        },
{
    match from_utf8(bytes) {
        Ok(s) => Ok(s),
        Err(k) => Err(CoreError::InvalidUtf8 { byte_offset: k }),
    }
}

// ── Editing state ────────────────────────────────────────────────────────────

/// The list of notes open with unsaved changes contains `rel`.
pub open spec fn lists(paths: Seq<String>, rel: Seq<char>) -> bool {
    exists|i: int| 0 <= i < paths.len() && (#[trigger] paths[i])@ == rel
}

fn contains_path(paths: &Vec<String>, rel: &str) -> (r: bool)
    ensures
        r == lists(paths@, rel@),
{
    let target = chars_of(rel);
    let mut i: usize = 0;
    while i < paths.len()
        invariant
            i <= paths@.len(),
            target@ == rel@,
            forall|k: int| 0 <= k < i ==> (#[trigger] paths@[k])@ != rel@,
        decreases paths@.len() - i,
    {
        let p = chars_of(paths[i].as_str());
        if chars_eq(&p, &target) {
            return true;
        }
        i = i + 1;
    }
    false
}

/// Whether `rel` is open with unsaved changes, given the editing list.
pub fn is_editing_in(paths: &Vec<String>, rel: &str) -> (r: bool)
    ensures
        r == lists(paths@, rel@),
        r == names(paths@).contains(rel@),
{
    proof {
        lemma_lists_names(paths@, rel@);
    }
    contains_path(paths, rel)
}

/// The editing list with `rel` marked (appended once) or cleared (every entry
/// equal to it removed); the other entries keep their order.
pub fn editing_with(paths: Vec<String>, rel: &str, editing: bool) -> (r: Vec<String>)
    ensures
        editing ==> (if lists(paths@, rel@) {
            r@ == paths@
        } else {
            r@.len() == paths@.len() + 1 && r@.subrange(0, paths@.len() as int) == paths@
                && r@[paths@.len() as int]@ == rel@
        }),
        !editing ==> r@.map_values(|s: String| s@) == paths@.map_values(|s: String| s@).filter(
            not_path(rel@),
        ),
        names(r@) == editing_list(names(paths@), rel@, editing),
{
    if editing {
        proof {
            lemma_lists_names(paths@, rel@);
        }
        if contains_path(&paths, rel) {
            return paths;
        }
        let ghost before = paths@;
        let mut out = paths;
        out.push(owned(rel));
        assert(names(out@) =~= names(before).push(rel@));
        return out;
    }
    let ghost pv = paths@.map_values(|s: String| s@);
    let target = chars_of(rel);
    let mut out: Vec<String> = Vec::new();
    let mut i: usize = 0;
    proof {
        assert(pv.take(0).filter(not_path(rel@)) =~= Seq::<Seq<char>>::empty());
    }
    while i < paths.len()
        invariant
            i <= paths@.len(),
            target@ == rel@,
            pv == paths@.map_values(|s: String| s@),
            out@.map_values(|s: String| s@) == pv.take(i as int).filter(not_path(rel@)),
        decreases paths@.len() - i,
    {
        let p = chars_of(paths[i].as_str());
        assert(pv.take(i + 1).drop_last() =~= pv.take(i as int));
        assert(pv.take(i + 1).last() == paths@[i as int]@);
        let ghost prev = out@.map_values(|s: String| s@);
        if !chars_eq(&p, &target) {
            out.push(paths[i].clone());
            assert(out@.map_values(|s: String| s@) =~= prev.push(paths@[i as int]@));
        }
        proof {
            pv.take(i as int).lemma_filter_push(pv[i as int], not_path(rel@));
            assert(pv.take(i as int).push(pv[i as int]) =~= pv.take(i + 1));
        }
        i = i + 1;
    }
    assert(pv.take(paths@.len() as int) =~= pv);
    out
}

/// The notes of an editing list, as texts.
pub open spec fn names(paths: Seq<String>) -> Seq<Seq<char>> {
    paths.map_values(|s: String| s@)
}

/// The entries of an editing list kept when `rel` is cleared.
pub open spec fn not_path(rel: Seq<char>) -> spec_fn(Seq<char>) -> bool {
    |s: Seq<char>| s != rel
}

/// The editing list `pv` after `rel` is marked (`editing`) or cleared.
pub open spec fn editing_list(pv: Seq<Seq<char>>, rel: Seq<char>, editing: bool) -> Seq<Seq<char>> {
    if editing {
        if pv.contains(rel) { pv } else { pv.push(rel) }
    } else {
        pv.filter(not_path(rel))
    }
}

proof fn lemma_lists_names(paths: Seq<String>, rel: Seq<char>)
    ensures
        lists(paths, rel) == names(paths).contains(rel),
{
    if lists(paths, rel) {
        let i = choose|i: int| 0 <= i < paths.len() && (#[trigger] paths[i])@ == rel;
        assert(names(paths)[i] == rel);
    }
    if names(paths).contains(rel) {
        let i = choose|i: int| 0 <= i < names(paths).len() && names(paths)[i] == rel;
        assert(paths[i]@ == rel);
    }
}

proof fn lemma_filter_keeps(pv: Seq<Seq<char>>, rel: Seq<char>, x: Seq<char>)
    requires
        x != rel,
    ensures
        pv.filter(not_path(rel)).contains(x) == pv.contains(x),
    decreases pv.len(),
{
    reveal(Seq::filter);
    let f = pv.filter(not_path(rel));
    if pv.len() > 0 {
        let d = pv.drop_last();
        lemma_filter_keeps(d, rel, x);
        let fd = d.filter(not_path(rel));
        if pv.contains(x) {
            let i = choose|i: int| 0 <= i < pv.len() && pv[i] == x;
            if i < pv.len() - 1 {
                assert(d[i] == x);
                let j = choose|j: int| 0 <= j < fd.len() && fd[j] == x;
                assert(f[j] == x);
            } else {
                assert(f[f.len() - 1] == x);
            }
        }
        if f.contains(x) {
            let j = choose|j: int| 0 <= j < f.len() && f[j] == x;
            if pv.last() != rel && j == f.len() - 1 {
                assert(pv[pv.len() - 1] == x);
            } else {
                assert(fd[j] == x);
                let i = choose|i: int| 0 <= i < d.len() && d[i] == x;
                assert(pv[i] == x);
            }
        }
    }
}

/// Marking a note makes the list report it as being edited and clearing it
/// makes the list report it as not being edited; no other note's state
/// changes either way.
pub proof fn law_editing_mark_and_clear(pv: Seq<Seq<char>>, rel: Seq<char>, editing: bool, other: Seq<char>)
    ensures
        editing_list(pv, rel, editing).contains(rel) == editing,
        other != rel ==> editing_list(pv, rel, editing).contains(other) == pv.contains(other),
{
    if editing {
        if !pv.contains(rel) {
            assert(pv.push(rel)[pv.len() as int] == rel);
        }
        if other != rel && !pv.contains(rel) {
            let q = pv.push(rel);
            if q.contains(other) {
                let i = choose|i: int| 0 <= i < q.len() && q[i] == other;
                assert(pv[i] == other);
            }
            if pv.contains(other) {
                let i = choose|i: int| 0 <= i < pv.len() && pv[i] == other;
                assert(q[i] == other);
            }
        }
    } else {
        let f = pv.filter(not_path(rel));
        pv.filter_lemma(not_path(rel));
        if f.contains(rel) {
            let j = choose|j: int| 0 <= j < f.len() && f[j] == rel;
            assert(not_path(rel)(f[j]));
        }
        if other != rel {
            lemma_filter_keeps(pv, rel, other);
            assert(f.contains(other) == pv.contains(other));
            assert(editing_list(pv, rel, editing) == f);
        }
    }
}

// ── Note tree ────────────────────────────────────────────────────────────────

/// A node of the note tree: a Markdown note, or a directory with notes in it.
#[derive(Debug)]
pub struct VaultEntry {
    pub name: String,
    /// Vault-relative path with `/` separators.
    pub path: String,
    pub is_dir: bool,
    /// The children of a directory; `None` for a note.
    pub children: Option<Vec<VaultEntry>>,
}

/// The tree walk enters a directory unless it is hidden or `node_modules`.
pub open spec fn tree_enters(name: Seq<char>) -> bool {
    !crate::text::starts_with(name, "."@) && name != "node_modules"@
}

/// Whether the note tree descends into the directory `name`.
pub fn tree_enters_dir(name: &str) -> (r: bool)
    ensures
        r == tree_enters(name@),
{
    let v = chars_of(name);
    !crate::text::starts_with_lit(&v, ".") && !str_eq(&v, "node_modules")
}

/// A directory appears in the tree only when it holds notes.
pub fn dir_entry(name: String, path: String, children: Vec<VaultEntry>) -> (r: Option<VaultEntry>)
    ensures
        r is None <==> children@.len() == 0,
        r matches Some(e) ==> e.name == name && e.path == path && e.is_dir && e.children == Some(children),
{
    if children.len() == 0 {
        None
    } else {
        Some(VaultEntry { name, path, is_dir: true, children: Some(children) })
    }
}

/// Code-point order of two texts: `a` comes first or they are equal
/// (the order of `str`'s `Ord`).
pub open spec fn lex_le(a: Seq<char>, b: Seq<char>) -> bool
    decreases a.len(),
{
    if a.len() == 0 {
        true
    } else if b.len() == 0 {
        false
    } else if (a[0] as u32) != (b[0] as u32) {
        (a[0] as u32) < (b[0] as u32)
    } else {
        lex_le(a.drop_first(), b.drop_first())
    }
}

proof fn lemma_lex_total(a: Seq<char>, b: Seq<char>)
    ensures
        lex_le(a, b) || lex_le(b, a),
    decreases a.len(),
{
    if a.len() > 0 && b.len() > 0 && (a[0] as u32) == (b[0] as u32) {
        lemma_lex_total(a.drop_first(), b.drop_first());
    }
}

proof fn lemma_lex_trans(a: Seq<char>, b: Seq<char>, c: Seq<char>)
    requires
        lex_le(a, b),
        lex_le(b, c),
    ensures
        lex_le(a, c),
    decreases a.len(),
{
    if a.len() > 0 && b.len() > 0 && c.len() > 0 && (a[0] as u32) == (b[0] as u32) && (b[0] as u32) == (c[0] as u32) {
        lemma_lex_trans(a.drop_first(), b.drop_first(), c.drop_first());
    }
}

fn lex_le_exec(a: &Vec<char>, b: &Vec<char>) -> (r: bool)
    ensures
        r == lex_le(a@, b@),
{
    let mut i: usize = 0;
    assert(a@.skip(0) =~= a@);
    assert(b@.skip(0) =~= b@);
    while i < a.len() && i < b.len() && (a[i] as u32) == (b[i] as u32)
        invariant
            i <= a@.len(),
            i <= b@.len(),
            lex_le(a@.skip(i as int), b@.skip(i as int)) == lex_le(a@, b@),
        decreases a@.len() - i,
    {
        assert(a@.skip(i as int).drop_first() =~= a@.skip(i + 1));
        assert(b@.skip(i as int).drop_first() =~= b@.skip(i + 1));
        i = i + 1;
    }
    if i == a.len() {
        return true;
    }
    if i == b.len() {
        return false;
    }
    (a[i] as u32) < (b[i] as u32)
}

/// Entries in code-point order of their names.
pub open spec fn sorted_by_name(s: Seq<VaultEntry>) -> bool {
    forall|i: int, j: int| 0 <= i < j < s.len() ==> lex_le((#[trigger] s[i]).name@, (#[trigger] s[j]).name@)
}

/// The entries ordered by name (a stable sort, as `sort_by` on the names).
pub fn sort_entries(entries: Vec<VaultEntry>) -> (r: Vec<VaultEntry>)
    ensures
        r@.to_multiset() == entries@.to_multiset(),
        sorted_by_name(r@),
{
    broadcast use vstd::seq_lib::group_to_multiset_ensures;
    broadcast use vstd::multiset::group_multiset_axioms;
    let mut out: Vec<VaultEntry> = Vec::new();
    let mut rest = entries;
    let ghost all = rest@;
    proof {
        assert(out@.to_multiset() =~= vstd::multiset::Multiset::<VaultEntry>::empty());
        assert(out@.to_multiset().add(rest@.to_multiset()) =~= all.to_multiset());
    }
    while rest.len() > 0
        invariant
            out@.to_multiset().add(rest@.to_multiset()) == all.to_multiset(),
            sorted_by_name(out@),
        decreases rest@.len(),
    {
        let ghost r0 = rest@;
        let x = rest.pop().unwrap();
        let xn = chars_of(x.name.as_str());
        let mut p: usize = 0;
        while p < out.len() && lex_le_exec(&chars_of(out[p].name.as_str()), &xn)
            invariant
                p <= out@.len(),
                xn@ == x.name@,
                forall|k: int| 0 <= k < p ==> lex_le((#[trigger] out@[k]).name@, x.name@),
            decreases out@.len() - p,
        {
            p = p + 1;
        }
        proof {
            assert forall|k: int| p <= k < out@.len() implies lex_le(x.name@, (#[trigger] out@[k]).name@) by {
                lemma_lex_total(out@[p as int].name@, x.name@);
                if k > p {
                    lemma_lex_trans(x.name@, out@[p as int].name@, out@[k].name@);
                }
            }
        }
        let ghost before = out@;
        out.insert(p, x);
        proof {
            assert forall|i: int, j: int| 0 <= i < j < out@.len() implies lex_le((#[trigger] out@[i]).name@, (#[trigger] out@[j]).name@) by {
                if i < p && j == p {
                } else if i < p && j > p {
                    assert(out@[j] == before[j - 1]);
                } else if i == p {
                    assert(out@[j] == before[j - 1]);
                } else if j < p {
                } else {
                    assert(out@[i] == before[i - 1]);
                    assert(out@[j] == before[j - 1]);
                }
            }
        }
        proof {
            assert(r0 =~= rest@.push(x));
            vstd::seq_lib::to_multiset_build(rest@, x);
            vstd::seq_lib::to_multiset_insert(before, p as int, x);
            assert(out@.to_multiset().add(rest@.to_multiset()) =~= all.to_multiset());
        }
    }
    assert(rest@.to_multiset() =~= vstd::multiset::Multiset::<VaultEntry>::empty());
    assert(out@.to_multiset() =~= all.to_multiset());
    out
}

} // verus!
