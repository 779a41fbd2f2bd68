//! Revisions: renaming a note by a naming style and rewriting the wikilinks
//! that point to it, planned as a dry run or carried out through a
//! write-ahead log.

use vstd::prelude::*;
use crate::error::{ActionableError, CoreError};
use crate::link_index::{extract_wikilinks, names_match, renamed_text, replace_wikilinks, same_note, wikilinks_of, WikilinkView};
use crate::cmark::cmark_gfm_spans;
use crate::pattern::{caps_view, captures, compile, regex_captures, regex_compile_error, span_chars, span_text};
use crate::paths::{file_stem, file_stem_of, parent, parent_of, path_join};
use crate::text::{byte_offset, chars_of, dec_digits, decimal_chars, owned, push_all, push_str, slice_chars, str_eq, string_from_chars};

verus! {

// ── Naming styles ────────────────────────────────────────────────────────────

/// How the new name of a revised note is derived from the old one.
#[derive(Debug, Clone, Copy, PartialEq, Eq, Structural, Default)]
pub enum NamingStyle {
    /// `name` → `name_2`, `name_2` → `name_3`.
    #[default]
    Increment,
    /// `name` → `name_YYYYMMDD`.
    Date,
    /// `name` → `name_1.1.0`, `name_1.1.0` → `name_1.1.1`.
    Semver,
    /// A name given by the user.
    Manual,
}

/// The style named by a configuration or command-line word.
pub open spec fn style_named(s: Seq<char>) -> Option<NamingStyle> {
    if s == "increment"@ {
        Some(NamingStyle::Increment)
    } else if s == "date"@ {
        Some(NamingStyle::Date)
    } else if s == "semver"@ {
        Some(NamingStyle::Semver)
    } else if s == "manual"@ {
        Some(NamingStyle::Manual)
    } else {
        None
    }
}

/// The error envelope for an unknown naming style word.
pub open spec fn unknown_style_error(s: Seq<char>, e: ActionableError) -> bool {
    &&& e.schema_version@ == "v1"@
    &&& e.kind@ == "error"@
    &&& e.category@ == "validation"@
    &&& e.exit_code == 5
    &&& e.message@ == "Unknown naming style: "@ + s
    &&& e.candidates@.len() == 0
    &&& e.required_args@.len() == 0
    &&& e.next_step matches Some(n) && n@ == "Use one of: increment | date | semver | manual"@
}

/// The naming style named by the desktop window; an unknown word means
/// [`NamingStyle::Increment`].
pub fn parse_naming(s: &str) -> (r: NamingStyle)
    ensures
        r == (match style_named(s@) {
            Some(n) => n,
            None => NamingStyle::Increment,
        }),
{
    match naming_style_from_str(s) {
        Ok(n) => n,
        Err(_) => NamingStyle::Increment,
    }
}

/// The naming style for `increment`, `date`, `semver` or `manual`; any other
/// word is a validation error.
pub fn naming_style_from_str(s: &str) -> (r: Result<NamingStyle, ActionableError>)
    ensures
        match r {
            Ok(n) => style_named(s@) == Some(n),
            Err(e) => style_named(s@) is None && unknown_style_error(s@, e),
        },
{
    let v = chars_of(s);
    if str_eq(&v, "increment") {
        Ok(NamingStyle::Increment)
    } else if str_eq(&v, "date") {
        Ok(NamingStyle::Date)
    } else if str_eq(&v, "semver") {
        Ok(NamingStyle::Semver)
    } else if str_eq(&v, "manual") {
        Ok(NamingStyle::Manual)
    } else {
        let mut m = chars_of("Unknown naming style: ");
        push_str(&mut m, s);
        let msg = string_from_chars(&m);
        let e = ActionableError::new("validation", 5, msg.as_str()).with_next_step(
            "Use one of: increment | date | semver | manual",
        );
        Err(e)
    }
}

// ── Decimal numbers ──────────────────────────────────────────────────────────

/// Value of a run of ASCII digits.
pub open spec fn digits_value(s: Seq<char>) -> nat
    decreases s.len(),
{
    if s.len() == 0 {
        0
    } else {
        digits_value(s.drop_last()) * 10 + ((s.last() as u32) - 48) as nat
    }
}

/// All characters are ASCII digits.
pub open spec fn all_digits(s: Seq<char>) -> bool {
    forall|i: int| 0 <= i < s.len() ==> '0' <= #[trigger] s[i] && s[i] <= '9'
}

/// What `str::parse::<u64>` gives: an optional `+`, then one or more ASCII
/// digits whose value fits in 64 bits.
pub open spec fn u64_value(s: Seq<char>) -> Option<nat> {
    let body = if s.len() > 0 && s[0] == '+' { s.drop_first() } else { s };
    if body.len() > 0 && all_digits(body) && digits_value(body) <= u64::MAX {
        Some(digits_value(body))
    } else {
        None
    }
}

proof fn lemma_digits_prefix(s: Seq<char>, i: int, j: int)
    requires
        0 <= i <= j <= s.len(),
        all_digits(s),
    ensures
        digits_value(s.take(i)) <= digits_value(s.take(j)),
    decreases j - i,
{
    if i < j {
        lemma_digits_prefix(s, i, j - 1);
        assert(s.take(j).drop_last() =~= s.take(j - 1));
    }
}

/// [`u64_value`] of `s`.
pub fn parse_u64(s: &Vec<char>) -> (r: Option<u64>)
    ensures
        match r {
            Some(n) => u64_value(s@) == Some(n as nat),
            None => u64_value(s@) is None,
        },
{
    let start: usize = if s.len() > 0 && s[0] == '+' { 1 } else { 0 };
    let ghost body = if s@.len() > 0 && s@[0] == '+' { s@.drop_first() } else { s@ };
    assert(body =~= s@.subrange(start as int, s@.len() as int));
    if start == s.len() {
        assert(body.len() == 0);
        return None;
    }
    let mut acc: u64 = 0;
    let mut i: usize = start;
    proof {
        assert(body.take(0) =~= Seq::<char>::empty());
    }
    while i < s.len()
        invariant
            start <= i <= s@.len(),
            body =~= s@.subrange(start as int, s@.len() as int),
            body == (if s@.len() > 0 && s@[0] == '+' { s@.drop_first() } else { s@ }),
            forall|k: int| 0 <= k < i - start ==> '0' <= #[trigger] body[k] && body[k] <= '9',
            acc == digits_value(body.take(i - start)),
        decreases s@.len() - i,
    {
        let c = s[i];
        if !('0' <= c && c <= '9') {
            assert(body[i - start] == c);
            assert(!all_digits(body));
            return None;
        }
        let d: u64 = (c as u32 - 48) as u64;
        assert(body.take(i - start + 1).drop_last() =~= body.take(i - start));
        assert(body.take(i - start + 1).last() == c);
        if acc > (u64::MAX - d) / 10 {
            proof {
                assert(acc * 10 + d > u64::MAX) by (nonlinear_arith)
                    requires
                        acc > (u64::MAX - d) / 10,
                        d <= 9,
                ;
                if all_digits(body) {
                    lemma_digits_prefix(body, i - start + 1, body.len() as int);
                    assert(body.take(body.len() as int) =~= body);
                }
            }
            return None;
        }
        acc = acc * 10 + d;
        i = i + 1;
    }
    assert(body.take(body.len() as int) =~= body);
    Some(acc)
}

// ── New names ────────────────────────────────────────────────────────────────

/// Position of the last `c` in `s`, or -1.
pub open spec fn last_index_of(s: Seq<char>, c: char) -> int
    decreases s.len(),
{
    if s.len() == 0 {
        -1
    } else if s.last() == c {
        s.len() - 1
    } else {
        last_index_of(s.drop_last(), c)
    }
}

proof fn lemma_last_index_bounds(s: Seq<char>, c: char)
    ensures
        -1 <= last_index_of(s, c) < s.len(),
        last_index_of(s, c) >= 0 ==> s[last_index_of(s, c)] == c,
    decreases s.len(),
{
    if s.len() > 0 && s.last() != c {
        lemma_last_index_bounds(s.drop_last(), c);
    }
}

fn last_index(v: &Vec<char>, c: char) -> (r: Option<usize>)
    ensures
        match r {
            Some(p) => p == last_index_of(v@, c) && p < v@.len(),
            None => last_index_of(v@, c) == -1,
        },
{
    let mut k: usize = v.len();
    assert(v@.take(v@.len() as int) =~= v@);
    while k > 0 && v[k - 1] != c
        invariant
            k <= v@.len(),
            last_index_of(v@.take(k as int), c) == last_index_of(v@, c),
        decreases k,
    {
        assert(v@.take(k as int).drop_last() =~= v@.take(k - 1));
        k = k - 1;
    }
    proof {
        assert(v@.take(v@.len() as int) =~= v@);
    }
    if k == 0 {
        assert(v@.take(0) =~= Seq::<char>::empty());
        None
    } else {
        assert(v@.take(k as int).last() == c);
        Some(k - 1)
    }
}

/// The numeric suffix after the last `_` of `stem`, when it parses as a `u64`.
pub open spec fn increment_suffix(stem: Seq<char>) -> Option<(int, nat)> {
    let p = last_index_of(stem, '_');
    if p >= 0 {
        match u64_value(stem.subrange(p + 1, stem.len() as int)) {
            Some(n) => Some((p, n)),
            None => None,
        }
    } else {
        None
    }
}

/// `stem` with its numeric `_N` suffix incremented, or with `_2` appended.
pub open spec fn incremented(stem: Seq<char>) -> Seq<char> {
    match increment_suffix(stem) {
        Some((p, n)) => stem.subrange(0, p) + "_"@ + dec_digits(n + 1),
        None => stem + "_2"@,
    }
}

/// `auth` → `auth_2`, `auth_2` → `auth_3`, `auth_draft` → `auth_draft_2`.
/// The suffix must not already be `u64::MAX`.
pub fn increment_stem(stem: &str) -> (r: String)
    requires
        !(increment_suffix(stem@) matches Some((_, n)) && n == u64::MAX),
    ensures
        r@ == incremented(stem@),
{
    let v = chars_of(stem);
    proof {
        lemma_last_index_bounds(v@, '_');
    }
    let li = last_index(&v, '_');
    if let Some(p) = li {
        let len = v.len();
        let suffix = slice_chars(&v, p + 1, len);
        if let Some(n) = parse_u64(&suffix) {
            assert(increment_suffix(stem@) == Some((p as int, n as nat)));
            let mut out = slice_chars(&v, 0, p);
            out.push('_');
            let d = decimal_chars(n + 1);
            push_all(&mut out, &d);
            proof {
                reveal_strlit("_");
                assert(out@ =~= v@.subrange(0, p as int) + "_"@ + dec_digits((n + 1) as nat));
            }
            return string_from_chars(&out);
        }
    }
    let mut out = v;
    push_str(&mut out, "_2");
    string_from_chars(&out)
}

/// The pattern of a semantic-version suffix: `<base>_<major>.<minor>.<patch>`.
pub open spec fn semver_pattern() -> Seq<char> {
    "^(.+)_(\\d+)\\.(\\d+)\\.(\\d+)$"@
}

/// The capture spans of [`semver_pattern`] on `stem` (nothing if the pattern
/// did not compile).
pub open spec fn semver_captures(stem: Seq<char>) -> Option<Seq<Option<(int, int)>>> {
    if regex_compile_error(semver_pattern()) is None {
        regex_captures(semver_pattern(), stem)
    } else {
        None
    }
}

/// Base, major, minor and patch texts of a semver match.
pub open spec fn semver_parts(stem: Seq<char>, caps: Option<Seq<Option<(int, int)>>>) -> Option<(Seq<char>, Seq<char>, Seq<char>, Seq<char>)> {
    match caps {
        Some(c) => if c.len() >= 5 {
            match (span_text(stem, c[1]), span_text(stem, c[2]), span_text(stem, c[3]), span_text(stem, c[4])) {
                (Some(a), Some(b), Some(x), Some(y)) => Some((a, b, x, y)),
                _ => None,
            }
        } else {
            None
        },
        None => None,
    }
}

/// A parsed number, or 0 when the text does not parse.
pub open spec fn or_zero(o: Option<nat>) -> nat {
    match o {
        Some(n) => n,
        None => 0,
    }
}

/// The next patch version of a semver stem, or `stem_1.1.0` when the stem has
/// no version.
pub open spec fn bumped(stem: Seq<char>, parts: Option<(Seq<char>, Seq<char>, Seq<char>, Seq<char>)>) -> Seq<char> {
    match parts {
        Some((base, a, b, c)) => base + "_"@ + dec_digits(or_zero(u64_value(a))) + "."@ + dec_digits(
            or_zero(u64_value(b)),
        ) + "."@ + dec_digits(or_zero(u64_value(c)) + 1),
        None => stem + "_1.1.0"@,
    }
}

/// The patch number can be incremented.
pub open spec fn patch_fits(parts: Option<(Seq<char>, Seq<char>, Seq<char>, Seq<char>)>) -> bool {
    parts matches Some((_, _, _, c)) ==> or_zero(u64_value(c)) < u64::MAX
}

fn number_or_zero(v: &Vec<char>) -> (r: u64)
    ensures
        r == or_zero(u64_value(v@)),
{
    match parse_u64(v) {
        Some(n) => n,
        None => 0,
    }
}

fn semver_parts_exec(stem: &Vec<char>, caps: &Option<Vec<Option<(usize, usize)>>>) -> (r: Option<(Vec<char>, Vec<char>, Vec<char>, Vec<char>)>)
    ensures
        match r {
            Some((a, b, x, y)) => semver_parts(stem@, caps_view(*caps)) == Some((a@, b@, x@, y@)),
            None => semver_parts(stem@, caps_view(*caps)) is None,
        },
{
    match caps {
        Some(c) => {
            if c.len() < 5 {
                return None;
            }
            let ghost cv = crate::pattern::spans_view(c@);
            let a = span_chars(stem, c[1]);
            let b = span_chars(stem, c[2]);
            let x = span_chars(stem, c[3]);
            let y = span_chars(stem, c[4]);
            assert(cv[1] == (match c@[1] { Some((s, e)) => Some((s as int, e as int)), None => None }));
            assert(cv[2] == (match c@[2] { Some((s, e)) => Some((s as int, e as int)), None => None }));
            assert(cv[3] == (match c@[3] { Some((s, e)) => Some((s as int, e as int)), None => None }));
            assert(cv[4] == (match c@[4] { Some((s, e)) => Some((s as int, e as int)), None => None }));
            match (a, b, x, y) {
                (Some(a), Some(b), Some(x), Some(y)) => Some((a, b, x, y)),
                _ => None,
            }
        },
        None => None,
    }
}

/// The semver bump of `stem`, given the capture spans of [`semver_pattern`]
/// on it: the patch number goes up by one, or `_1.1.0` is appended when there
/// is no match. Numbers that do not parse count as 0.
pub fn bump_semver_with(stem: &str, caps: Option<Vec<Option<(usize, usize)>>>) -> (r: String)
    requires
        patch_fits(semver_parts(stem@, caps_view(caps))),
    ensures
        r@ == bumped(stem@, semver_parts(stem@, caps_view(caps))),
{
    let v = chars_of(stem);
    match semver_parts_exec(&v, &caps) {
        Some((base, a, b, c)) => {
            let ma = number_or_zero(&a);
            let mi = number_or_zero(&b);
            let pa = number_or_zero(&c);
            let mut out = base;
            out.push('_');
            push_all(&mut out, &decimal_chars(ma));
            out.push('.');
            push_all(&mut out, &decimal_chars(mi));
            out.push('.');
            push_all(&mut out, &decimal_chars(pa + 1));
            proof {
                reveal_strlit("_");
                reveal_strlit(".");
            }
            string_from_chars(&out)
        },
        None => {
            let mut out = v;
            push_str(&mut out, "_1.1.0");
            string_from_chars(&out)
        },
    }
}

/// The capture spans of [`semver_pattern`] on `stem`.
fn semver_caps(stem: &str) -> (r: Option<Vec<Option<(usize, usize)>>>)
    ensures
        caps_view(r) == semver_captures(stem@),
{
    match compile("^(.+)_(\\d+)\\.(\\d+)\\.(\\d+)$") {
        Ok(re) => captures(&re, stem),
        Err(_) => None,
    }
}

/// `auth` → `auth_1.1.0`, `auth_1.1.0` → `auth_1.1.1`.
fn bump_semver(stem: &str) -> (r: String)
    requires
        patch_fits(semver_parts(stem@, semver_captures(stem@))),
    ensures
        r@ == bumped(stem@, semver_parts(stem@, semver_captures(stem@))),
{
    let caps = semver_caps(stem);
    bump_semver_with(stem, caps)
}

/// The new name can be computed without overflowing a version counter.
pub open spec fn new_name_fits(old: Seq<char>, style: NamingStyle) -> bool {
    match style {
        NamingStyle::Increment => !(increment_suffix(old) matches Some((_, n)) && n == u64::MAX),
        NamingStyle::Semver => patch_fits(semver_parts(old, semver_captures(old))),
        _ => true,
    }
}

/// The error of a naming style that lacks its input.
pub open spec fn invalid_pattern(e: CoreError, msg: Seq<char>) -> bool {
    e matches CoreError::InvalidPattern(m) && m@ == msg
}

/// What [`generate_new_name`] gives.
pub open spec fn new_name_spec(
    old: Seq<char>,
    style: NamingStyle,
    manual: Option<Seq<char>>,
    date: Option<Seq<char>>,
    r: Result<String, CoreError>,
) -> bool {
    match style {
        NamingStyle::Manual => match manual {
            Some(m) => r matches Ok(n) && n@ == m,
            None => r matches Err(e) && invalid_pattern(e, "Manual style requires --name <value>"@),
        },
        NamingStyle::Increment => r matches Ok(n) && n@ == incremented(old),
        NamingStyle::Date => match date {
            Some(d) => r matches Ok(n) && n@ == old + "_"@ + d,
            None => r matches Err(e) && invalid_pattern(e, "Date style requires a date string (YYYYMMDD)"@),
        },
        NamingStyle::Semver => r matches Ok(n) && n@ == bumped(old, semver_parts(old, semver_captures(old))),
    }
}

/// The view of an optional `&str`.
pub open spec fn opt_str(o: Option<&str>) -> Option<Seq<char>> {
    match o {
        Some(s) => Some(s@),
        None => None,
    }
}

/// The new stem of a note under `style`: the manual name, the incremented
/// suffix, `old_stem_<date>`, or the bumped version.
pub fn generate_new_name(
    old_stem: &str,
    style: &NamingStyle,
    manual_name: Option<&str>,
    date_str: Option<&str>,
) -> (r: Result<String, CoreError>)
    requires
        new_name_fits(old_stem@, *style),
    ensures
        new_name_spec(old_stem@, *style, opt_str(manual_name), opt_str(date_str), r),
{
    match style {
        NamingStyle::Manual => match manual_name {
            Some(n) => Ok(owned(n)),
            None => Err(CoreError::InvalidPattern(owned("Manual style requires --name <value>"))),
        },
        NamingStyle::Increment => Ok(increment_stem(old_stem)),
        NamingStyle::Date => match date_str {
            Some(d) => {
                let mut out = chars_of(old_stem);
                out.push('_');
                push_str(&mut out, d);
                proof {
                    reveal_strlit("_");
                    assert(out@ =~= old_stem@ + "_"@ + d@);
                }
                Ok(string_from_chars(&out))
            },
            None => Err(CoreError::InvalidPattern(owned("Date style requires a date string (YYYYMMDD)"))),
        },
        NamingStyle::Semver => Ok(bump_semver(old_stem)),
    }
}

/// Whether [`new_name_fits`] holds.
pub fn new_name_fits_exec(old_stem: &str, style: &NamingStyle) -> (r: bool)
    ensures
        r == new_name_fits(old_stem@, *style),
{
    match style {
        NamingStyle::Increment => {
            let v = chars_of(old_stem);
            proof {
                lemma_last_index_bounds(v@, '_');
            }
            match last_index(&v, '_') {
                Some(p) => {
                    let len = v.len();
                    let suffix = slice_chars(&v, p + 1, len);
                    match parse_u64(&suffix) {
                        Some(n) => n != u64::MAX,
                        None => true,
                    }
                },
                None => true,
            }
        },
        NamingStyle::Semver => {
            let caps = semver_caps(old_stem);
            let v = chars_of(old_stem);
            match semver_parts_exec(&v, &caps) {
                Some((_, _, _, c)) => number_or_zero(&c) < u64::MAX,
                None => true,
            }
        },
        _ => true,
    }
}

/// [`generate_new_name`], or `None` when the version counter to increment is
/// already at its maximum.
pub fn try_generate_new_name(
    old_stem: &str,
    style: &NamingStyle,
    manual_name: Option<&str>,
    date_str: Option<&str>,
) -> (r: Option<Result<String, CoreError>>)
    ensures
        r is None <==> !new_name_fits(old_stem@, *style),
        r matches Some(x) ==> new_name_spec(old_stem@, *style, opt_str(manual_name), opt_str(date_str), x),
{
    if new_name_fits_exec(old_stem, style) {
        Some(generate_new_name(old_stem, style, manual_name, date_str))
    } else {
        None
    }
}

// ── Paths ────────────────────────────────────────────────────────────────────

/// The file stem of a note path.
pub fn stem_of(rel_path: &str) -> (r: Result<String, CoreError>)
    ensures
        match file_stem(rel_path@) {
            Some(st) => r matches Ok(s) && s@ == st,
            None => r matches Err(e) && invalid_pattern(e, "Cannot derive stem from: "@ + rel_path@),
        },
{
    match file_stem_of(rel_path) {
        Some(st) => Ok(string_from_chars(&st)),
        None => {
            let mut m = chars_of("Cannot derive stem from: ");
            push_str(&mut m, rel_path);
            Err(CoreError::InvalidPattern(string_from_chars(&m)))
        },
    }
}

/// `s` with every `\` turned into `/`.
pub open spec fn forward_slashes(s: Seq<char>) -> Seq<char> {
    Seq::new(s.len(), |i: int| if s[i] == '\\' { '/' } else { s[i] })
}

/// The path of a note named `stem` in the same directory as `rel_path`, with
/// forward slashes and no leading `./`.
pub open spec fn sibling(rel_path: Seq<char>, stem: Seq<char>) -> Seq<char> {
    let dir = match parent(rel_path) {
        Some(p) => p,
        None => Seq::empty(),
    };
    let k = forward_slashes(path_join(dir, stem + ".md"@));
    if crate::text::starts_with(k, "./"@) {
        k.subrange(2, k.len() as int)
    } else {
        k
    }
}

/// Where the rewrite of note `edit_rel` is written when the note at
/// `source_rel` is renamed to `new_rel`, all under `root`: the renamed note's
/// own rewrite goes to its new path (it is moved before the rewrites land);
/// every other rewrite replaces its note in place. Paths are compared as
/// `Path`s are, component by component.
pub open spec fn edit_destination(root: Seq<char>, edit_rel: Seq<char>, source_rel: Seq<char>, new_rel: Seq<char>) -> Seq<char> {
    if crate::paths::same_path(path_join(root, edit_rel), path_join(root, source_rel)) {
        path_join(root, new_rel)
    } else {
        path_join(root, edit_rel)
    }
}

/// The path the rewrite of `edit_rel` is written to (see
/// [`edit_destination`]).
pub fn edit_target(root: &str, edit_rel: &str, source_rel: &str, new_rel: &str) -> (r: String)
    ensures
        r@ == edit_destination(root@, edit_rel@, source_rel@, new_rel@),
{
    let rv = chars_of(root);
    let e = crate::paths::join_chars(&rv, &chars_of(edit_rel));
    let src = crate::paths::join_chars(&rv, &chars_of(source_rel));
    if crate::paths::same_path_chars(&e, &src) {
        let n = crate::paths::join_chars(&rv, &chars_of(new_rel));
        string_from_chars(&n)
    } else {
        string_from_chars(&e)
    }
}

/// [`sibling`] of `rel_path` and `new_stem`.
pub fn sibling_path(rel_path: &str, new_stem: &str) -> (r: String)
    ensures
        r@ == sibling(rel_path@, new_stem@),
{
    let dir = match parent_of(rel_path) {
        Some(p) => p,
        None => Vec::new(),
    };
    let mut file = chars_of(new_stem);
    push_str(&mut file, ".md");
    let j = crate::paths::join_chars(&dir, &file);
    let mut k: Vec<char> = Vec::new();
    let mut i: usize = 0;
    while i < j.len()
        invariant
            i <= j@.len(),
            k@ == forward_slashes(j@).take(i as int),
        decreases j@.len() - i,
    {
        let c = j[i];
        k.push(if c == '\\' { '/' } else { c });
        assert(forward_slashes(j@).take(i + 1) =~= forward_slashes(j@).take(i as int).push(
            forward_slashes(j@)[i as int],
        ));
        i = i + 1;
    }
    assert(forward_slashes(j@).take(j@.len() as int) =~= forward_slashes(j@));
    if crate::text::starts_with_lit(&k, "./") {
        proof {
            reveal_strlit("./");
        }
        let len = k.len();
        let t = slice_chars(&k, 2, len);
        return string_from_chars(&t);
    }
    string_from_chars(&k)
}

// ── Affected notes ───────────────────────────────────────────────────────────

/// A note of the vault: its vault-relative path and its text.
#[derive(Debug, Clone)]
pub struct NoteText {
    pub rel: String,
    pub content: String,
}

/// A note whose wikilinks point to the renamed note.
#[derive(Debug, Clone, PartialEq, Eq)]
pub struct AffectedFile {
    pub path: String,
    pub wikilink_count: usize,
}

/// The wikilinks of `content` that are not in code, comments or frontmatter.
pub open spec fn note_links(content: Seq<char>) -> Seq<WikilinkView> {
    wikilinks_of(content, cmark_gfm_spans(content))
}

/// Number of links in `links` whose target names the note `old`.
pub open spec fn ref_count(links: Seq<WikilinkView>, old: Seq<char>) -> nat
    decreases links.len(),
{
    if links.len() == 0 {
        0
    } else {
        ref_count(links.drop_last(), old) + if names_match(links.last().target, old) { 1nat } else { 0nat }
    }
}

/// Number of wikilinks in `content` that point to the note `old`.
pub open spec fn refs_to(content: Seq<char>, old: Seq<char>) -> nat {
    ref_count(note_links(content), old)
}

proof fn lemma_ref_count_le(links: Seq<WikilinkView>, old: Seq<char>)
    ensures
        ref_count(links, old) <= links.len(),
    decreases links.len(),
{
    if links.len() > 0 {
        lemma_ref_count_le(links.drop_last(), old);
    }
}

/// How many wikilinks of `content` point to the note `old_stem` (names compared
/// as [`same_note`] does).
pub fn count_refs(content: &str, old_stem: &str) -> (r: usize)
    requires
        content@.len() < usize::MAX,
    ensures
        r == refs_to(content@, old_stem@),
{
    let links = extract_wikilinks(content);
    let ghost lv = crate::link_index::refs_view(links@);
    let mut n: usize = 0;
    let mut i: usize = 0;
    proof {
        assert(lv.take(0) =~= Seq::<WikilinkView>::empty());
    }
    while i < links.len()
        invariant
            i <= links@.len(),
            lv == crate::link_index::refs_view(links@),
            lv == note_links(content@),
            n == ref_count(lv.take(i as int), old_stem@),
            n <= i,
        decreases links@.len() - i,
    {
        assert(lv.take(i + 1).drop_last() =~= lv.take(i as int));
        assert(lv.take(i + 1).last() == links@[i as int]@);
        if same_note(links[i].target.as_str(), old_stem) {
            n = n + 1;
        }
        i = i + 1;
    }
    assert(lv.take(links@.len() as int) =~= lv);
    n
}

/// The view of an affected file.
pub open spec fn affected_view(a: AffectedFile) -> (Seq<char>, nat) {
    (a.path@, a.wikilink_count as nat)
}

/// The notes among `notes` that link to `old`, each with its link count, in order.
pub open spec fn affected_of(notes: Seq<NoteText>, old: Seq<char>) -> Seq<(Seq<char>, nat)>
    decreases notes.len(),
{
    if notes.len() == 0 {
        Seq::empty()
    } else {
        let rest = affected_of(notes.drop_last(), old);
        let n = notes.last();
        if refs_to(n.content@, old) > 0 {
            rest.push((n.rel@, refs_to(n.content@, old)))
        } else {
            rest
        }
    }
}

/// Every note text is shorter than `usize::MAX` characters.
pub open spec fn texts_fit(notes: Seq<NoteText>) -> bool {
    forall|i: int| 0 <= i < notes.len() ==> (#[trigger] notes[i]).content@.len() < usize::MAX
}

/// The notes that link to `old_stem`, with their link counts, in input order.
pub fn affected_files(notes: &Vec<NoteText>, old_stem: &str) -> (r: Vec<AffectedFile>)
    requires
        texts_fit(notes@),
    ensures
        r@.map_values(|a: AffectedFile| affected_view(a)) == affected_of(notes@, old_stem@),
{
    let mut out: Vec<AffectedFile> = Vec::new();
    let mut i: usize = 0;
    proof {
        assert(notes@.take(0) =~= Seq::<NoteText>::empty());
    }
    while i < notes.len()
        invariant
            i <= notes@.len(),
            texts_fit(notes@),
            out@.map_values(|a: AffectedFile| affected_view(a)) == affected_of(notes@.take(i as int), old_stem@),
        decreases notes@.len() - i,
    {
        assert(notes@.take(i + 1).drop_last() =~= notes@.take(i as int));
        assert(notes@.take(i + 1).last() == notes@[i as int]);
        let c = count_refs(notes[i].content.as_str(), old_stem);
        if c > 0 {
            out.push(AffectedFile { path: notes[i].rel.clone(), wikilink_count: c });
            assert(out@.map_values(|a: AffectedFile| affected_view(a)) =~= affected_of(notes@.take(i as int), old_stem@).push(
                (notes@[i as int].rel@, c as nat),
            ));
        }
        i = i + 1;
    }
    assert(notes@.take(notes@.len() as int) =~= notes@);
    out
}

/// Sum of the link counts.
pub open spec fn count_sum(a: Seq<AffectedFile>) -> nat
    decreases a.len(),
{
    if a.len() == 0 {
        0
    } else {
        count_sum(a.drop_last()) + a.last().wikilink_count as nat
    }
}

/// The total number of links over `affected`, if it fits in a `usize`.
pub fn total_wikilinks(affected: &Vec<AffectedFile>) -> (r: Option<usize>)
    ensures
        match r {
            Some(t) => t == count_sum(affected@),
            None => count_sum(affected@) > usize::MAX,
        },
{
    let mut t: usize = 0;
    let mut i: usize = 0;
    proof {
        assert(affected@.take(0) =~= Seq::<AffectedFile>::empty());
    }
    while i < affected.len()
        invariant
            i <= affected@.len(),
            t == count_sum(affected@.take(i as int)),
        decreases affected@.len() - i,
    {
        assert(affected@.take(i + 1).drop_last() =~= affected@.take(i as int));
        let c = affected[i].wikilink_count;
        if c > usize::MAX - t {
            proof {
                lemma_count_sum_prefix(affected@, i + 1);
            }
            return None;
        }
        t = t + c;
        i = i + 1;
    }
    assert(affected@.take(affected@.len() as int) =~= affected@);
    Some(t)
}

proof fn lemma_count_sum_prefix(a: Seq<AffectedFile>, k: int)
    requires
        0 <= k <= a.len(),
    ensures
        count_sum(a.take(k)) <= count_sum(a),
    decreases a.len() - k,
{
    if k < a.len() {
        lemma_count_sum_prefix(a, k + 1);
        assert(a.take(k + 1).drop_last() =~= a.take(k));
    } else {
        assert(a.take(k) =~= a);
    }
}

/// Whether `rel` lies under one of the excluded directories: `rel` starts with
/// the directory text without its trailing slashes.
pub open spec fn excluded_by(rel: Seq<char>, dirs: Seq<String>) -> bool {
    exists|i: int| 0 <= i < dirs.len() && crate::text::starts_with(rel, trim_slashes_end(#[trigger] dirs[i]@))
}

/// `s` without trailing `/` characters (`trim_end_matches('/')`).
pub open spec fn trim_slashes_end(s: Seq<char>) -> Seq<char>
    decreases s.len(),
{
    if s.len() > 0 && s.last() == '/' {
        trim_slashes_end(s.drop_last())
    } else {
        s
    }
}

fn trim_slashes(v: &Vec<char>) -> (r: Vec<char>)
    ensures
        r@ == trim_slashes_end(v@),
{
    let mut k: usize = v.len();
    assert(v@.take(v@.len() as int) =~= v@);
    while k > 0 && v[k - 1] == '/'
        invariant
            k <= v@.len(),
            trim_slashes_end(v@.take(k as int)) == trim_slashes_end(v@),
        decreases k,
    {
        assert(v@.take(k as int).drop_last() =~= v@.take(k - 1));
        k = k - 1;
    }
    assert(v@.take(k as int) =~= v@.subrange(0, k as int));
    slice_chars(v, 0, k)
}

/// Whether `rel` is under one of `excluded_dirs`.
pub fn is_excluded(rel: &str, excluded_dirs: &Vec<String>) -> (r: bool)
    ensures
        r == excluded_by(rel@, excluded_dirs@),
{
    let v = chars_of(rel);
    let mut i: usize = 0;
    while i < excluded_dirs.len()
        invariant
            i <= excluded_dirs@.len(),
            v@ == rel@,
            forall|j: int| 0 <= j < i ==> !crate::text::starts_with(rel@, trim_slashes_end(#[trigger] excluded_dirs@[j]@)),
        decreases excluded_dirs@.len() - i,
    {
        let d = chars_of(excluded_dirs[i].as_str());
        let t = trim_slashes(&d);
        if crate::text::matches_at(&v, 0, &t) {
            return true;
        }
        i = i + 1;
    }
    false
}

/// A Markdown note path: extension `md` or `markdown`.
pub open spec fn is_markdown(p: Seq<char>) -> bool {
    crate::paths::extension(p) == Some("md"@) || crate::paths::extension(p) == Some("markdown"@)
}

/// Whether `path` names a Markdown note.
pub fn is_markdown_path(path: &str) -> (r: bool)
    ensures
        r == is_markdown(path@),
{
    match crate::paths::extension_of(path) {
        Some(e) => str_eq(&e, "md") || str_eq(&e, "markdown"),
        None => false,
    }
}

/// A file of the walk that the revision scan reads: a Markdown note outside
/// the excluded directories.
pub fn scan_candidate(rel: &str, excluded_dirs: &Vec<String>) -> (r: bool)
    ensures
        r == (is_markdown(rel@) && !excluded_by(rel@, excluded_dirs@)),
{
    is_markdown_path(rel) && !is_excluded(rel, excluded_dirs)
}

// ── Plans and edits ──────────────────────────────────────────────────────────

/// A revision to plan or carry out.
#[derive(Debug, Clone)]
pub struct RevisionRequest {
    pub vault_root: String,
    /// Vault-relative path of the note to rename.
    pub source_rel_path: String,
    pub naming: NamingStyle,
    /// Required for [`NamingStyle::Manual`].
    pub new_name: Option<String>,
    pub excluded_dirs: Vec<String>,
    /// `YYYYMMDD`, required for [`NamingStyle::Date`].
    pub date_str: Option<String>,
}

/// The dry-run description of a revision.
#[derive(Debug, Clone)]
pub struct RevisionPlan {
    pub schema_version: String,
    pub kind: String,
    pub dry_run: bool,
    pub old_name: String,
    pub new_name: String,
    pub old_path: String,
    pub new_path: String,
    pub affected_files: Vec<AffectedFile>,
    pub total_wikilinks: usize,
}

/// The outcome of a completed revision.
#[derive(Debug, Clone)]
pub struct RevisionResult {
    pub old_path: String,
    pub new_path: String,
    pub affected_files: Vec<AffectedFile>,
    pub total_wikilinks: usize,
}

/// The view of an optional string.
pub open spec fn opt_string(o: Option<String>) -> Option<Seq<char>> {
    match o {
        Some(s) => Some(s@),
        None => None,
    }
}

/// Sum of the counts of affected-file views.
pub open spec fn pairs_sum(s: Seq<(Seq<char>, nat)>) -> nat
    decreases s.len(),
{
    if s.len() == 0 {
        0
    } else {
        pairs_sum(s.drop_last()) + s.last().1
    }
}

proof fn lemma_sum_views(a: Seq<AffectedFile>)
    ensures
        count_sum(a) == pairs_sum(a.map_values(|x: AffectedFile| affected_view(x))),
    decreases a.len(),
{
    if a.len() > 0 {
        lemma_sum_views(a.drop_last());
        assert(a.drop_last().map_values(|x: AffectedFile| affected_view(x)) =~= a.map_values(
            |x: AffectedFile| affected_view(x),
        ).drop_last());
    }
}

/// The plan's fields agree with the request and the notes.
pub open spec fn plan_fields(req: RevisionRequest, notes: Seq<NoteText>, old: Seq<char>, p: RevisionPlan) -> bool {
    &&& p.schema_version@ == "v1"@
    &&& p.kind@ == "revision_plan"@
    &&& p.dry_run
    &&& p.old_name@ == old
    &&& new_name_spec(old, req.naming, opt_string(req.new_name), opt_string(req.date_str), Ok(p.new_name))
    &&& p.old_path@ == req.source_rel_path@
    &&& p.new_path@ == sibling(req.source_rel_path@, p.new_name@)
    &&& p.affected_files@.map_values(|a: AffectedFile| affected_view(a)) == affected_of(notes, old)
    &&& p.total_wikilinks == pairs_sum(affected_of(notes, old))
}

/// The naming style needs an input that is absent: a manual name or a date.
pub open spec fn name_missing(style: NamingStyle, manual: Option<String>, date: Option<String>) -> bool {
    (style == NamingStyle::Manual && manual is None) || (style == NamingStyle::Date && date is None)
}

/// What [`plan_revision_from`] gives.
pub open spec fn plan_spec(req: RevisionRequest, notes: Seq<NoteText>, r: Option<Result<RevisionPlan, CoreError>>) -> bool {
    match file_stem(req.source_rel_path@) {
        None => r matches Some(Err(e)) && invalid_pattern(e, "Cannot derive stem from: "@ + req.source_rel_path@),
        Some(old) => if !new_name_fits(old, req.naming) {
            r is None
        } else {
            match r {
                None => !name_missing(req.naming, req.new_name, req.date_str)
                    && pairs_sum(affected_of(notes, old)) > usize::MAX,
                Some(Err(e)) => name_missing(req.naming, req.new_name, req.date_str)
                    && new_name_spec(old, req.naming, opt_string(req.new_name), opt_string(req.date_str), Err(e)),
                Some(Ok(p)) => !name_missing(req.naming, req.new_name, req.date_str)
                    && plan_fields(req, notes, old, p) && pairs_sum(affected_of(notes, old)) <= usize::MAX,
            }
        },
    }
}

fn opt_as_str(o: &Option<String>) -> (r: Option<&str>)
    ensures
        opt_str(r) == opt_string(*o),
{
    match o {
        Some(s) => Some(s.as_str()),
        None => None,
    }
}

/// The dry-run plan of `req` over the vault's scanned `notes`: the old and new
/// names and paths and the notes whose links would be rewritten. `None` when a
/// version counter or the link total would overflow.
pub fn plan_revision_from(req: &RevisionRequest, notes: &Vec<NoteText>) -> (r: Option<Result<RevisionPlan, CoreError>>)
    requires
        texts_fit(notes@),
    ensures
        plan_spec(*req, notes@, r),
        r is None ==> file_stem(req.source_rel_path@) is Some,
{
    let old = match stem_of(req.source_rel_path.as_str()) {
        Ok(s) => s,
        Err(e) => return Some(Err(e)),
    };
    let manual = opt_as_str(&req.new_name);
    let date = opt_as_str(&req.date_str);
    let new = match try_generate_new_name(old.as_str(), &req.naming, manual, date) {
        None => return None,
        Some(Err(e)) => return Some(Err(e)),
        Some(Ok(n)) => n,
    };
    let new_path = sibling_path(req.source_rel_path.as_str(), new.as_str());
    let affected = affected_files(notes, old.as_str());
    proof {
        lemma_sum_views(affected@);
    }
    let total = match total_wikilinks(&affected) {
        Some(t) => t,
        None => return None,
    };
    Some(Ok(RevisionPlan {
        schema_version: owned("v1"),
        kind: owned("revision_plan"),
        dry_run: true,
        old_name: old,
        new_name: new,
        old_path: req.source_rel_path.clone(),
        new_path,
        affected_files: affected,
        total_wikilinks: total,
    }))
}

/// A rewritten note of a revision.
#[derive(Debug, Clone)]
pub struct RevisionEdit {
    pub rel: String,
    pub new_content: String,
    pub wikilink_count: usize,
}

/// The rewrites of a revision: every note that links to `old`, with its links
/// retargeted to `new`, in input order.
pub open spec fn edits_of(notes: Seq<NoteText>, old: Seq<char>, new: Seq<char>) -> Seq<(Seq<char>, Seq<char>, nat)>
    decreases notes.len(),
{
    if notes.len() == 0 {
        Seq::empty()
    } else {
        let rest = edits_of(notes.drop_last(), old, new);
        let n = notes.last();
        if refs_to(n.content@, old) > 0 {
            rest.push((n.rel@, renamed_text(n.content@, cmark_gfm_spans(n.content@), old, new), refs_to(n.content@, old)))
        } else {
            rest
        }
    }
}

/// The notes and link counts of a list of edits.
pub open spec fn edit_targets(e: Seq<(Seq<char>, Seq<char>, nat)>) -> Seq<(Seq<char>, nat)> {
    e.map_values(|x: (Seq<char>, Seq<char>, nat)| (x.0, x.2))
}

/// A dry run tells the truth: the notes (and link counts) a plan lists as
/// affected are exactly the notes the revision rewrites, in the same order,
/// for any new name.
pub proof fn law_dry_run_matches_revision(notes: Seq<NoteText>, old: Seq<char>, new: Seq<char>)
    ensures
        edit_targets(edits_of(notes, old, new)) == affected_of(notes, old),
    decreases notes.len(),
{
    if notes.len() > 0 {
        law_dry_run_matches_revision(notes.drop_last(), old, new);
        let rest = edits_of(notes.drop_last(), old, new);
        let n = notes.last();
        if refs_to(n.content@, old) > 0 {
            let x = (n.rel@, renamed_text(n.content@, cmark_gfm_spans(n.content@), old, new), refs_to(n.content@, old));
            assert(edit_targets(rest.push(x)) =~= edit_targets(rest).push((x.0, x.2)));
        }
    } else {
        assert(edit_targets(edits_of(notes, old, new)) =~= Seq::<(Seq<char>, nat)>::empty());
    }
}

/// The view of an edit.
pub open spec fn edit_view(e: RevisionEdit) -> (Seq<char>, Seq<char>, nat) {
    (e.rel@, e.new_content@, e.wikilink_count as nat)
}

/// The notes to rewrite when `old_stem` becomes `new_stem`, with their new text.
pub fn revision_edits(notes: &Vec<NoteText>, old_stem: &str, new_stem: &str) -> (r: Vec<RevisionEdit>)
    requires
        texts_fit(notes@),
    ensures
        r@.map_values(|e: RevisionEdit| edit_view(e)) == edits_of(notes@, old_stem@, new_stem@),
{
    let mut out: Vec<RevisionEdit> = Vec::new();
    let mut i: usize = 0;
    proof {
        assert(notes@.take(0) =~= Seq::<NoteText>::empty());
    }
    while i < notes.len()
        invariant
            i <= notes@.len(),
            texts_fit(notes@),
            out@.map_values(|e: RevisionEdit| edit_view(e)) == edits_of(notes@.take(i as int), old_stem@, new_stem@),
        decreases notes@.len() - i,
    {
        assert(notes@.take(i + 1).drop_last() =~= notes@.take(i as int));
        assert(notes@.take(i + 1).last() == notes@[i as int]);
        let c = count_refs(notes[i].content.as_str(), old_stem);
        if c > 0 {
            let t = replace_wikilinks(notes[i].content.as_str(), old_stem, new_stem);
            let ghost prev = out@;
            out.push(RevisionEdit { rel: notes[i].rel.clone(), new_content: t, wikilink_count: c });
            assert(out@.map_values(|e: RevisionEdit| edit_view(e)) =~= prev.map_values(|e: RevisionEdit| edit_view(e)).push(
                edit_view(out@[i as int - (i as int - prev.len())]),
            ));
        }
        i = i + 1;
    }
    assert(notes@.take(notes@.len() as int) =~= notes@);
    out
}

/// The affected-file list of a set of edits.
pub fn edits_affected(edits: &Vec<RevisionEdit>) -> (r: Vec<AffectedFile>)
    ensures
        r@.len() == edits@.len(),
        forall|i: int| 0 <= i < r@.len() ==> (#[trigger] r@[i]).path@ == edits@[i].rel@
            && r@[i].wikilink_count == edits@[i].wikilink_count,
{
    let mut out: Vec<AffectedFile> = Vec::new();
    let mut i: usize = 0;
    while i < edits.len()
        invariant
            i <= edits@.len(),
            out@.len() == i,
            forall|j: int| 0 <= j < i ==> (#[trigger] out@[j]).path@ == edits@[j].rel@
                && out@[j].wikilink_count == edits@[j].wikilink_count,
        decreases edits@.len() - i,
    {
        out.push(AffectedFile { path: edits[i].rel.clone(), wikilink_count: edits[i].wikilink_count });
        i = i + 1;
    }
    out
}

/// A revision never replaces an existing note: the "already exists" error
/// for the target path.
pub fn target_exists_error(new_rel: &str) -> (e: CoreError)
    ensures
        e matches CoreError::Io { already_exists, message } && already_exists
            && message@ == "Target already exists: "@ + new_rel@,
{
    let mut m = chars_of("Target already exists: ");
    push_str(&mut m, new_rel);
    CoreError::Io { already_exists: true, message: string_from_chars(&m) }
}

/// After a crash, the source note is moved back only when it was already moved:
/// the new path exists and the old one does not.
pub fn rollback_moves_source(new_exists: bool, old_exists: bool) -> (r: bool)
    ensures
        r == (new_exists && !old_exists),
{
    new_exists && !old_exists
}

} // verus!
