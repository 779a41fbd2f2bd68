//! Character-sequence helpers shared by the other modules.
//!
//! Strings are handled as `Vec<char>` inside the library; `String` values are
//! produced at the boundary through [`string_from_chars`].

use vstd::prelude::*;

verus! {

/// Collect the characters of `s` in order.
pub fn chars_of(s: &str) -> (r: Vec<char>)
    ensures
        r@ == s@,
{
    broadcast use vstd::string::group_string_axioms;
    let mut out: Vec<char> = Vec::new();
    for c in it: s.chars()
        invariant
            out@ == s@.take(it.index()),
            it.seq() == s@,
    {
        out.push(c);
    }
    out
}

/// Build a `String` from a sequence of characters (`FromIterator<char>`).
#[verifier::external_body]
pub(crate) fn string_from_chars(v: &Vec<char>) -> (r: String)
    ensures
        r@ == v@,
{
    v.iter().collect()
}

/// Convert a `&str` into an owned `String` with the same characters.
pub fn owned(s: &str) -> (r: String)
    ensures
        r@ == s@,
{
    let v = chars_of(s);
    string_from_chars(&v)
}

/// Append every character of `src` to `dst`.
pub fn push_all(dst: &mut Vec<char>, src: &Vec<char>)
    ensures
        final(dst)@ == old(dst)@ + src@,
{
    let mut i: usize = 0;
    while i < src.len()
        invariant
            i <= src.len(),
            dst@ == old(dst)@ + src@.take(i as int),
        decreases src.len() - i,
    {
        assert(src@.take(i as int + 1) == src@.take(i as int).push(src@[i as int]));
        dst.push(src[i]);
        i = i + 1;
    }
    assert(src@.take(src.len() as int) == src@);
}

/// Append every character of `src` to `dst`.
pub fn push_str(dst: &mut Vec<char>, src: &str)
    ensures
        final(dst)@ == old(dst)@ + src@,
{
    let v = chars_of(src);
    push_all(dst, &v);
}

/// Copy of the characters `v[from..to]`.
pub fn slice_chars(v: &Vec<char>, from: usize, to: usize) -> (r: Vec<char>)
    requires
        from <= to <= v.len(),
    ensures
        r@ == v@.subrange(from as int, to as int),
{
    let mut out: Vec<char> = Vec::new();
    let mut i: usize = from;
    while i < to
        invariant
            from <= i <= to <= v.len(),
            out@ == v@.subrange(from as int, i as int),
        decreases to - i,
    {
        out.push(v[i]);
        i = i + 1;
    }
    out
}

/// Character-wise equality of two sequences.
pub fn chars_eq(a: &Vec<char>, b: &Vec<char>) -> (r: bool)
    ensures
        r == (a@ == b@),
{
    if a.len() != b.len() {
        return false;
    }
    let mut i: usize = 0;
    while i < a.len()
        invariant
            i <= a.len() == b.len(),
            forall|k: int| 0 <= k < i ==> a@[k] == b@[k],
        decreases a.len() - i,
    {
        if a[i] != b[i] {
            return false;
        }
        i = i + 1;
    }
    assert(a@ =~= b@);
    true
}

/// Whether the characters of `s` equal those of the literal `lit`.
pub fn str_eq(s: &Vec<char>, lit: &str) -> (r: bool)
    ensures
        r == (s@ == lit@),
{
    let l = chars_of(lit);
    chars_eq(s, &l)
}

/// `true` when `v[at..]` starts with `pat`.
pub open spec fn has_at(v: Seq<char>, at: int, pat: Seq<char>) -> bool {
    0 <= at && at + pat.len() <= v.len() && v.subrange(at, at + pat.len()) == pat
}

/// Whether `pat` occurs in `v` at position `at`.
pub fn matches_at(v: &Vec<char>, at: usize, pat: &Vec<char>) -> (r: bool)
    ensures
        r == has_at(v@, at as int, pat@),
{
    if at > v.len() || pat.len() > v.len() - at {
        return false;
    }
    let mut i: usize = 0;
    while i < pat.len()
        invariant
            at + pat.len() <= v.len(),
            i <= pat.len(),
            forall|k: int| 0 <= k < i ==> v@[at + k] == pat@[k],
        decreases pat.len() - i,
    {
        if v[at + i] != pat[i] {
            assert(v@.subrange(at as int, at + pat.len())[i as int] != pat@[i as int]);
            return false;
        }
        i = i + 1;
    }
    assert(v@.subrange(at as int, at + pat.len()) =~= pat@);
    true
}

/// `true` when `pat` occurs anywhere in `v`.
pub open spec fn contains_seq(v: Seq<char>, pat: Seq<char>) -> bool {
    exists|at: int| #[trigger] has_at(v, at, pat)
}

/// Whether `pat` occurs anywhere in `v`.
pub fn contains_chars(v: &Vec<char>, pat: &Vec<char>) -> (r: bool)
    ensures
        r == contains_seq(v@, pat@),
{
    if pat.len() > v.len() {
        assert forall|at: int| !has_at(v@, at, pat@) by {}
        return false;
    }
    if pat.len() == 0 {
        assert(v@.subrange(0, 0) =~= pat@);
        assert(has_at(v@, 0, pat@));
        return true;
    }
    let last: usize = v.len() - pat.len();
    let mut at: usize = 0;
    while at <= last
        invariant
            0 < pat.len() <= v.len(),
            last == v.len() - pat.len(),
            at <= last + 1,
            forall|k: int| 0 <= k < at ==> !has_at(v@, k, pat@),
        decreases last + 1 - at,
    {
        if matches_at(v, at, pat) {
            return true;
        }
        at = at + 1;
    }
    assert forall|k: int| !has_at(v@, k, pat@) by {}
    false
}

/// The uppercase hexadecimal digit for `d < 16`.
pub open spec fn hex_char(d: nat) -> char {
    if d < 10 {
        ((d + 48) as u8) as char
    } else {
        ((d + 55) as u8) as char
    }
}

/// Uppercase hexadecimal digits of `n`, most significant first, no padding.
pub open spec fn hex_digits(n: nat) -> Seq<char>
    decreases n,
{
    if n < 16 {
        seq![hex_char(n)]
    } else {
        hex_digits(n / 16).push(hex_char(n % 16))
    }
}

/// Decimal digits of `n`, most significant first, no padding.
pub open spec fn dec_digits(n: nat) -> Seq<char>
    decreases n,
{
    if n < 10 {
        seq![hex_char(n)]
    } else {
        dec_digits(n / 10).push(hex_char(n % 10))
    }
}

/// `digits` left-padded with `'0'` to at least `width` characters.
pub open spec fn zero_pad(digits: Seq<char>, width: nat) -> Seq<char> {
    if digits.len() >= width {
        digits
    } else {
        Seq::new((width - digits.len()) as nat, |i: int| '0') + digits
    }
}

fn digit_char(d: u64) -> (c: char)
    requires
        d < 16,
    ensures
        c == hex_char(d as nat),
{
    if d < 10 {
        ((d + 48) as u8) as char
    } else {
        ((d + 55) as u8) as char
    }
}

/// Digits of `n` in base `base` (10 or 16), most significant first.
fn digits_in_base(n: u64, base: u64) -> (r: Vec<char>)
    requires
        base == 10 || base == 16,
    ensures
        base == 10 ==> r@ == dec_digits(n as nat),
        base == 16 ==> r@ == hex_digits(n as nat),
    decreases n,
{
    if base == 10 {
        if n < 10 {
            let mut v: Vec<char> = Vec::new();
            v.push(digit_char(n));
            v
        } else {
            let mut v = digits_in_base(n / 10, base);
            v.push(digit_char(n % 10));
            v
        }
    } else {
        if n < 16 {
            let mut v: Vec<char> = Vec::new();
            v.push(digit_char(n));
            v
        } else {
            let mut v = digits_in_base(n / 16, base);
            v.push(digit_char(n % 16));
            v
        }
    }
}

/// The lowercase hexadecimal digit for `d < 16`.
pub open spec fn lower_hex_char(d: nat) -> char {
    if d < 10 {
        ((d + 48) as u8) as char
    } else {
        ((d + 87) as u8) as char
    }
}

/// Lowercase hexadecimal digits of `n` (as `format!("{n:x}")` prints it).
pub open spec fn lower_hex_digits(n: nat) -> Seq<char>
    decreases n,
{
    if n < 16 {
        seq![lower_hex_char(n)]
    } else {
        lower_hex_digits(n / 16).push(lower_hex_char(n % 16))
    }
}

/// Lowercase hexadecimal representation of `n`.
pub fn lower_hex_chars(n: u64) -> (r: Vec<char>)
    ensures
        r@ == lower_hex_digits(n as nat),
    decreases n,
{
    let d = n % 16;
    let c: char = if d < 10 { ((d + 48) as u8) as char } else { ((d + 87) as u8) as char };
    if n < 16 {
        let mut v: Vec<char> = Vec::new();
        v.push(c);
        v
    } else {
        let mut v = lower_hex_chars(n / 16);
        v.push(c);
        v
    }
}

/// Decimal representation of `n` (as `format!("{n}")` prints it).
pub fn decimal_chars(n: u64) -> (r: Vec<char>)
    ensures
        r@ == dec_digits(n as nat),
{
    digits_in_base(n, 10)
}

/// Uppercase hexadecimal representation of `n`, zero-padded to `width`
/// (as `format!("{n:0width$X}")` prints it).
pub fn hex_chars_padded(n: u64, width: usize) -> (r: Vec<char>)
    ensures
        r@ == zero_pad(hex_digits(n as nat), width as nat),
{
    let digits = digits_in_base(n, 16);
    if digits.len() >= width {
        return digits;
    }
    let mut out: Vec<char> = Vec::new();
    let pad: usize = width - digits.len();
    let mut i: usize = 0;
    while i < pad
        invariant
            i <= pad,
            out@ == Seq::new(i as nat, |k: int| '0'),
        decreases pad - i,
    {
        out.push('0');
        i = i + 1;
        assert(out@ =~= Seq::new(i as nat, |k: int| '0'));
    }
    push_all(&mut out, &digits);
    out
}

/// Decimal representation of `n`, zero-padded to `width`.
pub fn decimal_chars_padded(n: u64, width: usize) -> (r: Vec<char>)
    ensures
        r@ == zero_pad(dec_digits(n as nat), width as nat),
{
    let digits = digits_in_base(n, 10);
    if digits.len() >= width {
        return digits;
    }
    let mut out: Vec<char> = Vec::new();
    let pad: usize = width - digits.len();
    let mut i: usize = 0;
    while i < pad
        invariant
            i <= pad,
            out@ == Seq::new(i as nat, |k: int| '0'),
        decreases pad - i,
    {
        out.push('0');
        i = i + 1;
        assert(out@ =~= Seq::new(i as nat, |k: int| '0'));
    }
    push_all(&mut out, &digits);
    out
}

} // verus!

verus! {

/// Unicode `White_Space` property (the set `char::is_whitespace` tests).
pub open spec fn is_ws(c: char) -> bool {
    let cp = c as u32;
    ||| 0x09 <= cp <= 0x0D
    ||| cp == 0x20
    ||| cp == 0x85
    ||| cp == 0xA0
    ||| cp == 0x1680
    ||| 0x2000 <= cp <= 0x200A
    ||| cp == 0x2028
    ||| cp == 0x2029
    ||| cp == 0x202F
    ||| cp == 0x205F
    ||| cp == 0x3000
}

/// Whether `c` is a Unicode white-space character.
pub fn is_whitespace(c: char) -> (r: bool)
    ensures
        r == is_ws(c),
{
    let cp: u32 = c as u32;
    (0x09 <= cp && cp <= 0x0D) || cp == 0x20 || cp == 0x85 || cp == 0xA0 || cp == 0x1680
        || (0x2000 <= cp && cp <= 0x200A) || cp == 0x2028 || cp == 0x2029 || cp == 0x202F
        || cp == 0x205F || cp == 0x3000
}

/// Index of the first non-white-space character at or after `i` (or the end).
pub open spec fn skip_ws(s: Seq<char>, i: int) -> int
    decreases s.len() - i,
{
    if i < 0 || i >= s.len() || !is_ws(s[i]) {
        i
    } else {
        skip_ws(s, i + 1)
    }
}

/// Index just after the last non-white-space character before `j` (or 0).
pub open spec fn back_ws(s: Seq<char>, j: int) -> int
    decreases j,
{
    if j <= 0 || j > s.len() || !is_ws(s[j - 1]) {
        j
    } else {
        back_ws(s, j - 1)
    }
}

/// `s` without leading and trailing white space (as `str::trim`).
pub open spec fn trim(s: Seq<char>) -> Seq<char> {
    let a = skip_ws(s, 0);
    let b = back_ws(s, s.len() as int);
    if a >= b {
        Seq::empty()
    } else {
        s.subrange(a, b)
    }
}

proof fn lemma_back_ws_le(s: Seq<char>, j: int)
    ensures
        back_ws(s, j) <= j,
    decreases j,
{
    if j > 0 && j <= s.len() && is_ws(s[j - 1]) {
        lemma_back_ws_le(s, j - 1);
    }
}

/// Bounds `(a, b)` of the trimmed part of `v[from..to]`.
pub fn trim_bounds(v: &Vec<char>, from: usize, to: usize) -> (r: (usize, usize))
    requires
        from <= to <= v.len(),
    ensures
        from <= r.0 <= r.1 <= to,
        v@.subrange(r.0 as int, r.1 as int) == trim(v@.subrange(from as int, to as int)),
{
    let ghost sub = v@.subrange(from as int, to as int);
    let mut a: usize = from;
    while a < to && is_whitespace(v[a])
        invariant
            from <= a <= to <= v.len(),
            sub == v@.subrange(from as int, to as int),
            skip_ws(sub, (a - from) as int) == skip_ws(sub, 0),
        decreases to - a,
    {
        a = a + 1;
    }
    let mut b: usize = to;
    while b > a && is_whitespace(v[b - 1])
        invariant
            from <= a <= b <= to <= v.len(),
            sub == v@.subrange(from as int, to as int),
            back_ws(sub, (b - from) as int) == back_ws(sub, sub.len() as int),
            a < to ==> !is_ws(v@[a as int]),
        decreases b,
    {
        b = b - 1;
    }
    proof {
        let sa = skip_ws(sub, 0);
        let sb = back_ws(sub, sub.len() as int);
        assert(sa == a - from);
        if b > a {
            assert(sb == b - from);
            assert(v@.subrange(a as int, b as int) =~= sub.subrange(sa, sb));
        } else {
            lemma_back_ws_le(sub, (b - from) as int);
            assert(v@.subrange(a as int, b as int) =~= Seq::<char>::empty());
        }
    }
    (a, b)
}

/// Number of UTF-8 bytes that encode `c` (as `char::len_utf8`).
pub open spec fn utf8_width(c: char) -> int {
    let cp = c as u32;
    if cp < 0x80 {
        1
    } else if cp < 0x800 {
        2
    } else if cp < 0x10000 {
        3
    } else {
        4
    }
}

/// Number of UTF-8 bytes that encode `s`.
pub open spec fn byte_len(s: Seq<char>) -> int
    decreases s.len(),
{
    if s.len() == 0 {
        0
    } else {
        byte_len(s.drop_last()) + utf8_width(s.last())
    }
}

/// Byte offset of character position `i` in `s`.
pub open spec fn byte_offset(s: Seq<char>, i: int) -> int {
    byte_len(s.take(i))
}

/// Width of `c` in UTF-8.
pub fn char_width(c: char) -> (r: usize)
    ensures
        r == utf8_width(c),
{
    let cp: u32 = c as u32;
    if cp < 0x80 {
        1
    } else if cp < 0x800 {
        2
    } else if cp < 0x10000 {
        3
    } else {
        4
    }
}

} // verus!

verus! {

proof fn lemma_encode_push(s: Seq<char>, c: char)
    ensures
        vstd::utf8::encode_utf8(s.push(c)) == vstd::utf8::encode_utf8(s)
            + vstd::utf8::encode_scalar(c as u32),
    decreases s.len(),
{
    if s.len() == 0 {
        assert(s.push(c).drop_first() =~= Seq::<char>::empty());
        assert(vstd::utf8::encode_utf8(Seq::<char>::empty()) =~= Seq::<u8>::empty());
        assert(vstd::utf8::encode_utf8(s) =~= Seq::<u8>::empty());
        assert(vstd::utf8::encode_utf8(s.push(c)) =~= vstd::utf8::encode_scalar(c as u32) + Seq::<u8>::empty());
    } else {
        lemma_encode_push(s.drop_first(), c);
        assert(s.push(c).drop_first() =~= s.drop_first().push(c));
        assert(s.push(c)[0] == s[0]);
        assert(vstd::utf8::encode_utf8(s.push(c)) =~= vstd::utf8::encode_scalar(s[0] as u32)
            + (vstd::utf8::encode_utf8(s.drop_first()) + vstd::utf8::encode_scalar(c as u32)));
    }
}

/// The UTF-8 width of a character is the length of its encoding.
pub proof fn lemma_width_encode(c: char)
    ensures
        vstd::utf8::encode_scalar(c as u32).len() == utf8_width(c),
        1 <= utf8_width(c) <= 4,
{
    broadcast use vstd::utf8::char_is_scalar;
    assert(vstd::utf8::is_scalar(c as u32));
}

/// `byte_len` counts the bytes of the UTF-8 encoding (so `str::len`).
pub proof fn lemma_byte_len_encode(s: Seq<char>)
    ensures
        byte_len(s) == vstd::utf8::encode_utf8(s).len(),
        byte_len(s) >= s.len(),
    decreases s.len(),
{
    if s.len() > 0 {
        lemma_byte_len_encode(s.drop_last());
        lemma_encode_push(s.drop_last(), s.last());
        assert(s.drop_last().push(s.last()) =~= s);
        lemma_width_encode(s.last());
    }
}

/// One more character adds its width to the byte offset.
pub proof fn lemma_byte_offset_step(s: Seq<char>, k: int)
    requires
        0 <= k < s.len(),
    ensures
        byte_offset(s, k + 1) == byte_offset(s, k) + utf8_width(s[k]),
{
    assert(s.take(k + 1).drop_last() =~= s.take(k));
    assert(s.take(k + 1).last() == s[k]);
}

/// Byte offsets grow by at least one byte per character, up to the total.
pub proof fn lemma_byte_offset_bounds(s: Seq<char>, k: int)
    requires
        0 <= k <= s.len(),
    ensures
        byte_offset(s, k) + (s.len() - k) <= byte_len(s),
        byte_offset(s, k) >= k,
    decreases s.len() - k,
{
    if k < s.len() {
        lemma_byte_offset_bounds(s, k + 1);
        lemma_byte_offset_step(s, k);
        lemma_width_encode(s[k]);
        lemma_byte_len_encode(s.take(k));
    } else {
        assert(s.take(k) =~= s);
        lemma_byte_len_encode(s);
    }
}

/// Number of bytes of `s` (its UTF-8 length).
pub fn str_byte_len(s: &str) -> (r: usize)
    ensures
        r == byte_len(s@),
{
    proof {
        lemma_byte_len_encode(s@);
    }
    let b: &[u8] = s.as_bytes();
    b.len()
}

// ── Case folding ─────────────────────────────────────────────────────────────

/// What `str::to_lowercase` gives for the characters `s` (full Unicode case mapping).
pub uninterp spec fn unicode_lowercase(s: Seq<char>) -> Seq<char>;

/// `str::to_lowercase`.
#[verifier::external_body]
pub(crate) fn lowercase(s: &str) -> (r: String)
    ensures
        r@ == unicode_lowercase(s@),
{
    s.to_lowercase()
}

/// ASCII case folding of one character (as `char::to_ascii_lowercase`).
pub open spec fn ascii_fold(c: char) -> char {
    if 'A' <= c && c <= 'Z' {
        ((c as u32) + 32) as char
    } else {
        c
    }
}

/// `a.eq_ignore_ascii_case(b)`.
pub open spec fn ascii_ci_eq(a: Seq<char>, b: Seq<char>) -> bool {
    a.len() == b.len() && forall|i: int| 0 <= i < a.len() ==> ascii_fold(#[trigger] a[i]) == ascii_fold(b[i])
}

pub fn fold_char(c: char) -> (r: char)
    ensures
        r == ascii_fold(c),
{
    if 'A' <= c && c <= 'Z' {
        char_from_ascii_upper(c)
    } else {
        c
    }
}

fn char_from_ascii_upper(c: char) -> (r: char)
    requires
        'A' <= c && c <= 'Z',
    ensures
        r == ((c as u32) + 32) as char,
{
    let u: u32 = c as u32;
    let l: u8 = (u + 32) as u8;
    l as char
}

pub fn ascii_ci_equal(a: &Vec<char>, b: &Vec<char>) -> (r: bool)
    ensures
        r == ascii_ci_eq(a@, b@),
{
    if a.len() != b.len() {
        return false;
    }
    let mut i: usize = 0;
    while i < a.len()
        invariant
            i <= a.len() == b.len(),
            forall|k: int| 0 <= k < i ==> ascii_fold(#[trigger] a@[k]) == ascii_fold(b@[k]),
        decreases a.len() - i,
    {
        if fold_char(a[i]) != fold_char(b[i]) {
            return false;
        }
        i = i + 1;
    }
    true
}

// ── Prefixes, suffixes, slices ───────────────────────────────────────────────

/// `v` begins with `pat`.
pub open spec fn starts_with(v: Seq<char>, pat: Seq<char>) -> bool {
    has_at(v, 0, pat)
}

/// `v` ends with `pat`.
pub open spec fn ends_with(v: Seq<char>, pat: Seq<char>) -> bool {
    pat.len() <= v.len() && has_at(v, v.len() - pat.len(), pat)
}

/// Whether `v` begins with the characters of `lit`.
pub fn starts_with_lit(v: &Vec<char>, lit: &str) -> (r: bool)
    ensures
        r == starts_with(v@, lit@),
{
    let p = chars_of(lit);
    matches_at(v, 0, &p)
}

/// Whether `v` ends with the characters of `lit`.
pub fn ends_with_lit(v: &Vec<char>, lit: &str) -> (r: bool)
    ensures
        r == ends_with(v@, lit@),
{
    let p = chars_of(lit);
    if p.len() > v.len() {
        return false;
    }
    matches_at(v, v.len() - p.len(), &p)
}

/// `v` with surrounding white space removed, as a new vector.
pub fn trimmed(v: &Vec<char>) -> (r: Vec<char>)
    ensures
        r@ == trim(v@),
{
    let (a, b) = trim_bounds(v, 0, v.len());
    assert(v@.subrange(0, v@.len() as int) =~= v@);
    slice_chars(v, a, b)
}

/// A copy of `o`.
pub fn clone_opt(o: &Option<String>) -> (r: Option<String>)
    ensures
        r == *o,
{
    match o {
        Some(s) => Some(s.clone()),
        None => None,
    }
}

// ── Splitting ────────────────────────────────────────────────────────────────

/// `s` split at every `c` (as `str::split(c)`): always at least one part.
pub open spec fn split_char(s: Seq<char>, c: char) -> Seq<Seq<char>>
    decreases s.len(),
{
    if s.len() == 0 {
        seq![Seq::<char>::empty()]
    } else {
        let rest = split_char(s.drop_last(), c);
        if s.last() == c {
            rest.push(Seq::<char>::empty())
        } else {
            rest.update(rest.len() - 1, rest.last().push(s.last()))
        }
    }
}

/// Splitting always yields at least one part.
pub proof fn lemma_split_nonempty(s: Seq<char>, c: char)
    ensures
        split_char(s, c).len() >= 1,
    decreases s.len(),
{
    if s.len() > 0 {
        lemma_split_nonempty(s.drop_last(), c);
    }
}

/// Splitting text without `c` gives the text itself.
pub proof fn lemma_split_without_separator(n: Seq<char>, c: char)
    requires
        forall|i: int| 0 <= i < n.len() ==> n[i] != c,
    ensures
        split_char(n, c) == seq![n],
    decreases n.len(),
{
    if n.len() > 0 {
        lemma_split_without_separator(n.drop_last(), c);
        assert(n.drop_last().push(n.last()) =~= n);
        assert(n.last() != c);
        let rest = split_char(n.drop_last(), c);
        assert(rest == seq![n.drop_last()]);
        assert(rest.last() == n.drop_last());
        assert(split_char(n, c) == rest.update(rest.len() - 1, rest.last().push(n.last())));
        assert(rest.update(0, n) =~= seq![n]);
    } else {
        assert(n =~= Seq::<char>::empty());
    }
}

proof fn lemma_split_after_separator_upto(q: Seq<char>, c: char, n: Seq<char>, k: nat)
    requires
        q.len() > 0,
        q.last() == c,
        forall|i: int| 0 <= i < n.len() ==> n[i] != c,
        k <= n.len(),
    ensures
        split_char(q + n.take(k as int), c) == split_char(q, c).update(split_char(q, c).len() - 1, n.take(k as int)),
    decreases k,
{
    let sq = split_char(q, c);
    lemma_split_nonempty(q.drop_last(), c);
    assert(sq == split_char(q.drop_last(), c).push(Seq::<char>::empty()));
    if k == 0 {
        assert(q + n.take(0) =~= q);
        assert(n.take(0) =~= Seq::<char>::empty());
        assert(sq[sq.len() - 1] == Seq::<char>::empty());
        assert(sq.update(sq.len() - 1, n.take(0)) =~= sq);
    } else {
        lemma_split_after_separator_upto(q, c, n, (k - 1) as nat);
        let t = q + n.take(k as int);
        assert(t.drop_last() =~= q + n.take(k - 1));
        assert(t.last() == n[k - 1]);
        let rest = split_char(t.drop_last(), c);
        assert(rest == sq.update(sq.len() - 1, n.take(k - 1)));
        assert(rest.last() == n.take(k - 1));
        assert(n.take(k - 1).push(n[k - 1]) =~= n.take(k as int));
        assert(split_char(t, c) == rest.update(rest.len() - 1, rest.last().push(t.last())));
        assert(rest.update(rest.len() - 1, n.take(k as int)) =~= sq.update(sq.len() - 1, n.take(k as int)));
    }
}

/// Text without `c` appended right after a `c` becomes the last part.
pub proof fn lemma_split_after_separator(q: Seq<char>, c: char, n: Seq<char>)
    requires
        q.len() > 0,
        q.last() == c,
        forall|i: int| 0 <= i < n.len() ==> n[i] != c,
    ensures
        split_char(q + n, c) == split_char(q, c).update(split_char(q, c).len() - 1, n),
        split_char(q, c).len() >= 2,
{
    lemma_split_after_separator_upto(q, c, n, n.len());
    assert(n.take(n.len() as int) =~= n);
    lemma_split_nonempty(q.drop_last(), c);
    assert(split_char(q, c) == split_char(q.drop_last(), c).push(Seq::<char>::empty()));
}

/// Split `v` at every `c`.
pub fn split_chars(v: &Vec<char>, c: char) -> (r: Vec<Vec<char>>)
    ensures
        r@.len() == split_char(v@, c).len(),
        forall|k: int| 0 <= k < r@.len() ==> (#[trigger] r@[k])@ == split_char(v@, c)[k],
{
    let mut done: Vec<Vec<char>> = Vec::new();
    let mut cur: Vec<char> = Vec::new();
    let mut i: usize = 0;
    proof {
        assert(v@.take(0) =~= Seq::<char>::empty());
    }
    while i < v.len()
        invariant
            i <= v.len(),
            done@.len() + 1 == split_char(v@.take(i as int), c).len(),
            forall|k: int| 0 <= k < done@.len() ==> (#[trigger] done@[k])@ == split_char(v@.take(i as int), c)[k],
            cur@ == split_char(v@.take(i as int), c).last(),
        decreases v.len() - i,
    {
        let ch = v[i];
        assert(v@.take(i as int + 1).drop_last() =~= v@.take(i as int));
        if ch == c {
            done.push(cur);
            cur = Vec::new();
        } else {
            cur.push(ch);
        }
        i = i + 1;
    }
    assert(v@.take(v.len() as int) =~= v@);
    proof { lemma_split_nonempty(v@, c); }
    done.push(cur);
    done
}

} // verus!
