//! Regular expressions, through the `regex` crate, and the helpers that turn
//! its byte offsets into character positions.

use vstd::prelude::*;
use crate::text::{
    byte_offset, char_width, chars_of, lemma_byte_offset_step, lemma_width_encode, string_from_chars, utf8_width,
};

verus! {

/// The compiled regular expression type of the `regex` crate.
#[verifier::external_type_specification]
#[verifier::external_body]
pub struct ExRegex(regex::Regex);

/// A regular expression together with the pattern text it was compiled from.
/// Built only by [`compile`].
pub struct CompiledRegex {
    re: regex::Regex,
    source: String,
}

impl CompiledRegex {
    /// The pattern text.
    pub closed spec fn pattern(&self) -> Seq<char> {
        self.source@
    }
}

/// The message of the error `regex::Regex::new` gives for `pattern`, or `None`
/// when the pattern compiles.
pub uninterp spec fn regex_compile_error(pattern: Seq<char>) -> Option<Seq<char>>;

/// Whether the regex compiled from `pattern` matches somewhere in `text`
/// (`regex::Regex::is_match`).
pub uninterp spec fn regex_matches(pattern: Seq<char>, text: Seq<char>) -> bool;

/// The byte spans of the capture groups of the leftmost-first match of
/// `pattern` in `text` (`regex::Regex::captures`); group 0 is the whole match.
pub uninterp spec fn regex_captures(pattern: Seq<char>, text: Seq<char>) -> Option<Seq<Option<(int, int)>>>;

/// `regex::Regex::new`: the compiled regex, or the text of the compile error.
#[verifier::external_body]
fn regex_new(pattern: &str) -> (r: Result<regex::Regex, String>)
    ensures
        match r {
            Ok(_) => regex_compile_error(pattern@) is None,
            Err(m) => regex_compile_error(pattern@) == Some(m@),
        },
{
    regex::Regex::new(pattern).map_err(|e| e.to_string())
}

/// Compile `pattern`; the error is the compiler's message.
pub fn compile(pattern: &str) -> (r: Result<CompiledRegex, String>)
    ensures
        match r {
            Ok(c) => regex_compile_error(pattern@) is None && c.pattern() == pattern@,
            Err(m) => regex_compile_error(pattern@) == Some(m@),
        },
{
    match regex_new(pattern) {
        Ok(re) => Ok(CompiledRegex { re, source: crate::text::owned(pattern) }),
        Err(m) => Err(m),
    }
}

/// `regex::Regex::is_match` on the compiled pattern.
#[verifier::external_body]
pub(crate) fn is_match(re: &CompiledRegex, text: &str) -> (r: bool)
    ensures
        r == regex_matches(re.pattern(), text@),
{
    re.re.is_match(text)
}

/// The spans of `captures` as plain integers.
pub open spec fn spans_view(v: Seq<Option<(usize, usize)>>) -> Seq<Option<(int, int)>> {
    Seq::new(
        v.len(),
        |i: int|
            match v[i] {
                Some((s, e)) => Some((s as int, e as int)),
                None => None,
            },
    )
}

/// `regex::Regex::captures` on the compiled pattern, as byte spans per group.
#[verifier::external_body]
pub(crate) fn captures(re: &CompiledRegex, text: &str) -> (r: Option<Vec<Option<(usize, usize)>>>)
    ensures
        match r {
            Some(v) => regex_captures(re.pattern(), text@) == Some(spans_view(v@)),
            None => regex_captures(re.pattern(), text@) is None,
        },
{
    re.re.captures(text).map(|c| c.iter().map(|m| m.map(|m| (m.start(), m.end()))).collect())
}

/// A regex metacharacter, which `regex::escape` prefixes with `\`.
pub open spec fn is_meta_character(c: char) -> bool {
    c == '\\' || c == '.' || c == '+' || c == '*' || c == '?' || c == '(' || c == ')' || c == '|'
        || c == '[' || c == ']' || c == '{' || c == '}' || c == '^' || c == '$' || c == '#' || c
        == '&' || c == '-' || c == '~'
}

/// `s` with every metacharacter preceded by `\`.
pub open spec fn escaped(s: Seq<char>) -> Seq<char>
    decreases s.len(),
{
    if s.len() == 0 {
        Seq::empty()
    } else {
        let c = s.last();
        escaped(s.drop_last()) + if is_meta_character(c) { seq!['\\', c] } else { seq![c] }
    }
}

fn is_meta(c: char) -> (r: bool)
    ensures
        r == is_meta_character(c),
{
    c == '\\' || c == '.' || c == '+' || c == '*' || c == '?' || c == '(' || c == ')' || c == '|'
        || c == '[' || c == ']' || c == '{' || c == '}' || c == '^' || c == '$' || c == '#' || c
        == '&' || c == '-' || c == '~'
}

/// A pattern that matches `text` literally, as `regex::escape` writes it:
/// every metacharacter preceded by `\`.
pub fn escape(text: &str) -> (r: String)
    ensures
        r@ == escaped(text@),
{
    let v = chars_of(text);
    let mut out: Vec<char> = Vec::new();
    let mut i: usize = 0;
    proof {
        assert(v@.take(0) =~= Seq::<char>::empty());
    }
    while i < v.len()
        invariant
            i <= v@.len(),
            v@ == text@,
            out@ == escaped(v@.take(i as int)),
        decreases v@.len() - i,
    {
        assert(v@.take(i + 1).drop_last() =~= v@.take(i as int));
        assert(v@.take(i + 1).last() == v@[i as int]);
        let c = v[i];
        let ghost before = out@;
        if is_meta(c) {
            out.push('\\');
            out.push(c);
            assert(out@ =~= before + seq!['\\', c]);
        } else {
            out.push(c);
            assert(out@ =~= before + seq![c]);
        }
        i = i + 1;
    }
    assert(v@.take(v@.len() as int) =~= v@);
    string_from_chars(&out)
}

// ── Byte offsets ─────────────────────────────────────────────────────────────

/// Byte offsets never decrease along the characters.
pub proof fn lemma_byte_offset_mono(s: Seq<char>, i: int, j: int)
    requires
        0 <= i <= j <= s.len(),
    ensures
        byte_offset(s, i) + (j - i) <= byte_offset(s, j),
    decreases j - i,
{
    if i < j {
        lemma_byte_offset_mono(s, i, j - 1);
        lemma_byte_offset_step(s, j - 1);
        lemma_width_encode(s[j - 1]);
    }
}

/// The character position whose byte offset in `v` is `b`, if there is one.
pub fn char_index_at_byte(v: &Vec<char>, b: usize) -> (r: Option<usize>)
    ensures
        match r {
            Some(i) => i <= v@.len() && byte_offset(v@, i as int) == b,
            None => forall|i: int| 0 <= i <= v@.len() ==> byte_offset(v@, i) != b,
        },
{
    let mut i: usize = 0;
    let mut acc: usize = 0;
    proof {
        assert(v@.take(0) =~= Seq::<char>::empty());
    }
    while i < v.len()
        invariant
            i <= v@.len(),
            acc == byte_offset(v@, i as int),
            acc <= b,
            forall|j: int| 0 <= j < i ==> byte_offset(v@, j) < acc,
        decreases v@.len() - i,
    {
        if acc == b {
            return Some(i);
        }
        let w = char_width(v[i]);
        proof {
            lemma_byte_offset_step(v@, i as int);
        }
        if w > b - acc {
            proof {
                assert forall|j: int| 0 <= j <= v@.len() implies byte_offset(v@, j) != b by {
                    if j > i {
                        lemma_byte_offset_mono(v@, i as int + 1, j);
                    }
                }
            }
            return None;
        }
        acc = acc + w;
        proof {
            lemma_width_encode(v@[i as int]);
        }
        i = i + 1;
    }
    if acc == b {
        return Some(i);
    }
    None
}

/// Distinct character positions have distinct byte offsets.
pub proof fn lemma_byte_offset_injective(s: Seq<char>, i: int, j: int)
    requires
        0 <= i <= s.len(),
        0 <= j <= s.len(),
        byte_offset(s, i) == byte_offset(s, j),
    ensures
        i == j,
{
    if i < j {
        lemma_byte_offset_mono(s, i, j);
    } else if j < i {
        lemma_byte_offset_mono(s, j, i);
    }
}

/// The character position at byte offset `b` of `text`, if `b` is a boundary.
pub open spec fn char_pos(text: Seq<char>, b: int) -> Option<int> {
    if exists|i: int| 0 <= i <= text.len() && #[trigger] byte_offset(text, i) == b {
        Some(choose|i: int| 0 <= i <= text.len() && #[trigger] byte_offset(text, i) == b)
    } else {
        None
    }
}

/// The text of a byte span of `text`, when both ends are character boundaries.
pub open spec fn span_text(text: Seq<char>, span: Option<(int, int)>) -> Option<Seq<char>> {
    match span {
        Some((s, e)) => match (char_pos(text, s), char_pos(text, e)) {
            (Some(i), Some(j)) => if i <= j { Some(text.subrange(i, j)) } else { None },
            _ => None,
        },
        None => None,
    }
}

/// The view of an optional capture list.
pub open spec fn caps_view(c: Option<Vec<Option<(usize, usize)>>>) -> Option<Seq<Option<(int, int)>>> {
    match c {
        Some(v) => Some(spans_view(v@)),
        None => None,
    }
}

fn char_pos_exec(v: &Vec<char>, b: usize) -> (r: Option<usize>)
    ensures
        match r {
            Some(i) => char_pos(v@, b as int) == Some(i as int),
            None => char_pos(v@, b as int) is None,
        },
{
    let r = char_index_at_byte(v, b);
    match r {
        Some(i) => {
            proof {
                assert(byte_offset(v@, i as int) == b);
                let k = choose|k: int| 0 <= k <= v@.len() && #[trigger] byte_offset(v@, k) == b;
                lemma_byte_offset_injective(v@, i as int, k);
            }
            Some(i)
        },
        None => None,
    }
}

/// [`span_text`] of a byte span of `v`.
pub fn span_chars(v: &Vec<char>, span: Option<(usize, usize)>) -> (r: Option<Vec<char>>)
    ensures
        match r {
            Some(t) => span_text(v@, match span { Some((s, e)) => Some((s as int, e as int)), None => None }) == Some(t@),
            None => span_text(v@, match span { Some((s, e)) => Some((s as int, e as int)), None => None }) is None,
        },
{
    match span {
        Some((s, e)) => {
            let i = char_pos_exec(v, s);
            let j = char_pos_exec(v, e);
            match (i, j) {
                (Some(i), Some(j)) => {
                    if i <= j {
                        Some(crate::text::slice_chars(v, i, j))
                    } else {
                        None
                    }
                },
                _ => None,
            }
        },
        None => None,
    }
}

} // verus!
