//! First-layer invisible-character detection (Unicode tags, NUL, C0 and C1
//! control characters). Detection only: the content is never modified.

use vstd::prelude::*;
use crate::text::{chars_of, hex_chars_padded, hex_digits, push_str, string_from_chars, zero_pad};

verus! {

/// Category of an invisible / unexpected character.
#[derive(Debug, Clone, Copy, PartialEq, Eq, Structural)]
pub enum InvisibleCharCategory {
    /// Unicode Tag block: U+E0000–U+E007F
    UnicodeTag,
    /// Null byte: U+0000
    NullByte,
    /// C0 control characters except Tab (U+0009), LF (U+000A), CR (U+000D)
    C0Control,
    /// C1 control characters: U+0080–U+009F
    C1Control,
}

/// A single invisible-character occurrence in a document.
#[derive(Debug, Clone, PartialEq, Eq, Structural)]
pub struct InvisibleCharFinding {
    /// 1-indexed line number.
    pub line: usize,
    /// 1-indexed character column within the line.
    pub column: usize,
    /// The offending character.
    pub char_value: char,
    /// Which category it belongs to.
    pub category: InvisibleCharCategory,
}

/// The category of `c`, or `None` for characters that may appear in Markdown.
pub open spec fn category_of(c: char) -> Option<InvisibleCharCategory> {
    let cp = c as u32;
    if 0xE0000 <= cp <= 0xE007F {
        Some(InvisibleCharCategory::UnicodeTag)
    } else if cp == 0 {
        Some(InvisibleCharCategory::NullByte)
    } else if 1 <= cp <= 0x1F && cp != 0x09 && cp != 0x0A && cp != 0x0D {
        Some(InvisibleCharCategory::C0Control)
    } else if 0x80 <= cp <= 0x9F {
        Some(InvisibleCharCategory::C1Control)
    } else {
        None
    }
}

/// 1-indexed line of position `i` of `s` (lines are separated by `'\n'`).
pub open spec fn line_at(s: Seq<char>, i: int) -> int
    decreases i,
{
    if i <= 0 {
        1
    } else {
        line_at(s, i - 1) + if s[i - 1] == '\n' { 1int } else { 0int }
    }
}

/// 1-indexed character column of position `i` of `s` within its line.
pub open spec fn column_at(s: Seq<char>, i: int) -> int
    decreases i,
{
    if i <= 0 {
        1
    } else if s[i - 1] == '\n' {
        1
    } else {
        column_at(s, i - 1) + 1
    }
}

/// The finding reported for position `i` of `s`, when `s[i]` is invisible.
pub open spec fn finding_at(s: Seq<char>, i: int, cat: InvisibleCharCategory) -> InvisibleCharFinding {
    InvisibleCharFinding {
        line: line_at(s, i) as usize,
        column: column_at(s, i) as usize,
        char_value: s[i],
        category: cat,
    }
}

/// All findings among the first `n` characters of `s`, in document order.
pub open spec fn findings_upto(s: Seq<char>, n: int) -> Seq<InvisibleCharFinding>
    decreases n,
{
    if n <= 0 {
        seq![]
    } else {
        let prev = findings_upto(s, n - 1);
        match category_of(s[n - 1]) {
            Some(cat) => prev.push(finding_at(s, n - 1, cat)),
            None => prev,
        }
    }
}

/// All findings of a document.
pub open spec fn findings_of(s: Seq<char>) -> Seq<InvisibleCharFinding> {
    findings_upto(s, s.len() as int)
}

/// Classify one character.
pub fn classify(ch: char) -> (r: Option<InvisibleCharCategory>)
    ensures
        r == category_of(ch),
{
    let cp: u32 = ch as u32;
    if 0xE0000 <= cp && cp <= 0xE007F {
        return Some(InvisibleCharCategory::UnicodeTag);
    }
    if cp == 0 {
        return Some(InvisibleCharCategory::NullByte);
    }
    if 1 <= cp && cp <= 0x1F && cp != 0x09 && cp != 0x0A && cp != 0x0D {
        return Some(InvisibleCharCategory::C0Control);
    }
    if 0x80 <= cp && cp <= 0x9F {
        return Some(InvisibleCharCategory::C1Control);
    }
    None
}

/// Scan `content` for first-layer invisible characters.
///
/// Detects Unicode tags, NUL, C0 controls other than Tab/LF/CR, and C1
/// controls, reporting each with its 1-indexed line and character column.
pub fn detect_invisible_chars(content: &str) -> (r: Vec<InvisibleCharFinding>)
    requires
        content@.len() < usize::MAX,
    ensures
        r@ == findings_of(content@),
{
    let chars = chars_of(content);
    let mut out: Vec<InvisibleCharFinding> = Vec::new();
    let mut line: usize = 1;
    let mut col: usize = 1;
    let mut i: usize = 0;
    while i < chars.len()
        invariant
            i <= chars.len() < usize::MAX,
            chars@ == content@,
            line as int == line_at(chars@, i as int),
            col as int == column_at(chars@, i as int),
            1 <= line <= i + 1,
            1 <= col <= i + 1,
            out@ == findings_upto(chars@, i as int),
        decreases chars.len() - i,
    {
        let c = chars[i];
        match classify(c) {
            Some(cat) => {
                out.push(InvisibleCharFinding { line, column: col, char_value: c, category: cat });
            },
            None => {},
        }
        if c == '\n' {
            line = line + 1;
            col = 1;
        } else {
            col = col + 1;
        }
        i = i + 1;
    }
    out
}

/// Display text of a code point: `"U+"` followed by at least four uppercase
/// hexadecimal digits.
pub open spec fn char_hex_text(c: char) -> Seq<char> {
    seq!['U', '+'] + zero_pad(hex_digits(c as u32 as nat), 4)
}

/// The display name of a category (the variant's name).
pub open spec fn category_name(c: InvisibleCharCategory) -> Seq<char> {
    match c {
        InvisibleCharCategory::UnicodeTag => "UnicodeTag"@,
        InvisibleCharCategory::NullByte => "NullByte"@,
        InvisibleCharCategory::C0Control => "C0Control"@,
        InvisibleCharCategory::C1Control => "C1Control"@,
    }
}

impl InvisibleCharFinding {
    /// Unicode code point as a `"U+XXXX"` string.
    pub fn char_hex(&self) -> (r: String)
        ensures
            r@ == char_hex_text(self.char_value),
    {
        let mut out: Vec<char> = Vec::new();
        out.push('U');
        out.push('+');
        let cp: u32 = self.char_value as u32;
        let digits = hex_chars_padded(cp as u64, 4);
        crate::text::push_all(&mut out, &digits);
        assert(out@ =~= seq!['U', '+'] + digits@);
        string_from_chars(&out)
    }

    /// Category as a static string (matches the variant name).
    pub fn category_str(&self) -> (r: &'static str)
        ensures
            r@ == category_name(self.category),
    {
        match self.category {
            InvisibleCharCategory::UnicodeTag => "UnicodeTag",
            InvisibleCharCategory::NullByte => "NullByte",
            InvisibleCharCategory::C0Control => "C0Control",
            InvisibleCharCategory::C1Control => "C1Control",
        }
    }
}

/// Every reported finding names a character of one of the four categories,
/// at its true line and column; Tab, LF and CR are never reported.
pub proof fn law_findings_sound(s: Seq<char>, n: int)
    requires
        0 <= n <= s.len(),
    ensures
        forall|j: int| 0 <= j < findings_upto(s, n).len() ==> {
            let f = #[trigger] findings_upto(s, n)[j];
            &&& exists|i: int| 0 <= i < n && s[i] == f.char_value
                && category_of(s[i]) == Some(f.category)
                && f == finding_at(s, i, f.category)
            &&& f.char_value != '\t' && f.char_value != '\n' && f.char_value != '\r'
        },
    decreases n,
{
    if n > 0 {
        law_findings_sound(s, n - 1);
        let prev = findings_upto(s, n - 1);
        assert forall|j: int| 0 <= j < findings_upto(s, n).len() implies {
            let f = #[trigger] findings_upto(s, n)[j];
            &&& exists|i: int| 0 <= i < n && s[i] == f.char_value
                && category_of(s[i]) == Some(f.category)
                && f == finding_at(s, i, f.category)
            &&& f.char_value != '\t' && f.char_value != '\n' && f.char_value != '\r'
        } by {
            if j < prev.len() {
                assert(findings_upto(s, n)[j] == prev[j]);
            } else {
                let i = n - 1;
                assert(s[i] == findings_upto(s, n)[j].char_value);
            }
        }
    }
}

/// Every character of one of the four categories is reported, at its line
/// and column.
pub proof fn law_findings_complete(s: Seq<char>, n: int)
    requires
        0 <= n <= s.len(),
    ensures
        forall|i: int| 0 <= i < n && #[trigger] category_of(s[i]) is Some ==>
            findings_upto(s, n).contains(finding_at(s, i, category_of(s[i])->0)),
    decreases n,
{
    if n > 0 {
        law_findings_complete(s, n - 1);
        let prev = findings_upto(s, n - 1);
        assert forall|i: int| 0 <= i < n && #[trigger] category_of(s[i]) is Some implies
            findings_upto(s, n).contains(finding_at(s, i, category_of(s[i])->0)) by {
            if i < n - 1 {
                let k = choose|k: int| 0 <= k < prev.len() && prev[k] == finding_at(s, i, category_of(s[i])->0);
                assert(findings_upto(s, n)[k] == prev[k]);
            } else {
                assert(findings_upto(s, n)[prev.len() as int] == finding_at(s, i, category_of(s[i])->0));
            }
        }
    }
}


/// The category a code point belongs to, written out range by range: Unicode
/// tags U+E0000–U+E007F, NUL, the C0 controls U+0001–U+001F other than Tab,
/// LF and CR, and the C1 controls U+0080–U+009F.
pub open spec fn code_point_category(cp: u32, cat: InvisibleCharCategory) -> bool {
    match cat {
        InvisibleCharCategory::UnicodeTag => 0xE0000 <= cp && cp <= 0xE007F,
        InvisibleCharCategory::NullByte => cp == 0,
        InvisibleCharCategory::C0Control => 1 <= cp && cp <= 0x1F && cp != 9 && cp != 10 && cp != 13,
        InvisibleCharCategory::C1Control => 0x80 <= cp && cp <= 0x9F,
    }
}

/// Every character of a category of the code-point table is reported, at its
/// own line and column, under that category: among them every C0 control
/// other than Tab, LF and CR (form feed and vertical tab included).
pub proof fn law_invisible_chars_reported(s: Seq<char>, i: int, cat: InvisibleCharCategory)
    requires
        0 <= i < s.len(),
        code_point_category(s[i] as u32, cat),
    ensures
        findings_of(s).contains(finding_at(s, i, cat)),
{
    law_findings_complete(s, s.len() as int);
    assert(category_of(s[i]) == Some(cat));
}

/// Every finding reports a character of the code-point table, under the
/// category the table gives it, at the character's own line and column;
/// nothing else (printable text, Tab, LF, CR) is ever reported.
pub proof fn law_findings_follow_code_points(s: Seq<char>)
    ensures
        forall|k: int| 0 <= k < findings_of(s).len() ==> {
            let f = #[trigger] findings_of(s)[k];
            &&& code_point_category(f.char_value as u32, f.category)
            &&& exists|i: int| 0 <= i < s.len() && f == finding_at(s, i, f.category)
        },
{
    law_findings_sound(s, s.len() as int);
    assert forall|k: int| 0 <= k < findings_of(s).len() implies {
        let f = #[trigger] findings_of(s)[k];
        &&& code_point_category(f.char_value as u32, f.category)
        &&& exists|i: int| 0 <= i < s.len() && f == finding_at(s, i, f.category)
    } by {
        let f = findings_of(s)[k];
        let i = choose|i: int| 0 <= i < s.len() && s[i] == f.char_value
            && category_of(s[i]) == Some(f.category) && f == finding_at(s, i, f.category);
        assert(category_of(f.char_value) == Some(f.category));
    }
}

/// Lines and columns count as a reader does: within a stretch without line
/// feeds the line stays the same and the column advances by one per
/// character; the character just after a line feed is at column 1 of the
/// next line.
pub proof fn law_line_and_column(s: Seq<char>, j: int, i: int)
    requires
        0 <= j <= i <= s.len(),
        forall|k: int| j <= k < i ==> s[k] != '\n',
    ensures
        line_at(s, i) == line_at(s, j),
        column_at(s, i) == column_at(s, j) + (i - j),
        j == 0 ==> line_at(s, i) == 1 && column_at(s, i) == i + 1,
        j > 0 && s[j - 1] == '\n' ==> line_at(s, i) == line_at(s, j - 1) + 1 && column_at(s, i) == i - j + 1,
    decreases i - j,
{
    if i > j {
        law_line_and_column(s, j, i - 1);
    }
}
} // verus!
