//! Appearance settings (`appearance.toml`): value validation, CSS variables,
//! scope resolution, debouncing and presets.

use vstd::prelude::*;
use crate::error::{error_text, CoreError};
use crate::text::{
    ascii_ci_eq, byte_len, byte_offset, chars_of, clone_opt, contains_chars, contains_seq, dec_digits, decimal_chars,
    ends_with, ends_with_lit, lowercase, owned, push_str, slice_chars, starts_with,
    starts_with_lit, str_eq, string_from_chars, trim, trimmed, unicode_lowercase,
};

verus! {

// ── Configuration types ──────────────────────────────────────────────────────

/// The whole appearance file.
#[derive(Debug, Clone)]
pub struct AppearanceConfig {
    pub text: TextConfig,
    pub color: ColorConfig,
    pub highlight: HighlightConfig,
}

/// Typography. The three fractional settings are held as the decimal text in
/// which they are written out (`1.6`, `0`), which is what the CSS values use.
#[derive(Debug, Clone)]
pub struct TextConfig {
    pub font_size: u32,
    pub font_family: String,
    pub line_height: String,
    pub letter_spacing: String,
    pub word_spacing: String,
    pub editor_max_width: u32,
}

/// Colors: either a preset or a custom foreground/background pair.
#[derive(Debug, Clone)]
pub struct ColorConfig {
    pub preset: Option<String>,
    pub fg: Option<String>,
    pub bg: Option<String>,
    pub advanced: AdvancedColorConfig,
}

/// Per-token editor colors.
#[derive(Debug, Clone)]
pub struct AdvancedColorConfig {
    pub cm_keyword: Option<String>,
    pub cm_string: Option<String>,
    pub cm_comment: Option<String>,
    pub cm_heading: Option<String>,
    pub cm_link: Option<String>,
    pub cursor: Option<String>,
    pub selection_bg: Option<String>,
}

/// Syntax highlighting switch.
#[derive(Debug, Clone)]
pub struct HighlightConfig {
    pub enabled: bool,
}

impl Default for TextConfig {
    fn default() -> (r: Self)
        ensures
            r.font_size == 16,
            r.font_family@ == "system-ui, sans-serif"@,
            r.line_height@ == "1.6"@,
            r.letter_spacing@ == "0"@,
            r.word_spacing@ == "0"@,
            r.editor_max_width == 72,
    {
        TextConfig {
            font_size: 16,
            font_family: owned("system-ui, sans-serif"),
            line_height: owned("1.6"),
            letter_spacing: owned("0"),
            word_spacing: owned("0"),
            editor_max_width: 72,
        }
    }
}

impl Default for AdvancedColorConfig {
    fn default() -> (r: Self)
        ensures
            r.cm_keyword is None && r.cm_string is None && r.cm_comment is None,
            r.cm_heading is None && r.cm_link is None && r.cursor is None,
            r.selection_bg is None,
    {
        AdvancedColorConfig {
            cm_keyword: None,
            cm_string: None,
            cm_comment: None,
            cm_heading: None,
            cm_link: None,
            cursor: None,
            selection_bg: None,
        }
    }
}

impl Default for ColorConfig {
    fn default() -> (r: Self)
        ensures
            r.preset is None && r.fg is None && r.bg is None,
            r.advanced.cm_keyword is None && r.advanced.cm_string is None,
            r.advanced.cm_comment is None && r.advanced.cm_heading is None,
            r.advanced.cm_link is None && r.advanced.cursor is None,
            r.advanced.selection_bg is None,
    {
        ColorConfig { preset: None, fg: None, bg: None, advanced: AdvancedColorConfig::default() }
    }
}

impl Default for HighlightConfig {
    fn default() -> (r: Self)
        ensures
            r.enabled,
    {
        HighlightConfig { enabled: true }
    }
}

impl Default for AppearanceConfig {
    fn default() -> (r: Self)
        ensures
            r.text.font_size == 16 && r.text.editor_max_width == 72,
            r.text.font_family@ == "system-ui, sans-serif"@,
            r.text.line_height@ == "1.6"@,
            r.text.letter_spacing@ == "0"@ && r.text.word_spacing@ == "0"@,
            r.color.preset is None && r.color.fg is None && r.color.bg is None,
            r.color.advanced.cm_keyword is None && r.color.advanced.cm_string is None,
            r.color.advanced.cm_comment is None && r.color.advanced.cm_heading is None,
            r.color.advanced.cm_link is None && r.color.advanced.cursor is None,
            r.color.advanced.selection_bg is None,
            r.highlight.enabled,
    {
        AppearanceConfig {
            text: TextConfig::default(),
            color: ColorConfig::default(),
            highlight: HighlightConfig::default(),
        }
    }
}

// ── Presets ──────────────────────────────────────────────────────────────────

/// The built-in color presets.
pub open spec fn allowed_preset(p: Seq<char>) -> bool {
    p == "default"@ || p == "high-contrast"@ || p == "dark"@ || p == "dark-high-contrast"@
}

/// Whether `p` names a built-in preset.
pub fn is_allowed_preset(p: &str) -> (r: bool)
    ensures
        r == allowed_preset(p@),
{
    let v = chars_of(p);
    str_eq(&v, "default") || str_eq(&v, "high-contrast") || str_eq(&v, "dark") || str_eq(
        &v,
        "dark-high-contrast",
    )
}

/// The built-in preset names, in documentation order.
pub fn allowed_presets() -> (r: Vec<&'static str>)
    ensures
        r@.len() == 4,
        r@[0]@ == "default"@,
        r@[1]@ == "high-contrast"@,
        r@[2]@ == "dark"@,
        r@[3]@ == "dark-high-contrast"@,
{
    let mut v: Vec<&'static str> = Vec::new();
    v.push("default");
    v.push("high-contrast");
    v.push("dark");
    v.push("dark-high-contrast");
    v
}

/// Representative foreground/background hex colors of each preset.
pub open spec fn preset_colors(p: Seq<char>) -> Option<(Seq<char>, Seq<char>)> {
    if p == "default"@ {
        Some(("#1a1a1a"@, "#ffffff"@))
    } else if p == "high-contrast"@ {
        Some(("#000000"@, "#ffffff"@))
    } else if p == "dark"@ {
        Some(("#e5e7eb"@, "#1f2937"@))
    } else if p == "dark-high-contrast"@ {
        Some(("#ffffff"@, "#000000"@))
    } else {
        None
    }
}

/// Representative fg/bg hex colors for a built-in preset; `None` for any other name.
pub fn preset_fg_bg(preset: &str) -> (r: Option<(&'static str, &'static str)>)
    ensures
        match r {
            Some((f, b)) => preset_colors(preset@) == Some((f@, b@)),
            None => preset_colors(preset@) is None,
        },
{
    let v = chars_of(preset);
    if str_eq(&v, "default") {
        Some(("#1a1a1a", "#ffffff"))
    } else if str_eq(&v, "high-contrast") {
        Some(("#000000", "#ffffff"))
    } else if str_eq(&v, "dark") {
        Some(("#e5e7eb", "#1f2937"))
    } else if str_eq(&v, "dark-high-contrast") {
        Some(("#ffffff", "#000000"))
    } else {
        None
    }
}

// ── Value validation ─────────────────────────────────────────────────────────

/// A value whose lowercase form contains a fragment that could smuggle CSS or
/// markup (`url(`, `expression(`, `javascript:`, `import`, `@`, `<`, `>`, `{`, `}`).
pub open spec fn is_dangerous_text(v: Seq<char>) -> bool {
    let l = unicode_lowercase(v);
    ||| contains_seq(l, "url("@)
    ||| contains_seq(l, "expression("@)
    ||| contains_seq(l, "javascript:"@)
    ||| contains_seq(l, "import"@)
    ||| contains_seq(l, "@"@)
    ||| contains_seq(l, "<"@)
    ||| contains_seq(l, ">"@)
    ||| contains_seq(l, "{"@)
    ||| contains_seq(l, "}"@)
}

fn contains_lit(v: &Vec<char>, lit: &str) -> (r: bool)
    ensures
        r == contains_seq(v@, lit@),
{
    let p = chars_of(lit);
    contains_chars(v, &p)
}

/// Whether `value` contains a dangerous fragment (see [`is_dangerous_text`]).
pub fn is_dangerous(value: &str) -> (r: bool)
    ensures
        r == is_dangerous_text(value@),
{
    let lower_s = lowercase(value);
    let l = chars_of(lower_s.as_str());
    contains_lit(&l, "url(") || contains_lit(&l, "expression(") || contains_lit(&l, "javascript:")
        || contains_lit(&l, "import") || contains_lit(&l, "@") || contains_lit(&l, "<")
        || contains_lit(&l, ">") || contains_lit(&l, "{") || contains_lit(&l, "}")
}

/// An ASCII hexadecimal digit.
pub open spec fn is_hex_digit(c: char) -> bool {
    ('0' <= c && c <= '9') || ('a' <= c && c <= 'f') || ('A' <= c && c <= 'F')
}

/// The value of an ASCII hex digit.
pub open spec fn hex_value(c: char) -> int {
    if '0' <= c && c <= '9' {
        c as int - '0' as int
    } else if 'a' <= c && c <= 'f' {
        c as int - 'a' as int + 10
    } else {
        c as int - 'A' as int + 10
    }
}

/// What `u8::from_str_radix` gives for the two-character text `a b` in base
/// 16: two hex digits, or a `+` sign and one hex digit.
pub open spec fn hex_pair(a: char, b: char) -> Option<u8> {
    if is_hex_digit(a) && is_hex_digit(b) {
        Some((hex_value(a) * 16 + hex_value(b)) as u8)
    } else if a == '+' && is_hex_digit(b) {
        Some(hex_value(b) as u8)
    } else {
        None
    }
}

/// The text after `#` of a trimmed color, if it starts with `#`.
pub open spec fn hex_body(hex: Seq<char>) -> Option<Seq<char>> {
    let t = trim(hex);
    if t.len() > 0 && t[0] == '#' { Some(t.drop_first()) } else { None }
}

/// Byte offset `b` of `h` falls between two characters.
pub open spec fn at_char_boundary(h: Seq<char>, b: int) -> bool {
    exists|k: int| 0 <= k <= h.len() && #[trigger] byte_offset(h, k) == b
}

/// The color's digits are cut into one- or two-byte pieces between characters
/// (a cut inside a character is a panic).
pub open spec fn hex_color_sliceable(hex: Seq<char>) -> bool {
    match hex_body(hex) {
        Some(h) => (byte_len(h) == 3 ==> h.len() == 3)
            && (byte_len(h) == 6 ==> at_char_boundary(h, 2) && at_char_boundary(h, 4)),
        None => true,
    }
}

/// The bytes of `#rgb` (each digit doubled) or `#rrggbb`, once trimmed; each
/// piece read as `u8::from_str_radix` reads it.
pub open spec fn hex_color_value(hex: Seq<char>) -> Option<(u8, u8, u8)> {
    match hex_body(hex) {
        None => None,
        Some(h) => if h.len() == 3 {
            if is_hex_digit(h[0]) && is_hex_digit(h[1]) && is_hex_digit(h[2]) {
                Some(((hex_value(h[0]) * 17) as u8, (hex_value(h[1]) * 17) as u8, (hex_value(h[2]) * 17) as u8))
            } else {
                None
            }
        } else if h.len() == 6 {
            match (hex_pair(h[0], h[1]), hex_pair(h[2], h[3]), hex_pair(h[4], h[5])) {
                (Some(r), Some(g), Some(b)) => Some((r, g, b)),
                _ => None,
            }
        } else {
            None
        },
    }
}

fn is_hex(c: char) -> (r: bool)
    ensures
        r == is_hex_digit(c),
{
    ('0' <= c && c <= '9') || ('a' <= c && c <= 'f') || ('A' <= c && c <= 'F')
}

fn hex_val(c: char) -> (r: u8)
    requires
        is_hex_digit(c),
    ensures
        r == hex_value(c),
{
    if '0' <= c && c <= '9' {
        (c as u32 - '0' as u32) as u8
    } else if 'a' <= c && c <= 'f' {
        (c as u32 - 'a' as u32 + 10) as u8
    } else {
        (c as u32 - 'A' as u32 + 10) as u8
    }
}

fn pair_value(a: char, b: char) -> (r: Option<u8>)
    ensures
        r == hex_pair(a, b),
{
    if is_hex(a) && is_hex(b) {
        Some(hex_val(a) * 16 + hex_val(b))
    } else if a == '+' && is_hex(b) {
        Some(hex_val(b))
    } else {
        None
    }
}

/// Parse `#rgb` or `#rrggbb` (surrounding white space allowed) into its
/// three bytes; `None` for anything else.
pub fn parse_hex_color(hex: &str) -> (r: Option<(u8, u8, u8)>)
    requires
        hex_color_sliceable(hex@),
    ensures
        r == hex_color_value(hex@),
{
    let v = chars_of(hex);
    let t = trimmed(&v);
    if t.len() == 0 || t[0] != '#' {
        return None;
    }
    proof {
        let h = t@.drop_first();
        assert(hex_body(hex@) == Some(h));
        assert forall|i: int| 0 <= i < h.len() implies #[trigger] h[i] == t@[i + 1] by {}
    }
    let n = t.len() - 1;
    if n == 3 {
        let (a, b, c) = (t[1], t[2], t[3]);
        if is_hex(a) && is_hex(b) && is_hex(c) {
            Some((hex_val(a) * 17, hex_val(b) * 17, hex_val(c) * 17))
        } else {
            None
        }
    } else if n == 6 {
        match (pair_value(t[1], t[2]), pair_value(t[3], t[4]), pair_value(t[5], t[6])) {
            (Some(r), Some(g), Some(b)) => Some((r, g, b)),
            _ => None,
        }
    } else {
        None
    }
}

/// The error for a color that is not `#rgb` or `#rrggbb`.
pub open spec fn invalid_hex_error(e: CoreError, side: Seq<char>, hex: Seq<char>) -> bool {
    e matches CoreError::AppearanceValidation(m) && m@ == "invalid hex color for "@ + side + ": "@ + hex
}

fn invalid_hex(side: &str, hex: &str) -> (e: CoreError)
    ensures
        invalid_hex_error(e, side@, hex@),
{
    let mut m = chars_of("invalid hex color for ");
    push_str(&mut m, side);
    push_str(&mut m, ": ");
    push_str(&mut m, hex);
    CoreError::AppearanceValidation(string_from_chars(&m))
}

/// The foreground and background bytes of a contrast check: the foreground
/// is read first, and an unreadable one is reported before the background.
pub fn parse_contrast_colors(fg_hex: &str, bg_hex: &str) -> (r: Result<((u8, u8, u8), (u8, u8, u8)), CoreError>)
    requires
        hex_color_sliceable(fg_hex@),
        hex_color_value(fg_hex@) is Some ==> hex_color_sliceable(bg_hex@),
    ensures
        match (hex_color_value(fg_hex@), hex_color_value(bg_hex@)) {
            (Some(f), Some(b)) => r == Ok::<((u8, u8, u8), (u8, u8, u8)), CoreError>((f, b)),
            (None, _) => r matches Err(e) && invalid_hex_error(e, "fg"@, fg_hex@),
            (Some(_), None) => r matches Err(e) && invalid_hex_error(e, "bg"@, bg_hex@),
        },
{
    let f = match parse_hex_color(fg_hex) {
        Some(f) => f,
        None => return Err(invalid_hex("fg", fg_hex)),
    };
    match parse_hex_color(bg_hex) {
        Some(b) => Ok((f, b)),
        None => Err(invalid_hex("bg", bg_hex)),
    }
}

/// An accepted color: not dangerous, and once trimmed either `#` with three or
/// six hex digits, or `rgb(`/`hsl(` ... `)`.
pub open spec fn valid_color(v: Seq<char>) -> bool {
    &&& !is_dangerous_text(v)
    &&& {
        let t = trim(v);
        if t.len() > 0 && t[0] == '#' {
            let h = t.drop_first();
            (h.len() == 3 || h.len() == 6) && forall|i: int| 0 <= i < h.len() ==> is_hex_digit(#[trigger] h[i])
        } else {
            (starts_with(t, "rgb("@) || starts_with(t, "hsl("@)) && ends_with(t, ")"@)
        }
    }
}

fn all_hex_from(v: &Vec<char>, from: usize) -> (r: bool)
    requires
        from <= v.len(),
    ensures
        r == forall|i: int| from <= i < v@.len() ==> is_hex_digit(#[trigger] v@[i]),
{
    let mut i: usize = from;
    while i < v.len()
        invariant
            from <= i <= v.len(),
            forall|k: int| from <= k < i ==> is_hex_digit(#[trigger] v@[k]),
        decreases v.len() - i,
    {
        let c = v[i];
        if !(('0' <= c && c <= '9') || ('a' <= c && c <= 'f') || ('A' <= c && c <= 'F')) {
            return false;
        }
        i = i + 1;
    }
    true
}

/// Whether `value` is an accepted color (see [`valid_color`]).
pub fn is_valid_color(value: &str) -> (r: bool)
    ensures
        r == valid_color(value@),
{
    if is_dangerous(value) {
        return false;
    }
    let v = chars_of(value);
    let t = trimmed(&v);
    if t.len() > 0 && t[0] == '#' {
        let n = t.len() - 1;
        let ok = (n == 3 || n == 6) && all_hex_from(&t, 1);
        proof {
            let h = t@.drop_first();
            assert forall|i: int| 0 <= i < h.len() implies #[trigger] h[i] == t@[i + 1] by {}
            if (n == 3 || n == 6) {
                if ok {
                    assert forall|i: int| 0 <= i < h.len() implies is_hex_digit(#[trigger] h[i]) by {
                        assert(h[i] == t@[i + 1]);
                    }
                } else {
                    let k = choose|k: int| 1 <= k < t@.len() && !is_hex_digit(#[trigger] t@[k]);
                    assert(h[k - 1] == t@[k]);
                }
            }
        }
        return ok;
    }
    (starts_with_lit(&t, "rgb(") || starts_with_lit(&t, "hsl(")) && ends_with_lit(&t, ")")
}

/// An ASCII decimal digit.
pub open spec fn is_digit(c: char) -> bool {
    '0' <= c && c <= '9'
}

/// `+` or `-`.
pub open spec fn is_sign(c: char) -> bool {
    c == '+' || c == '-'
}

/// End of the run of digits that starts at `i`.
pub open spec fn digit_run_end(s: Seq<char>, i: int) -> int
    decreases s.len() - i,
{
    if 0 <= i < s.len() && is_digit(s[i]) {
        digit_run_end(s, i + 1)
    } else {
        i
    }
}

/// `s[i..]` is an exponent: `e` or `E`, an optional sign, then one or more digits.
pub open spec fn exponent_at(s: Seq<char>, i: int) -> bool {
    &&& 0 <= i < s.len()
    &&& (s[i] == 'e' || s[i] == 'E')
    &&& {
        let j = if i + 1 < s.len() && is_sign(s[i + 1]) { i + 2 } else { i + 1 };
        let k = digit_run_end(s, j);
        k > j && k == s.len()
    }
}

/// `s` is a decimal number: `Digit+`, `Digit+ '.' Digit*` or `Digit* '.' Digit+`,
/// then an optional exponent.
pub open spec fn decimal_number(s: Seq<char>) -> bool {
    let i1 = digit_run_end(s, 0);
    let dot = i1 < s.len() && s[i1] == '.';
    let i2 = if dot { digit_run_end(s, i1 + 1) } else { i1 };
    &&& (i1 > 0 || (dot && i2 > i1 + 1))
    &&& (i2 == s.len() || exponent_at(s, i2))
}

/// The text that `str::parse::<f64>` accepts: an optional sign, then `inf`,
/// `infinity` or `nan` in any ASCII case, or a decimal number.
pub open spec fn float_literal(s: Seq<char>) -> bool {
    let body = if s.len() > 0 && is_sign(s[0]) { s.drop_first() } else { s };
    ascii_ci_eq(body, "inf"@) || ascii_ci_eq(body, "infinity"@) || ascii_ci_eq(body, "nan"@)
        || decimal_number(body)
}

proof fn lemma_digit_run_bounds(s: Seq<char>, i: int)
    requires
        0 <= i <= s.len(),
    ensures
        i <= digit_run_end(s, i) <= s.len(),
    decreases s.len() - i,
{
    if i < s.len() && is_digit(s[i]) {
        lemma_digit_run_bounds(s, i + 1);
    }
}

fn digit_run(v: &Vec<char>, i: usize) -> (r: usize)
    requires
        i <= v.len(),
    ensures
        r as int == digit_run_end(v@, i as int),
        i <= r <= v.len(),
{
    let mut j: usize = i;
    proof { lemma_digit_run_bounds(v@, i as int); }
    while j < v.len() && '0' <= v[j] && v[j] <= '9'
        invariant
            i <= j <= v.len(),
            digit_run_end(v@, j as int) == digit_run_end(v@, i as int),
        decreases v.len() - j,
    {
        j = j + 1;
    }
    j
}

fn exponent_at_exec(s: &Vec<char>, i: usize) -> (r: bool)
    requires
        i <= s.len(),
    ensures
        r == exponent_at(s@, i as int),
{
    if i >= s.len() || !(s[i] == 'e' || s[i] == 'E') {
        return false;
    }
    let j: usize = if i + 1 < s.len() && (s[i + 1] == '+' || s[i + 1] == '-') { i + 2 } else { i + 1 };
    let k = digit_run(s, j);
    k > j && k == s.len()
}

fn decimal_number_exec(s: &Vec<char>) -> (r: bool)
    ensures
        r == decimal_number(s@),
{
    let i1 = digit_run(s, 0);
    let dot = i1 < s.len() && s[i1] == '.';
    let i2 = if dot { digit_run(s, i1 + 1) } else { i1 };
    (i1 > 0 || (dot && i2 > i1 + 1)) && (i2 == s.len() || exponent_at_exec(s, i2))
}

fn ci_eq_lit(v: &Vec<char>, lit: &str) -> (r: bool)
    ensures
        r == ascii_ci_eq(v@, lit@),
{
    let l = chars_of(lit);
    crate::text::ascii_ci_equal(v, &l)
}

/// Whether `s` is text that `str::parse::<f64>` accepts (see [`float_literal`]).
pub fn is_float_literal(s: &Vec<char>) -> (r: bool)
    ensures
        r == float_literal(s@),
{
    let body = if s.len() > 0 && (s[0] == '+' || s[0] == '-') {
        slice_chars(s, 1, s.len())
    } else {
        slice_chars(s, 0, s.len())
    };
    proof {
        if s@.len() > 0 && is_sign(s@[0]) {
            assert(body@ =~= s@.drop_first());
        } else {
            assert(body@ =~= s@);
        }
    }
    ci_eq_lit(&body, "inf") || ci_eq_lit(&body, "infinity") || ci_eq_lit(&body, "nan")
        || decimal_number_exec(&body)
}

/// `t` without its last `n` characters.
pub open spec fn drop_suffix(t: Seq<char>, n: int) -> Seq<char> {
    t.subrange(0, t.len() - n)
}

/// An accepted dimension: not dangerous, and once trimmed a number optionally
/// followed by a unit. Units are tried in the order `px`, `em`, `rem`, `ch`, `%`;
/// the first that ends the value is removed and the rest must be a number.
pub open spec fn valid_dimension(v: Seq<char>) -> bool {
    &&& !is_dangerous_text(v)
    &&& {
        let t = trim(v);
        if ends_with(t, "px"@) {
            float_literal(drop_suffix(t, 2))
        } else if ends_with(t, "em"@) {
            float_literal(drop_suffix(t, 2))
        } else if ends_with(t, "rem"@) {
            float_literal(drop_suffix(t, 3))
        } else if ends_with(t, "ch"@) {
            float_literal(drop_suffix(t, 2))
        } else if ends_with(t, "%"@) {
            float_literal(drop_suffix(t, 1))
        } else {
            float_literal(t)
        }
    }
}

fn float_without_suffix(t: &Vec<char>, n: usize) -> (r: bool)
    requires
        n <= t.len(),
    ensures
        r == float_literal(drop_suffix(t@, n as int)),
{
    let num = slice_chars(t, 0, t.len() - n);
    is_float_literal(&num)
}

/// Whether `value` is an accepted dimension (see [`valid_dimension`]).
pub fn is_valid_dimension(value: &str) -> (r: bool)
    ensures
        r == valid_dimension(value@),
{
    if is_dangerous(value) {
        return false;
    }
    let v = chars_of(value);
    let t = trimmed(&v);
    proof { reveal_strlit("px"); reveal_strlit("em"); reveal_strlit("rem"); reveal_strlit("ch"); reveal_strlit("%"); }
    if ends_with_lit(&t, "px") {
        float_without_suffix(&t, 2)
    } else if ends_with_lit(&t, "em") {
        float_without_suffix(&t, 2)
    } else if ends_with_lit(&t, "rem") {
        float_without_suffix(&t, 3)
    } else if ends_with_lit(&t, "ch") {
        float_without_suffix(&t, 2)
    } else if ends_with_lit(&t, "%") {
        float_without_suffix(&t, 1)
    } else {
        is_float_literal(&t)
    }
}

/// A character allowed in a font family list.
pub open spec fn font_family_char(c: char) -> bool {
    ('0' <= c && c <= '9') || ('a' <= c && c <= 'z') || ('A' <= c && c <= 'Z') || c == ' ' || c == '-'
        || c == ','
}

/// An accepted font family: not dangerous, and only ASCII letters, digits,
/// spaces, `-` and `,`.
pub open spec fn valid_font_family(v: Seq<char>) -> bool {
    !is_dangerous_text(v) && forall|i: int| 0 <= i < v.len() ==> font_family_char(#[trigger] v[i])
}

/// Whether `value` is an accepted font family (see [`valid_font_family`]).
pub fn is_valid_font_family(value: &str) -> (r: bool)
    ensures
        r == valid_font_family(value@),
{
    if is_dangerous(value) {
        return false;
    }
    let v = chars_of(value);
    let mut i: usize = 0;
    while i < v.len()
        invariant
            i <= v.len(),
            v@ == value@,
            forall|k: int| 0 <= k < i ==> font_family_char(#[trigger] v@[k]),
        decreases v.len() - i,
    {
        let c = v[i];
        if !(('0' <= c && c <= '9') || ('a' <= c && c <= 'z') || ('A' <= c && c <= 'Z') || c == ' '
            || c == '-' || c == ',') {
            return false;
        }
        i = i + 1;
    }
    true
}

/// `c` is an ASCII letter (either case) or digit, by code point
/// (`char::is_ascii_alphanumeric`).
pub open spec fn ascii_alphanumeric(c: char) -> bool {
    let cp = c as int;
    (0x30 <= cp && cp <= 0x39) || (0x41 <= cp && cp <= 0x5A) || (0x61 <= cp && cp <= 0x7A)
}

/// A font family is accepted exactly when it is not dangerous and every
/// character is an ASCII letter of either case, a digit, a space, `-` or `,`
/// (so `Inter, Helvetica, sans-serif` is accepted).
pub proof fn law_font_family_accepts_ascii_words(v: Seq<char>)
    ensures
        valid_font_family(v) <==> (!is_dangerous_text(v) && forall|i: int| 0 <= i < v.len()
            ==> ascii_alphanumeric(#[trigger] v[i]) || v[i] == ' ' || v[i] == '-' || v[i] == ','),
{
    assert forall|i: int| 0 <= i < v.len() implies (font_family_char(#[trigger] v[i])
        <==> (ascii_alphanumeric(v[i]) || v[i] == ' ' || v[i] == '-' || v[i] == ',')) by {
        let c = v[i];
        assert(('0' <= c && c <= '9') <==> (0x30 <= (c as int) && (c as int) <= 0x39));
        assert(('A' <= c && c <= 'Z') <==> (0x41 <= (c as int) && (c as int) <= 0x5A));
        assert(('a' <= c && c <= 'z') <==> (0x61 <= (c as int) && (c as int) <= 0x7A));
    }
}

// ── CSS variables ────────────────────────────────────────────────────────────

/// Key/value pairs as plain character sequences.
pub type Entries = Seq<(Seq<char>, Seq<char>)>;

/// The CSS custom properties derived from an appearance config, in the order
/// in which they are produced. No key occurs twice.
#[derive(Debug, Clone)]
pub struct CssVars {
    pub entries: Vec<(String, String)>,
}

/// The entries of `v` as plain character sequences.
pub open spec fn entries_view(v: Seq<(String, String)>) -> Entries {
    Seq::new(v.len(), |i: int| (v[i].0@, v[i].1@))
}

impl View for CssVars {
    type V = Entries;

    open spec fn view(&self) -> Entries {
        entries_view(self.entries@)
    }
}

impl CssVars {
    /// The value stored under `key` (in its first entry).
    pub fn get(&self, key: &str) -> (r: Option<&String>)
        ensures
            match r {
                Some(v) => exists|i: int| 0 <= i < self@.len() && (#[trigger] self@[i]).0 == key@ && self@[i].1 == v@
                    && forall|j: int| 0 <= j < i ==> (#[trigger] self@[j]).0 != key@,
                None => forall|i: int| 0 <= i < self@.len() ==> (#[trigger] self@[i]).0 != key@,
            },
    {
        let k = chars_of(key);
        let mut i: usize = 0;
        while i < self.entries.len()
            invariant
                i <= self.entries@.len(),
                k@ == key@,
                forall|j: int| 0 <= j < i ==> (#[trigger] self@[j]).0 != key@,
            decreases self.entries@.len() - i,
        {
            let ek = chars_of(self.entries[i].0.as_str());
            if crate::text::chars_eq(&ek, &k) {
                assert(self@[i as int].0 == key@);
                return Some(&self.entries[i].1);
            }
            i = i + 1;
        }
        None
    }

    /// Whether some entry has key `key`.
    pub fn contains_key(&self, key: &str) -> (r: bool)
        ensures
            r == exists|i: int| 0 <= i < self@.len() && (#[trigger] self@[i]).0 == key@,
    {
        match self.get(key) {
            Some(_) => true,
            None => false,
        }
    }

    /// Number of entries.
    pub fn len(&self) -> (r: usize)
        ensures
            r == self@.len(),
    {
        self.entries.len()
    }
}

/// The entry `(key, v)` when `val` is an accepted color, else nothing.
pub open spec fn color_entry(key: Seq<char>, val: Option<String>) -> Entries {
    match val {
        Some(v) => if valid_color(v@) { seq![(key, v@)] } else { seq![] },
        None => seq![],
    }
}

/// Entries for the theme: `data-theme` for a known preset, otherwise the
/// accepted custom foreground and background.
pub open spec fn theme_entries(c: ColorConfig) -> Entries {
    match c.preset {
        Some(p) => if allowed_preset(p@) { seq![("data-theme"@, p@)] } else { seq![] },
        None => color_entry("--qw-fg"@, c.fg) + color_entry("--qw-bg"@, c.bg),
    }
}

/// Entries for the per-token colors that are accepted.
pub open spec fn advanced_entries(a: AdvancedColorConfig) -> Entries {
    color_entry("--qw-cm-keyword"@, a.cm_keyword) + color_entry("--qw-cm-string"@, a.cm_string)
        + color_entry("--qw-cm-comment"@, a.cm_comment) + color_entry("--qw-cm-heading"@, a.cm_heading)
        + color_entry("--qw-cm-link"@, a.cm_link) + color_entry("--qw-cursor"@, a.cursor)
        + color_entry("--qw-selection-bg"@, a.selection_bg)
}

/// The entry `(key, val)` when `val` is an accepted dimension, else nothing.
pub open spec fn dim_entry(key: Seq<char>, val: Seq<char>) -> Entries {
    if valid_dimension(val) { seq![(key, val)] } else { seq![] }
}

/// Entries for the typography settings that are accepted.
pub open spec fn text_entries(t: TextConfig) -> Entries {
    dim_entry("--qw-font-size"@, dec_digits(t.font_size as nat) + "px"@)
        + (if valid_font_family(t.font_family@) { seq![("--qw-font-family"@, t.font_family@)] } else { seq![] })
        + dim_entry("--qw-line-height"@, t.line_height@)
        + dim_entry("--qw-letter-spacing"@, t.letter_spacing@ + "em"@)
        + dim_entry("--qw-word-spacing"@, t.word_spacing@ + "em"@)
        + dim_entry("--qw-editor-max-width"@, dec_digits(t.editor_max_width as nat) + "ch"@)
}

/// All CSS entries of a config, theme first, then token colors, then typography.
pub open spec fn css_entries(c: AppearanceConfig) -> Entries {
    theme_entries(c.color) + advanced_entries(c.color.advanced) + text_entries(c.text)
}

/// A preset set together with a custom foreground or background.
pub open spec fn color_conflict(c: ColorConfig) -> bool {
    c.preset is Some && (c.fg is Some || c.bg is Some)
}

/// The error reported for [`color_conflict`].
pub open spec fn is_conflict_error(e: CoreError) -> bool {
    e matches CoreError::AppearanceConflict(m) && m@ == "preset and fg/bg cannot be set at the same time"@
}

/// An accepted font family always reaches the front end: the CSS variables
/// of a configuration include `--qw-font-family` with the family as given.
pub proof fn law_accepted_font_family_is_a_variable(c: AppearanceConfig)
    requires
        valid_font_family(c.text.font_family@),
    ensures
        css_entries(c).contains(("--qw-font-family"@, c.text.font_family@)),
{
    let t = c.text;
    let d1 = dim_entry("--qw-font-size"@, dec_digits(t.font_size as nat) + "px"@);
    let f = seq![("--qw-font-family"@, t.font_family@)];
    let te = text_entries(t);
    let pre = theme_entries(c.color) + advanced_entries(c.color.advanced);
    assert(te[d1.len() as int] == f[0]);
    assert(css_entries(c)[pre.len() + d1.len() as int] == te[d1.len() as int]);
}

fn push_entry(out: &mut Vec<(String, String)>, key: &str, val: &Vec<char>)
    ensures
        entries_view(final(out)@) == entries_view(old(out)@).push((key@, val@)),
{
    let k = owned(key);
    let v = string_from_chars(val);
    out.push((k, v));
    assert(entries_view(out@) =~= entries_view(old(out)@).push((key@, val@)));
}

fn push_color(out: &mut Vec<(String, String)>, key: &str, val: &Option<String>)
    ensures
        entries_view(final(out)@) == entries_view(old(out)@) + color_entry(key@, *val),
{
    match val {
        Some(v) => {
            if is_valid_color(v.as_str()) {
                let c = chars_of(v.as_str());
                push_entry(out, key, &c);
                assert(color_entry(key@, *val) =~= seq![(key@, v@)]);
            } else {
                assert(entries_view(out@) =~= entries_view(old(out)@) + color_entry(key@, *val));
            }
        },
        None => {
            assert(entries_view(out@) =~= entries_view(old(out)@) + color_entry(key@, *val));
        },
    }
}

fn push_dimension(out: &mut Vec<(String, String)>, key: &str, val: &Vec<char>)
    ensures
        entries_view(final(out)@) == entries_view(old(out)@) + dim_entry(key@, val@),
{
    let s = string_from_chars(val);
    if is_valid_dimension(s.as_str()) {
        push_entry(out, key, val);
        assert(dim_entry(key@, val@) =~= seq![(key@, val@)]);
    } else {
        assert(entries_view(out@) =~= entries_view(old(out)@) + dim_entry(key@, val@));
    }
}

fn with_suffix(v: Vec<char>, suffix: &str) -> (r: Vec<char>)
    ensures
        r@ == v@ + suffix@,
{
    let mut v = v;
    push_str(&mut v, suffix);
    v
}

fn push_theme(out: &mut Vec<(String, String)>, c: &ColorConfig)
    ensures
        entries_view(final(out)@) == entries_view(old(out)@) + theme_entries(*c),
{
    match &c.preset {
        Some(p) => {
            if is_allowed_preset(p.as_str()) {
                let pv = chars_of(p.as_str());
                push_entry(out, "data-theme", &pv);
            }
        },
        None => {
            push_color(out, "--qw-fg", &c.fg);
            push_color(out, "--qw-bg", &c.bg);
        },
    }
    assert(entries_view(out@) =~= entries_view(old(out)@) + theme_entries(*c));
}

fn push_advanced(out: &mut Vec<(String, String)>, a: &AdvancedColorConfig)
    ensures
        entries_view(final(out)@) == entries_view(old(out)@) + advanced_entries(*a),
{
    push_color(out, "--qw-cm-keyword", &a.cm_keyword);
    push_color(out, "--qw-cm-string", &a.cm_string);
    push_color(out, "--qw-cm-comment", &a.cm_comment);
    push_color(out, "--qw-cm-heading", &a.cm_heading);
    push_color(out, "--qw-cm-link", &a.cm_link);
    push_color(out, "--qw-cursor", &a.cursor);
    push_color(out, "--qw-selection-bg", &a.selection_bg);
    assert(entries_view(out@) =~= entries_view(old(out)@) + advanced_entries(*a));
}

fn push_text(out: &mut Vec<(String, String)>, t: &TextConfig)
    ensures
        entries_view(final(out)@) == entries_view(old(out)@) + text_entries(*t),
{
    let fs = with_suffix(decimal_chars(t.font_size as u64), "px");
    push_dimension(out, "--qw-font-size", &fs);
    let ghost after_size = entries_view(out@);
    if is_valid_font_family(t.font_family.as_str()) {
        let ff = chars_of(t.font_family.as_str());
        push_entry(out, "--qw-font-family", &ff);
    }
    assert(entries_view(out@) =~= after_size + (if valid_font_family(t.font_family@) {
        seq![("--qw-font-family"@, t.font_family@)]
    } else {
        seq![]
    }));
    let lh = chars_of(t.line_height.as_str());
    push_dimension(out, "--qw-line-height", &lh);
    let ls = with_suffix(chars_of(t.letter_spacing.as_str()), "em");
    push_dimension(out, "--qw-letter-spacing", &ls);
    let ws = with_suffix(chars_of(t.word_spacing.as_str()), "em");
    push_dimension(out, "--qw-word-spacing", &ws);
    let mw = with_suffix(decimal_chars(t.editor_max_width as u64), "ch");
    push_dimension(out, "--qw-editor-max-width", &mw);
    assert(entries_view(out@) =~= entries_view(old(out)@) + text_entries(*t));
}

/// Check that a preset and a custom foreground/background are not set together.
pub fn validate_appearance_config(config: &AppearanceConfig) -> (r: Result<(), CoreError>)
    ensures
        r is Err <==> color_conflict(config.color),
        r matches Err(e) ==> is_conflict_error(e),
{
    if config.color.preset.is_some() && (config.color.fg.is_some() || config.color.bg.is_some()) {
        return Err(make_conflict_error());
    }
    Ok(())
}

fn make_conflict_error() -> (r: CoreError)
    ensures
        is_conflict_error(r),
{
    CoreError::AppearanceConflict(owned("preset and fg/bg cannot be set at the same time"))
}

/// The CSS custom properties for `config`, or the conflict error when a preset
/// and a custom foreground/background are set together. Values that fail
/// validation are left out.
pub fn to_css_vars(config: &AppearanceConfig) -> (r: Result<CssVars, CoreError>)
    ensures
        r is Err <==> color_conflict(config.color),
        match r {
            Ok(vars) => vars@ == css_entries(*config),
            Err(e) => is_conflict_error(e),
        },
{
    if let Err(e) = validate_appearance_config(config) {
        return Err(e);
    }
    let mut out: Vec<(String, String)> = Vec::new();
    push_theme(&mut out, &config.color);
    push_advanced(&mut out, &config.color.advanced);
    push_text(&mut out, &config.text);
    assert(entries_view(out@) =~= css_entries(*config));
    Ok(CssVars { entries: out })
}

/// The effective configuration and where it came from.
#[derive(Debug, Clone, Copy, PartialEq, Eq, Structural, Default)]
pub enum AppearanceScope {
    /// The global `appearance.toml`.
    #[default]
    Global,
    /// The vault's `.qwert/appearance.toml`.
    Vault,
}

impl AppearanceScope {
    /// `"global"` or `"vault"`.
    pub fn as_str(self) -> (r: &'static str)
        ensures
            r@ == (match self {
                AppearanceScope::Global => "global"@,
                AppearanceScope::Vault => "vault"@,
            }),
    {
        match self {
            AppearanceScope::Global => "global",
            AppearanceScope::Vault => "vault",
        }
    }
}

/// A vault config, when present, is used as it stands and to the exclusion of
/// the global one: the two are never merged.
pub fn resolve_appearance_scope(vault: Option<AppearanceConfig>, global: AppearanceConfig) -> (r: (
    AppearanceConfig,
    AppearanceScope,
))
    ensures
        match vault {
            Some(v) => r == (v, AppearanceScope::Vault),
            None => r == (global, AppearanceScope::Global),
        },
{
    match vault {
        Some(v) => (v, AppearanceScope::Vault),
        None => (global, AppearanceScope::Global),
    }
}

/// The text of a warning about a failed appearance load or validation.
pub open spec fn warning_text(e: CoreError) -> Seq<char> {
    match e {
        CoreError::Toml(m) => "appearance.toml parse error: "@ + m@,
        CoreError::AppearanceConflict(_) => "appearance.toml conflict: conflicting keys preset, fg/bg — remove one"@,
        _ => "appearance error: "@ + error_text(e),
    }
}

/// A human-readable warning for a failed appearance load or validation; a
/// parse error keeps the parser's line and column text.
pub fn format_appearance_warning(err: &CoreError) -> (r: String)
    ensures
        r@ == warning_text(*err),
{
    match err {
        CoreError::Toml(m) => {
            let mut out = chars_of("appearance.toml parse error: ");
            push_str(&mut out, m.as_str());
            string_from_chars(&out)
        },
        CoreError::AppearanceConflict(_) => owned(
            "appearance.toml conflict: conflicting keys preset, fg/bg — remove one",
        ),
        _ => {
            let mut out = chars_of("appearance error: ");
            let m = err.message();
            push_str(&mut out, m.as_str());
            string_from_chars(&out)
        },
    }
}

/// What reading the vault's appearance file gave.
#[derive(Debug, Clone)]
pub enum VaultAppearance {
    /// There is no vault file.
    Absent,
    /// The file was read and parsed.
    Loaded(AppearanceConfig),
    /// Reading or parsing failed.
    Failed(CoreError),
}

/// The effective appearance at startup.
#[derive(Debug, Clone)]
pub struct AppearanceResolution {
    pub config: AppearanceConfig,
    pub scope: AppearanceScope,
    /// Set when the vault config was unusable and the global one was used instead.
    pub warning: Option<String>,
}

/// Startup resolution, which never fails: a usable vault config wins; an
/// unreadable, unparsable or conflicting one falls back to `global` with a
/// warning; without a vault file `global` is used with no warning.
pub fn fallback_resolution(vault: VaultAppearance, global: AppearanceConfig) -> (r: AppearanceResolution)
    ensures
        match vault {
            VaultAppearance::Absent => r.config == global && r.scope == AppearanceScope::Global
                && r.warning is None,
            VaultAppearance::Failed(e) => r.config == global && r.scope == AppearanceScope::Global
                && (r.warning matches Some(w) && w@ == warning_text(e)),
            VaultAppearance::Loaded(c) => if color_conflict(c.color) {
                r.config == global && r.scope == AppearanceScope::Global
                    && (r.warning matches Some(w)
                    && w@ == "appearance.toml conflict: conflicting keys preset, fg/bg — remove one"@)
            } else {
                r.config == c && r.scope == AppearanceScope::Vault && r.warning is None
            },
        },
{
    match vault {
        VaultAppearance::Absent => AppearanceResolution {
            config: global,
            scope: AppearanceScope::Global,
            warning: None,
        },
        VaultAppearance::Failed(e) => AppearanceResolution {
            config: global,
            scope: AppearanceScope::Global,
            warning: Some(format_appearance_warning(&e)),
        },
        VaultAppearance::Loaded(c) => match validate_appearance_config(&c) {
            Err(e) => AppearanceResolution {
                config: global,
                scope: AppearanceScope::Global,
                warning: Some(format_appearance_warning(&e)),
            },
            Ok(()) => AppearanceResolution { config: c, scope: AppearanceScope::Vault, warning: None },
        },
    }
}

/// The colors used for a contrast report: a preset's representative pair, or
/// the custom foreground and background as configured.
pub open spec fn status_colors_of(c: ColorConfig) -> (Option<Seq<char>>, Option<Seq<char>>) {
    match c.preset {
        Some(p) => match preset_colors(p@) {
            Some((f, b)) => (Some(f), Some(b)),
            None => (None, None),
        },
        None => (
            match c.fg { Some(f) => Some(f@), None => None },
            match c.bg { Some(b) => Some(b@), None => None },
        ),
    }
}

/// The view of an optional string.
pub open spec fn opt_view(o: Option<String>) -> Option<Seq<char>> {
    match o {
        Some(s) => Some(s@),
        None => None,
    }
}

/// The foreground/background pair used for the contrast report of `color`.
pub fn status_colors(color: &ColorConfig) -> (r: (Option<String>, Option<String>))
    ensures
        (opt_view(r.0), opt_view(r.1)) == status_colors_of(*color),
{
    match &color.preset {
        Some(p) => match preset_fg_bg(p.as_str()) {
            Some((f, b)) => (Some(owned(f)), Some(owned(b))),
            None => (None, None),
        },
        None => (clone_opt(&color.fg), clone_opt(&color.bg)),
    }
}

// ── Hot-reload debounce ──────────────────────────────────────────────────────

/// `a - b`, or 0 when `b > a` (as `u64::saturating_sub`).
pub open spec fn sat_sub(a: u64, b: u64) -> int {
    if a >= b { a - b } else { 0 }
}

/// Event `i` ends a burst: it is the last one, or the next comes more than `w` later.
pub open spec fn ends_burst(ev: Seq<u64>, w: u64, i: int) -> bool {
    i + 1 >= ev.len() || sat_sub(ev[i + 1], ev[i]) > w
}

/// The fire times produced by the first `n` events: `t + w` for each event `t`
/// that ends a burst.
pub open spec fn fires_upto(ev: Seq<u64>, w: u64, n: nat) -> Seq<int>
    decreases n,
{
    if n == 0 {
        Seq::empty()
    } else {
        let f = fires_upto(ev, w, (n - 1) as nat);
        if ends_burst(ev, w, n - 1) {
            f.push(ev[n - 1] + w)
        } else {
            f
        }
    }
}

/// The fire times for the whole event list.
pub open spec fn fires(ev: Seq<u64>, w: u64) -> Seq<int> {
    fires_upto(ev, w, ev.len())
}

/// Trailing-edge debounce: for event times in milliseconds and a window, the
/// times at which a fire occurs. Events at most `window_ms` apart form one
/// burst, which fires once, `window_ms` after its last event.
pub fn debounce_trailing(events_ms: &[u64], window_ms: u64) -> (r: Vec<u64>)
    requires
        forall|i: int| 0 <= i < events_ms@.len() && ends_burst(events_ms@, window_ms, i)
            ==> #[trigger] events_ms@[i] + window_ms <= u64::MAX,
    ensures
        r@.len() == fires(events_ms@, window_ms).len(),
        forall|k: int| 0 <= k < r@.len() ==> r@[k] == #[trigger] fires(events_ms@, window_ms)[k],
{
    let ghost ev = events_ms@;
    let mut out: Vec<u64> = Vec::new();
    let mut i: usize = 0;
    while i < events_ms.len()
        invariant
            i <= events_ms@.len(),
            ev == events_ms@,
            forall|j: int| 0 <= j < ev.len() && ends_burst(ev, window_ms, j)
                ==> #[trigger] ev[j] + window_ms <= u64::MAX,
            out@.len() == fires_upto(ev, window_ms, i as nat).len(),
            forall|k: int| 0 <= k < out@.len() ==> out@[k] == #[trigger] fires_upto(ev, window_ms, i as nat)[k],
        decreases events_ms@.len() - i,
    {
        let t = events_ms[i];
        let ends = if i + 1 < events_ms.len() {
            events_ms[i + 1].saturating_sub(t) > window_ms
        } else {
            true
        };
        if ends {
            assert(ev[i as int] + window_ms <= u64::MAX);
            out.push(t + window_ms);
        }
        i = i + 1;
    }
    out
}

proof fn lemma_burst_prefix(ev: Seq<u64>, w: u64, n: nat)
    requires
        1 <= n <= ev.len(),
        forall|i: int| 0 <= i < ev.len() - 1 ==> sat_sub(#[trigger] ev[i + 1], ev[i]) <= w,
    ensures
        fires_upto(ev, w, n) == (if n == ev.len() { seq![ev[n - 1] + w] } else { Seq::<int>::empty() }),
    decreases n,
{
    if n > 1 {
        lemma_burst_prefix(ev, w, (n - 1) as nat);
    } else {
        assert(fires_upto(ev, w, 0) =~= Seq::<int>::empty());
    }
    assert(fires_upto(ev, w, (n - 1) as nat) =~= Seq::<int>::empty());
    if n < ev.len() {
        let i = n - 1;
        assert(sat_sub(ev[i + 1], ev[i]) <= w);
        assert(!ends_burst(ev, w, i));
        assert(fires_upto(ev, w, n) == fires_upto(ev, w, (n - 1) as nat));
    } else {
        assert(fires_upto(ev, w, n) =~= seq![ev[n - 1] + w]);
    }
}

/// A burst whose consecutive events are never more than the window apart
/// coalesces into a single fire, one window after its last event.
pub proof fn law_burst_fires_once(ev: Seq<u64>, w: u64)
    requires
        ev.len() > 0,
        forall|i: int| 0 <= i < ev.len() - 1 ==> sat_sub(#[trigger] ev[i + 1], ev[i]) <= w,
    ensures
        fires(ev, w) == seq![ev.last() + w],
{
    lemma_burst_prefix(ev, w, ev.len());
}

/// The last event always fires, one window after it; no events, no fire.
pub proof fn law_last_event_fires(ev: Seq<u64>, w: u64)
    ensures
        ev.len() == 0 ==> fires(ev, w).len() == 0,
        ev.len() > 0 ==> fires(ev, w).len() > 0 && fires(ev, w).last() == ev.last() + w,
{
    if ev.len() > 0 {
        assert(ends_burst(ev, w, ev.len() - 1));
        assert(fires(ev, w) == fires_upto(ev, w, (ev.len() - 1) as nat).push(ev[ev.len() - 1] + w));
    }
}

proof fn lemma_fires_len(ev: Seq<u64>, w: u64, n: nat)
    requires
        n <= ev.len(),
    ensures
        fires_upto(ev, w, n).len() <= n,
    decreases n,
{
    if n > 0 {
        lemma_fires_len(ev, w, (n - 1) as nat);
    }
}

/// There are never more fires than events.
pub proof fn law_fires_at_most_events(ev: Seq<u64>, w: u64)
    ensures
        fires(ev, w).len() <= ev.len(),
{
    lemma_fires_len(ev, w, ev.len());
}

/// Path of a vault's own appearance file: `<vault>/.qwert/appearance.toml`.
pub fn vault_appearance_path(vault_root: &str) -> (r: String)
    ensures
        r@ == crate::paths::path_join(crate::paths::path_join(vault_root@, ".qwert"@), "appearance.toml"@),
{
    let d = crate::paths::join(vault_root, ".qwert");
    crate::paths::join(d.as_str(), "appearance.toml")
}

/// The CSS keys an entry can have, in production order.
pub open spec fn css_key_order() -> Seq<Seq<char>> {
    seq![
        "data-theme"@, "--qw-fg"@, "--qw-bg"@, "--qw-cm-keyword"@, "--qw-cm-string"@, "--qw-cm-comment"@,
        "--qw-cm-heading"@, "--qw-cm-link"@, "--qw-cursor"@, "--qw-selection-bg"@, "--qw-font-size"@,
        "--qw-font-family"@, "--qw-line-height"@, "--qw-letter-spacing"@, "--qw-word-spacing"@,
        "--qw-editor-max-width"@
    ]
}

/// A key's signature: its length, its sixth and its ninth character.
pub open spec fn key_sig(k: Seq<char>) -> int {
    k.len() * 1000000 + (k[5] as u32) * 1000 + if k.len() > 8 { k[8] as u32 as int } else { 0 }
}

proof fn lemma_css_key_sigs()
    ensures
        forall|a: int, b: int| 0 <= a < b < 16 ==> key_sig(css_key_order()[a]) < key_sig(css_key_order()[b]) || key_sig(css_key_order()[a]) > key_sig(css_key_order()[b]),
{
    reveal_strlit("data-theme");
    reveal_strlit("--qw-fg");
    reveal_strlit("--qw-bg");
    reveal_strlit("--qw-cm-keyword");
    reveal_strlit("--qw-cm-string");
    reveal_strlit("--qw-cm-comment");
    reveal_strlit("--qw-cm-heading");
    reveal_strlit("--qw-cm-link");
    reveal_strlit("--qw-cursor");
    reveal_strlit("--qw-selection-bg");
    reveal_strlit("--qw-font-size");
    reveal_strlit("--qw-font-family");
    reveal_strlit("--qw-line-height");
    reveal_strlit("--qw-letter-spacing");
    reveal_strlit("--qw-word-spacing");
    reveal_strlit("--qw-editor-max-width");
    let o = css_key_order();
    assert(key_sig(o[0]) == 10116109);
    assert(key_sig(o[1]) == 7102000);
    assert(key_sig(o[2]) == 7098000);
    assert(key_sig(o[3]) == 15099107);
    assert(key_sig(o[4]) == 14099115);
    assert(key_sig(o[5]) == 15099099);
    assert(key_sig(o[6]) == 15099104);
    assert(key_sig(o[7]) == 12099108);
    assert(key_sig(o[8]) == 11099115);
    assert(key_sig(o[9]) == 17115101);
    assert(key_sig(o[10]) == 14102116);
    assert(key_sig(o[11]) == 16102116);
    assert(key_sig(o[12]) == 16108101);
    assert(key_sig(o[13]) == 19108116);
    assert(key_sig(o[14]) == 17119100);
    assert(key_sig(o[15]) == 21101116);
}

/// `r` gives, for each entry of `e`, the rank of its key in
/// [`css_key_order`], and the ranks strictly increase.
pub open spec fn ranked(e: Entries, r: Seq<int>) -> bool {
    &&& e.len() == r.len()
    &&& forall|i: int| 0 <= i < r.len() ==> 0 <= #[trigger] r[i] < 16 && e[i].0 == css_key_order()[r[i]]
    &&& forall|i: int, j: int| 0 <= i < j < r.len() ==> #[trigger] r[i] < #[trigger] r[j]
}

/// Ranks strictly below `hi` and at least `lo`.
pub open spec fn ranks_within(r: Seq<int>, lo: int, hi: int) -> bool {
    forall|i: int| 0 <= i < r.len() ==> lo <= #[trigger] r[i] < hi
}

proof fn lemma_ranked_concat(a: Entries, ra: Seq<int>, b: Entries, rb: Seq<int>, lo: int, mid: int, hi: int)
    requires
        ranked(a, ra),
        ranked(b, rb),
        ranks_within(ra, lo, mid),
        ranks_within(rb, mid, hi),
        lo <= mid <= hi,
    ensures
        ranked(a + b, ra + rb),
        ranks_within(ra + rb, lo, hi),
{
    let e = a + b;
    let r = ra + rb;
    assert forall|i: int| 0 <= i < r.len() implies 0 <= #[trigger] r[i] < 16 && e[i].0 == css_key_order()[r[i]] by {
        if i >= ra.len() {
            assert(r[i] == rb[i - ra.len()]);
            assert(e[i] == b[i - ra.len()]);
        }
    }
    assert forall|i: int, j: int| 0 <= i < j < r.len() implies #[trigger] r[i] < #[trigger] r[j] by {
        if j < ra.len() {
        } else if i >= ra.len() {
            assert(r[i] == rb[i - ra.len()]);
            assert(r[j] == rb[j - ra.len()]);
        } else {
            assert(r[j] == rb[j - ra.len()]);
        }
    }
    assert forall|i: int| 0 <= i < r.len() implies lo <= #[trigger] r[i] < hi by {
        if i >= ra.len() {
            assert(r[i] == rb[i - ra.len()]);
        } else {
            assert(r[i] == ra[i]);
        }
    }
}

/// The ranks of a one-or-no-entry part with key rank `k`.
pub open spec fn single_ranks(e: Entries, k: int) -> Seq<int> {
    if e.len() == 0 { seq![] } else { seq![k] }
}

proof fn lemma_color_entry_ranked(k: int, v: Option<String>)
    requires
        0 <= k < 16,
    ensures
        ranked(color_entry(css_key_order()[k], v), single_ranks(color_entry(css_key_order()[k], v), k)),
        ranks_within(single_ranks(color_entry(css_key_order()[k], v), k), k, k + 1),
{
}

proof fn lemma_dim_entry_ranked(k: int, val: Seq<char>)
    requires
        0 <= k < 16,
    ensures
        ranked(dim_entry(css_key_order()[k], val), single_ranks(dim_entry(css_key_order()[k], val), k)),
        ranks_within(single_ranks(dim_entry(css_key_order()[k], val), k), k, k + 1),
{
}

proof fn lemma_theme_ranked(c: ColorConfig) -> (r: Seq<int>)
    ensures
        ranked(theme_entries(c), r),
        ranks_within(r, 0, 3),
{
    let o = css_key_order();
    match c.preset {
        Some(p) => {
            let r = if allowed_preset(p@) { seq![0int] } else { Seq::<int>::empty() };
            r
        },
        None => {
            lemma_color_entry_ranked(1, c.fg);
            lemma_color_entry_ranked(2, c.bg);
            let a = color_entry(o[1], c.fg);
            let b = color_entry(o[2], c.bg);
            lemma_ranked_concat(a, single_ranks(a, 1), b, single_ranks(b, 2), 0, 2, 3);
            single_ranks(a, 1) + single_ranks(b, 2)
        },
    }
}

proof fn lemma_advanced_ranked(v: AdvancedColorConfig) -> (r: Seq<int>)
    ensures
        ranked(advanced_entries(v), r),
        ranks_within(r, 3, 10),
{
    let o = css_key_order();
    let e3 = color_entry(o[3], v.cm_keyword);
    let e4 = color_entry(o[4], v.cm_string);
    let e5 = color_entry(o[5], v.cm_comment);
    let e6 = color_entry(o[6], v.cm_heading);
    let e7 = color_entry(o[7], v.cm_link);
    let e8 = color_entry(o[8], v.cursor);
    let e9 = color_entry(o[9], v.selection_bg);
    lemma_color_entry_ranked(3, v.cm_keyword);
    lemma_color_entry_ranked(4, v.cm_string);
    lemma_color_entry_ranked(5, v.cm_comment);
    lemma_color_entry_ranked(6, v.cm_heading);
    lemma_color_entry_ranked(7, v.cm_link);
    lemma_color_entry_ranked(8, v.cursor);
    lemma_color_entry_ranked(9, v.selection_bg);
    let r3 = single_ranks(e3, 3);
    let r4 = single_ranks(e4, 4);
    let r5 = single_ranks(e5, 5);
    let r6 = single_ranks(e6, 6);
    let r7 = single_ranks(e7, 7);
    let r8 = single_ranks(e8, 8);
    let r9 = single_ranks(e9, 9);
    lemma_ranked_concat(e3, r3, e4, r4, 3, 4, 5);
    lemma_ranked_concat(e3 + e4, r3 + r4, e5, r5, 3, 5, 6);
    lemma_ranked_concat(e3 + e4 + e5, r3 + r4 + r5, e6, r6, 3, 6, 7);
    lemma_ranked_concat(e3 + e4 + e5 + e6, r3 + r4 + r5 + r6, e7, r7, 3, 7, 8);
    lemma_ranked_concat(e3 + e4 + e5 + e6 + e7, r3 + r4 + r5 + r6 + r7, e8, r8, 3, 8, 9);
    lemma_ranked_concat(e3 + e4 + e5 + e6 + e7 + e8, r3 + r4 + r5 + r6 + r7 + r8, e9, r9, 3, 9, 10);
    r3 + r4 + r5 + r6 + r7 + r8 + r9
}

proof fn lemma_text_ranked(t: TextConfig) -> (r: Seq<int>)
    ensures
        ranked(text_entries(t), r),
        ranks_within(r, 10, 16),
{
    let o = css_key_order();
    let e10 = dim_entry(o[10], dec_digits(t.font_size as nat) + "px"@);
    let e11: Entries = if valid_font_family(t.font_family@) { seq![(o[11], t.font_family@)] } else { seq![] };
    let e12 = dim_entry(o[12], t.line_height@);
    let e13 = dim_entry(o[13], t.letter_spacing@ + "em"@);
    let e14 = dim_entry(o[14], t.word_spacing@ + "em"@);
    let e15 = dim_entry(o[15], dec_digits(t.editor_max_width as nat) + "ch"@);
    lemma_dim_entry_ranked(10, dec_digits(t.font_size as nat) + "px"@);
    lemma_dim_entry_ranked(12, t.line_height@);
    lemma_dim_entry_ranked(13, t.letter_spacing@ + "em"@);
    lemma_dim_entry_ranked(14, t.word_spacing@ + "em"@);
    lemma_dim_entry_ranked(15, dec_digits(t.editor_max_width as nat) + "ch"@);
    let r10 = single_ranks(e10, 10);
    let r11 = single_ranks(e11, 11);
    let r12 = single_ranks(e12, 12);
    let r13 = single_ranks(e13, 13);
    let r14 = single_ranks(e14, 14);
    let r15 = single_ranks(e15, 15);
    assert(ranked(e11, r11));
    lemma_ranked_concat(e10, r10, e11, r11, 10, 11, 12);
    lemma_ranked_concat(e10 + e11, r10 + r11, e12, r12, 10, 12, 13);
    lemma_ranked_concat(e10 + e11 + e12, r10 + r11 + r12, e13, r13, 10, 13, 14);
    lemma_ranked_concat(e10 + e11 + e12 + e13, r10 + r11 + r12 + r13, e14, r14, 10, 14, 15);
    lemma_ranked_concat(e10 + e11 + e12 + e13 + e14, r10 + r11 + r12 + r13 + r14, e15, r15, 10, 15, 16);
    assert(text_entries(t) == e10 + e11 + e12 + e13 + e14 + e15);
    r10 + r11 + r12 + r13 + r14 + r15
}

/// No CSS key is produced twice, so the entries form a map from key to value.
pub proof fn law_css_keys_distinct(c: AppearanceConfig)
    ensures
        forall|i: int, j: int| 0 <= i < j < css_entries(c).len() ==> (#[trigger] css_entries(c)[i]).0 != (#[trigger] css_entries(c)[j]).0,
{
    let r1 = lemma_theme_ranked(c.color);
    let r2 = lemma_advanced_ranked(c.color.advanced);
    let r3 = lemma_text_ranked(c.text);
    let a = theme_entries(c.color);
    let b = advanced_entries(c.color.advanced);
    let t = text_entries(c.text);
    lemma_ranked_concat(a, r1, b, r2, 0, 3, 10);
    lemma_ranked_concat(a + b, r1 + r2, t, r3, 0, 10, 16);
    let r = r1 + r2 + r3;
    let e = css_entries(c);
    assert(e == a + b + t);
    lemma_css_key_sigs();
    assert forall|i: int, j: int| 0 <= i < j < e.len() implies (#[trigger] e[i]).0 != (#[trigger] e[j]).0 by {
        assert(r[i] < r[j]);
        let o = css_key_order();
        assert(key_sig(o[r[i]]) != key_sig(o[r[j]]));
    }
}


/// Every entry is the theme key with a built-in preset, or has a value that
/// holds none of the dangerous patterns.
pub open spec fn gated(e: Entries) -> bool {
    forall|i: int| 0 <= i < e.len() ==> (#[trigger] e[i]).0 == "data-theme"@ && allowed_preset(e[i].1)
        || !is_dangerous_text(e[i].1)
}

proof fn lemma_gated_concat(a: Entries, b: Entries)
    requires
        gated(a),
        gated(b),
    ensures
        gated(a + b),
{
    assert forall|i: int| 0 <= i < (a + b).len() implies (#[trigger] (a + b)[i]).0 == "data-theme"@
        && allowed_preset((a + b)[i].1) || !is_dangerous_text((a + b)[i].1) by {
        if i < a.len() {
            assert((a + b)[i] == a[i]);
        } else {
            assert((a + b)[i] == b[i - a.len()]);
        }
    }
}

/// Everything that reaches the front end as a CSS value has passed the
/// gatekeeper: it is a built-in preset name under `data-theme`, or a value
/// with no `url(`, `expression(`, `javascript:`, `import`, `@`, `<`, `>`,
/// `{` or `}` in it. A malicious appearance file yields at worst an odd theme.
pub proof fn law_css_values_are_gated(c: AppearanceConfig)
    ensures
        gated(css_entries(c)),
{
    let a = theme_entries(c.color);
    let b = advanced_entries(c.color.advanced);
    let t = text_entries(c.text);
    let v = c.color.advanced;
    lemma_gated_concat(color_entry("--qw-fg"@, c.color.fg), color_entry("--qw-bg"@, c.color.bg));
    lemma_gated_concat(color_entry("--qw-cm-keyword"@, v.cm_keyword), color_entry("--qw-cm-string"@, v.cm_string));
    let b2 = color_entry("--qw-cm-keyword"@, v.cm_keyword) + color_entry("--qw-cm-string"@, v.cm_string);
    lemma_gated_concat(b2, color_entry("--qw-cm-comment"@, v.cm_comment));
    let b3 = b2 + color_entry("--qw-cm-comment"@, v.cm_comment);
    lemma_gated_concat(b3, color_entry("--qw-cm-heading"@, v.cm_heading));
    let b4 = b3 + color_entry("--qw-cm-heading"@, v.cm_heading);
    lemma_gated_concat(b4, color_entry("--qw-cm-link"@, v.cm_link));
    let b5 = b4 + color_entry("--qw-cm-link"@, v.cm_link);
    lemma_gated_concat(b5, color_entry("--qw-cursor"@, v.cursor));
    let b6 = b5 + color_entry("--qw-cursor"@, v.cursor);
    lemma_gated_concat(b6, color_entry("--qw-selection-bg"@, v.selection_bg));
    assert(b == b6 + color_entry("--qw-selection-bg"@, v.selection_bg));
    let x = c.text;
    let t1 = dim_entry("--qw-font-size"@, dec_digits(x.font_size as nat) + "px"@);
    let t2: Entries = if valid_font_family(x.font_family@) { seq![("--qw-font-family"@, x.font_family@)] } else { seq![] };
    let t3 = dim_entry("--qw-line-height"@, x.line_height@);
    let t4 = dim_entry("--qw-letter-spacing"@, x.letter_spacing@ + "em"@);
    let t5 = dim_entry("--qw-word-spacing"@, x.word_spacing@ + "em"@);
    let t6 = dim_entry("--qw-editor-max-width"@, dec_digits(x.editor_max_width as nat) + "ch"@);
    lemma_gated_concat(t1, t2);
    lemma_gated_concat(t1 + t2, t3);
    lemma_gated_concat(t1 + t2 + t3, t4);
    lemma_gated_concat(t1 + t2 + t3 + t4, t5);
    lemma_gated_concat(t1 + t2 + t3 + t4 + t5, t6);
    assert(t == t1 + t2 + t3 + t4 + t5 + t6);
    lemma_gated_concat(a, b);
    lemma_gated_concat(a + b, t);
}

} // verus!
