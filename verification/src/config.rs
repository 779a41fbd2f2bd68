//! Behaviour settings (`config.toml`) and keybinding validation.

use vstd::prelude::*;
use crate::text::{
    split_char, split_chars, ascii_ci_eq, ascii_ci_equal, chars_eq, chars_of, lowercase, owned, push_str, str_eq, string_from_chars, trim,
    trim_bounds, unicode_lowercase,
};

verus! {

/// All behaviour settings; every section falls back to its defaults.
#[derive(Debug, Clone)]
pub struct Config {
    pub general: GeneralConfig,
    pub editor: EditorConfig,
    pub preview: PreviewConfig,
    pub revision: RevisionConfig,
    pub sanitize: SanitizeConfig,
    pub keybindings: KeybindingsConfig,
}

#[derive(Debug, Clone)]
pub struct GeneralConfig {
    pub restore_last_vault: bool,
    pub autosave_delay_ms: u64,
}

#[derive(Debug, Clone)]
pub struct EditorConfig {
    pub show_line_numbers: bool,
    pub word_wrap: bool,
    pub tab_size: u32,
    pub use_spaces: bool,
    pub vim_mode: bool,
}

#[derive(Debug, Clone)]
pub struct PreviewConfig {
    pub default_view: String,
    pub sync_scroll: bool,
    pub render_mermaid: bool,
    pub render_math: bool,
}

#[derive(Debug, Clone)]
pub struct RevisionConfig {
    pub naming: String,
    pub confirm_before_execute: bool,
    pub excluded_dirs: Vec<String>,
}

#[derive(Debug, Clone)]
pub struct SanitizeConfig {
    /// Invisible-character detection on or off (default on).
    pub warn_invisible_chars: bool,
}

#[derive(Debug, Clone, PartialEq)]
pub struct KeybindingsConfig {
    pub save: String,
    pub new_note: String,
    pub command_palette: String,
    pub full_search: String,
    pub view_mode_toggle: String,
    pub sidebar_toggle: String,
    pub settings: String,
}

impl Default for GeneralConfig {
    fn default() -> (r: Self)
        ensures
            r.restore_last_vault,
            r.autosave_delay_ms == 3000,
    {
        GeneralConfig { restore_last_vault: true, autosave_delay_ms: 3000 }
    }
}

impl Default for EditorConfig {
    fn default() -> (r: Self)
        ensures
            r.show_line_numbers,
            r.word_wrap,
            r.tab_size == 4,
            r.use_spaces,
            !r.vim_mode,
    {
        EditorConfig { show_line_numbers: true, word_wrap: true, tab_size: 4, use_spaces: true, vim_mode: false }
    }
}

impl Default for PreviewConfig {
    fn default() -> (r: Self)
        ensures
            r.default_view@ == "split"@,
            r.sync_scroll,
            r.render_mermaid,
            r.render_math,
    {
        PreviewConfig { default_view: owned("split"), sync_scroll: true, render_mermaid: true, render_math: true }
    }
}

impl Default for RevisionConfig {
    fn default() -> (r: Self)
        ensures
            r.naming@ == "increment"@,
            r.confirm_before_execute,
            r.excluded_dirs@.len() == 0,
    {
        RevisionConfig { naming: owned("increment"), confirm_before_execute: true, excluded_dirs: Vec::new() }
    }
}

impl Default for SanitizeConfig {
    fn default() -> (r: Self)
        ensures
            r.warn_invisible_chars,
    {
        SanitizeConfig { warn_invisible_chars: true }
    }
}

impl Default for KeybindingsConfig {
    fn default() -> (r: Self)
        ensures
            r.save@ == "Ctrl+S"@,
            r.new_note@ == "Ctrl+N"@,
            r.command_palette@ == "Ctrl+P"@,
            r.full_search@ == "Ctrl+Shift+F"@,
            r.view_mode_toggle@ == "Ctrl+E"@,
            r.sidebar_toggle@ == "Ctrl+B"@,
            r.settings@ == "Ctrl+,"@,
    {
        KeybindingsConfig {
            save: owned("Ctrl+S"),
            new_note: owned("Ctrl+N"),
            command_palette: owned("Ctrl+P"),
            full_search: owned("Ctrl+Shift+F"),
            view_mode_toggle: owned("Ctrl+E"),
            sidebar_toggle: owned("Ctrl+B"),
            settings: owned("Ctrl+,"),
        }
    }
}

impl Default for Config {
    fn default() -> (r: Self)
        ensures
            r.general.restore_last_vault && r.general.autosave_delay_ms == 3000,
            r.editor.show_line_numbers && r.editor.word_wrap && r.editor.tab_size == 4
                && r.editor.use_spaces && !r.editor.vim_mode,
            r.preview.default_view@ == "split"@ && r.preview.sync_scroll
                && r.preview.render_mermaid && r.preview.render_math,
            r.revision.naming@ == "increment"@ && r.revision.confirm_before_execute
                && r.revision.excluded_dirs@.len() == 0,
            r.sanitize.warn_invisible_chars,
            r.keybindings.save@ == "Ctrl+S"@ && r.keybindings.new_note@ == "Ctrl+N"@
                && r.keybindings.command_palette@ == "Ctrl+P"@
                && r.keybindings.full_search@ == "Ctrl+Shift+F"@
                && r.keybindings.view_mode_toggle@ == "Ctrl+E"@
                && r.keybindings.sidebar_toggle@ == "Ctrl+B"@
                && r.keybindings.settings@ == "Ctrl+,"@,
    {
        Config {
            general: GeneralConfig::default(),
            editor: EditorConfig::default(),
            preview: PreviewConfig::default(),
            revision: RevisionConfig::default(),
            sanitize: SanitizeConfig::default(),
            keybindings: KeybindingsConfig::default(),
        }
    }
}

// ── Key specifications ───────────────────────────────────────────────────────

/// One of the four accepted modifier names.
pub open spec fn is_modifier(m: Seq<char>) -> bool {
    m == "Ctrl"@ || m == "Alt"@ || m == "Shift"@ || m == "Meta"@
}

/// A key specification: at least one modifier from `is_modifier`, each followed
/// by `+`, then a key name that is not blank.
pub open spec fn valid_key_spec(s: Seq<char>) -> bool {
    let parts = split_char(s, '+');
    &&& parts.len() >= 2
    &&& trim(parts.last()).len() > 0
    &&& forall|k: int| 0 <= k < parts.len() - 1 ==> is_modifier(#[trigger] parts[k])
}

fn modifier_name(m: &Vec<char>) -> (r: bool)
    ensures
        r == is_modifier(m@),
{
    str_eq(m, "Ctrl") || str_eq(m, "Alt") || str_eq(m, "Shift") || str_eq(m, "Meta")
}

/// Whether `spec` is a syntactically valid key specification, such as
/// `Ctrl+S` or `Ctrl+Shift+F`.
pub fn is_valid_key_spec(spec: &str) -> (r: bool)
    ensures
        r == valid_key_spec(spec@),
{
    let v = chars_of(spec);
    let parts = split_chars(&v, '+');
    if parts.len() < 2 {
        return false;
    }
    let last = parts.len() - 1;
    let (a, b) = trim_bounds(&parts[last], 0, parts[last].len());
    proof {
        assert(parts@[last as int]@.subrange(0, parts@[last as int]@.len() as int) =~= parts@[last as int]@);
    }
    if a == b {
        return false;
    }
    let mut k: usize = 0;
    while k < last
        invariant
            k <= last,
            last + 1 == parts@.len(),
            parts@.len() == split_char(spec@, '+').len(),
            forall|j: int| 0 <= j < parts@.len() ==> (#[trigger] parts@[j])@ == split_char(spec@, '+')[j],
            forall|j: int| 0 <= j < k ==> is_modifier(#[trigger] split_char(spec@, '+')[j]),
        decreases last - k,
    {
        assert(parts@[k as int]@ == split_char(spec@, '+')[k as int]);
        if !modifier_name(&parts[k]) {
            return false;
        }
        k = k + 1;
    }
    true
}

// ── Duplicate detection ──────────────────────────────────────────────────────

/// The seven key specifications of a keybinding table, in declaration order.
pub open spec fn kb_specs(kb: KeybindingsConfig) -> Seq<Seq<char>> {
    seq![kb.save@, kb.new_note@, kb.command_palette@, kb.full_search@,
        kb.view_mode_toggle@, kb.sidebar_toggle@, kb.settings@]
}

/// Some earlier spec lowercases to the same text as `specs[i]`.
pub open spec fn seen_before(specs: Seq<Seq<char>>, i: int) -> bool {
    exists|j: int| 0 <= j < i && unicode_lowercase(#[trigger] specs[j]) == unicode_lowercase(specs[i])
}

/// The duplicates among the first `n` specs: each spec whose lowercase form came
/// earlier, unless an ASCII-case-insensitively equal one is already listed.
pub open spec fn dups_upto(specs: Seq<Seq<char>>, n: nat) -> Seq<Seq<char>>
    decreases n,
{
    if n == 0 {
        Seq::empty()
    } else {
        let d = dups_upto(specs, (n - 1) as nat);
        let s = specs[n - 1];
        if seen_before(specs, n - 1) && !(exists|k: int| 0 <= k < d.len() && ascii_ci_eq(#[trigger] d[k], s)) {
            d.push(s)
        } else {
            d
        }
    }
}

fn kb_spec_list(kb: &KeybindingsConfig) -> (r: Vec<&str>)
    ensures
        r@.len() == 7,
        forall|i: int| 0 <= i < 7 ==> (#[trigger] r@[i])@ == kb_specs(*kb)[i],
{
    let mut v: Vec<&str> = Vec::new();
    v.push(kb.save.as_str());
    v.push(kb.new_note.as_str());
    v.push(kb.command_palette.as_str());
    v.push(kb.full_search.as_str());
    v.push(kb.view_mode_toggle.as_str());
    v.push(kb.sidebar_toggle.as_str());
    v.push(kb.settings.as_str());
    v
}

/// Key specifications bound to more than one action (compared ignoring case),
/// each listed once, in the order in which the repeat is met.
pub fn duplicate_key_specs(kb: &KeybindingsConfig) -> (r: Vec<String>)
    ensures
        r@.len() == dups_upto(kb_specs(*kb), 7).len(),
        forall|i: int| 0 <= i < r@.len() ==> (#[trigger] r@[i])@ == dups_upto(kb_specs(*kb), 7)[i],
{
    let specs = kb_spec_list(kb);
    let ghost sv = kb_specs(*kb);
    let mut seen: Vec<Vec<char>> = Vec::new();
    let mut dups: Vec<String> = Vec::new();
    let mut dup_chars: Vec<Vec<char>> = Vec::new();
    let mut i: usize = 0;
    while i < 7
        invariant
            i <= 7,
            specs@.len() == 7,
            forall|j: int| 0 <= j < 7 ==> (#[trigger] specs@[j])@ == sv[j],
            sv == kb_specs(*kb),
            seen@.len() == i,
            forall|j: int| 0 <= j < i ==> (#[trigger] seen@[j])@ == unicode_lowercase(sv[j]),
            dups@.len() == dup_chars@.len(),
            dups@.len() == dups_upto(sv, i as nat).len(),
            forall|j: int| 0 <= j < dups@.len() ==> (#[trigger] dups@[j])@ == dups_upto(sv, i as nat)[j],
            forall|j: int| 0 <= j < dups@.len() ==> (#[trigger] dup_chars@[j])@ == dups@[j]@,
        decreases 7 - i,
    {
        let spec = specs[i];
        let lower_s = lowercase(spec);
        let lower = chars_of(lower_s.as_str());
        let mut found = false;
        let mut j: usize = 0;
        while j < seen.len()
            invariant
                j <= seen@.len() == i,
                forall|k: int| 0 <= k < i ==> (#[trigger] seen@[k])@ == unicode_lowercase(sv[k]),
                lower@ == unicode_lowercase(sv[i as int]),
                found <==> exists|k: int| 0 <= k < j && unicode_lowercase(#[trigger] sv[k]) == unicode_lowercase(sv[i as int]),
            decreases seen@.len() - j,
        {
            if chars_eq(&seen[j], &lower) {
                found = true;
            }
            j = j + 1;
        }
        let cv = chars_of(spec);
        let mut listed = false;
        let mut k: usize = 0;
        while k < dup_chars.len()
            invariant
                k <= dup_chars@.len(),
                dups@.len() == dup_chars@.len(),
                forall|m: int| 0 <= m < dups@.len() ==> (#[trigger] dup_chars@[m])@ == dups@[m]@,
                cv@ == sv[i as int],
                listed <==> exists|m: int| 0 <= m < k && ascii_ci_eq(#[trigger] dup_chars@[m]@, sv[i as int]),
            decreases dup_chars@.len() - k,
        {
            if ascii_ci_equal(&dup_chars[k], &cv) {
                listed = true;
            }
            k = k + 1;
        }
        proof {
            let d = dups_upto(sv, i as nat);
            if listed {
                let m = choose|m: int| 0 <= m < k && ascii_ci_eq(#[trigger] dup_chars@[m]@, sv[i as int]);
                assert(ascii_ci_eq(d[m], sv[i as int]));
            } else {
                assert forall|m: int| 0 <= m < d.len() implies !ascii_ci_eq(#[trigger] d[m], sv[i as int]) by {
                    assert(dup_chars@[m]@ == d[m]);
                }
            }
        }
        if found && !listed {
            dups.push(string_from_chars(&cv));
            dup_chars.push(cv);
        }
        seen.push(lower);
        i = i + 1;
    }
    dups
}


// ── Saving keybindings ───────────────────────────────────────────────────────

/// The `{:?}` text of a string: quoted, with quotes, backslashes and
/// non-printing characters escaped as Rust writes them.
pub uninterp spec fn debug_text(s: Seq<char>) -> Seq<char>;

/// `format!("{:?}", s)`, named [`debug_text`].
#[verifier::external_body]
fn debug_quoted(s: &str) -> (r: String)
    ensures
        r@ == debug_text(s@),
{
    format!("{:?}", s)
}

/// The action names of a keybinding table, in declaration order.
pub open spec fn kb_names() -> Seq<Seq<char>> {
    seq!["save"@, "new_note"@, "command_palette"@, "full_search"@, "view_mode_toggle"@, "sidebar_toggle"@,
        "settings"@]
}

/// The first of the first `n` specs that is not a valid key specification.
pub open spec fn first_invalid(specs: Seq<Seq<char>>, n: nat) -> Option<int>
    decreases n,
{
    if n == 0 {
        None
    } else {
        match first_invalid(specs, (n - 1) as nat) {
            Some(i) => Some(i),
            None => if valid_key_spec(specs[n - 1]) { None } else { Some(n - 1) },
        }
    }
}

/// `parts` joined with `sep` between consecutive parts.
pub open spec fn joined(parts: Seq<Seq<char>>, sep: Seq<char>) -> Seq<char>
    decreases parts.len(),
{
    if parts.len() == 0 {
        Seq::empty()
    } else if parts.len() == 1 {
        parts[0]
    } else {
        joined(parts.drop_last(), sep) + sep + parts.last()
    }
}

/// Why a keybinding table cannot be saved: the first invalid specification,
/// else the duplicated ones; `None` when it can be saved.
pub open spec fn keybindings_problem(kb: KeybindingsConfig) -> Option<Seq<char>> {
    let specs = kb_specs(kb);
    match first_invalid(specs, 7) {
        Some(i) => Some("invalid key spec for "@ + kb_names()[i] + ": "@ + debug_text(specs[i])),
        None => {
            let d = dups_upto(specs, 7);
            if d.len() > 0 { Some("duplicate key specs: "@ + joined(d, ", "@)) } else { None }
        },
    }
}

fn join_strings(parts: &Vec<String>, sep: &str) -> (r: String)
    ensures
        r@ == joined(parts@.map_values(|s: String| s@), sep@),
{
    let ghost pv = parts@.map_values(|s: String| s@);
    let mut out: Vec<char> = Vec::new();
    let mut i: usize = 0;
    while i < parts.len()
        invariant
            i <= parts@.len(),
            pv == parts@.map_values(|s: String| s@),
            out@ == joined(pv.take(i as int), sep@),
        decreases parts@.len() - i,
    {
        assert(pv.take(i + 1).drop_last() =~= pv.take(i as int));
        assert(pv.take(i + 1).last() == parts@[i as int]@);
        if i > 0 {
            push_str(&mut out, sep);
        } else {
            assert(pv.take(1) =~= seq![parts@[0]@]);
        }
        push_str(&mut out, parts[i].as_str());
        i = i + 1;
    }
    assert(pv.take(parts@.len() as int) =~= pv);
    string_from_chars(&out)
}

/// Check a keybinding table before it is saved: every specification valid
/// (checked in declaration order) and none bound twice.
pub fn keybindings_error(kb: &KeybindingsConfig) -> (r: Option<String>)
    ensures
        match r {
            Some(m) => keybindings_problem(*kb) == Some(m@),
            None => keybindings_problem(*kb) is None,
        },
{
    let specs = kb_spec_list(kb);
    let names: Vec<&str> = vec!["save", "new_note", "command_palette", "full_search", "view_mode_toggle",
        "sidebar_toggle", "settings"];
    proof {
        reveal_strlit("save");
        reveal_strlit("new_note");
        reveal_strlit("command_palette");
        reveal_strlit("full_search");
        reveal_strlit("view_mode_toggle");
        reveal_strlit("sidebar_toggle");
        reveal_strlit("settings");
    }
    assert(forall|k: int| 0 <= k < 7 ==> (#[trigger] names@[k])@ == kb_names()[k]);
    let ghost sv = kb_specs(*kb);
    let mut i: usize = 0;
    while i < 7
        invariant
            i <= 7,
            specs@.len() == 7,
            names@.len() == 7,
            sv == kb_specs(*kb),
            forall|k: int| 0 <= k < 7 ==> (#[trigger] specs@[k])@ == sv[k],
            forall|k: int| 0 <= k < 7 ==> (#[trigger] names@[k])@ == kb_names()[k],
            first_invalid(sv, i as nat) is None,
        decreases 7 - i,
    {
        if !is_valid_key_spec(specs[i]) {
            proof {
                assert(first_invalid(sv, (i + 1) as nat) == Some(i as int));
                lemma_first_invalid_stays(sv, (i + 1) as nat, 7);
            }
            let mut m = chars_of("invalid key spec for ");
            push_str(&mut m, names[i]);
            push_str(&mut m, ": ");
            let q = debug_quoted(specs[i]);
            push_str(&mut m, q.as_str());
            return Some(string_from_chars(&m));
        }
        i = i + 1;
    }
    let dups = duplicate_key_specs(kb);
    if dups.len() > 0 {
        let j = join_strings(&dups, ", ");
        proof {
            assert(dups@.map_values(|s: String| s@) =~= dups_upto(sv, 7));
        }
        let mut m = chars_of("duplicate key specs: ");
        push_str(&mut m, j.as_str());
        return Some(string_from_chars(&m));
    }
    None
}

proof fn lemma_first_invalid_stays(specs: Seq<Seq<char>>, n: nat, m: nat)
    requires
        n <= m,
        first_invalid(specs, n) is Some,
    ensures
        first_invalid(specs, m) == first_invalid(specs, n),
    decreases m - n,
{
    if n < m {
        lemma_first_invalid_stays(specs, n, (m - 1) as nat);
    }
}

} // verus!
