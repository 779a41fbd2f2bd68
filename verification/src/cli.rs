//! Command-line conventions: semantic exit codes, output formats, TSV rows
//! and the CLI/GUI mode switch.

use vstd::prelude::*;
use crate::error::{error_text, ActionableError, CoreError};
use crate::text::{chars_of, string_from_chars, str_eq};

verus! {

/// Semantic process exit codes.
#[derive(Debug, Clone, Copy, PartialEq, Eq, Structural)]
pub enum ExitCode {
    Success,
    General,
    Usage,
    NotFound,
    Conflict,
    Validation,
}

/// The numeric value of an exit code.
pub open spec fn exit_value(c: ExitCode) -> i32 {
    match c {
        ExitCode::Success => 0,
        ExitCode::General => 1,
        ExitCode::Usage => 2,
        ExitCode::NotFound => 3,
        ExitCode::Conflict => 4,
        ExitCode::Validation => 5,
    }
}

/// The category name of an exit code.
pub open spec fn exit_category(c: ExitCode) -> Seq<char> {
    match c {
        ExitCode::Success => "success"@,
        ExitCode::General => "general"@,
        ExitCode::Usage => "usage"@,
        ExitCode::NotFound => "not_found"@,
        ExitCode::Conflict => "conflict"@,
        ExitCode::Validation => "validation"@,
    }
}

/// The exit code an error maps to.
pub open spec fn exit_for(e: CoreError) -> ExitCode {
    match e {
        CoreError::NotFound(_) => ExitCode::NotFound,
        CoreError::PathTraversal(_) => ExitCode::Validation,
        CoreError::InvalidPattern(_) => ExitCode::Validation,
        CoreError::AppearanceValidation(_) => ExitCode::Validation,
        CoreError::InvalidUtf8 { .. } => ExitCode::Validation,
        CoreError::AppearanceConflict(_) => ExitCode::Conflict,
        CoreError::Toml(_) => ExitCode::Validation,
        CoreError::TomlSer(_) => ExitCode::Validation,
        CoreError::Json(_) => ExitCode::General,
        CoreError::Io { already_exists, .. } => if already_exists { ExitCode::Conflict } else { ExitCode::General },
    }
}

impl ExitCode {
    /// The process exit status: 0 success, 1 general, 2 usage, 3 not found,
    /// 4 conflict, 5 validation.
    pub fn as_i32(self) -> (r: i32)
        ensures
            r == exit_value(self),
    {
        match self {
            ExitCode::Success => 0,
            ExitCode::General => 1,
            ExitCode::Usage => 2,
            ExitCode::NotFound => 3,
            ExitCode::Conflict => 4,
            ExitCode::Validation => 5,
        }
    }

    /// The category name used in error envelopes.
    pub fn category_str(self) -> (r: &'static str)
        ensures
            r@ == exit_category(self),
    {
        match self {
            ExitCode::Success => "success",
            ExitCode::General => "general",
            ExitCode::Usage => "usage",
            ExitCode::NotFound => "not_found",
            ExitCode::Conflict => "conflict",
            ExitCode::Validation => "validation",
        }
    }

    /// The exit code for an error: not found 3; traversal, invalid pattern,
    /// appearance validation, invalid UTF-8 and TOML errors 5; appearance
    /// conflict and "already exists" I/O errors 4; other errors 1.
    pub fn of_error(e: &CoreError) -> (r: ExitCode)
        ensures
            r == exit_for(*e),
    {
        match e {
            CoreError::NotFound(_) => ExitCode::NotFound,
            CoreError::PathTraversal(_) => ExitCode::Validation,
            CoreError::InvalidPattern(_) => ExitCode::Validation,
            CoreError::AppearanceValidation(_) => ExitCode::Validation,
            CoreError::InvalidUtf8 { .. } => ExitCode::Validation,
            CoreError::AppearanceConflict(_) => ExitCode::Conflict,
            CoreError::Toml(_) => ExitCode::Validation,
            CoreError::TomlSer(_) => ExitCode::Validation,
            CoreError::Json(_) => ExitCode::General,
            CoreError::Io { already_exists, .. } => if *already_exists {
                ExitCode::Conflict
            } else {
                ExitCode::General
            },
        }
    }
}

/// Output formats selectable with `--format`.
#[derive(Debug, Clone, Copy, PartialEq, Eq, Structural)]
pub enum OutputFormat {
    Json,
    Path,
    Text,
    Raw,
    /// Unified diff output (only meaningful for `note revision --dry-run`).
    Diff,
    /// Tab-separated values, one row per result.
    Tsv,
}

// ── TSV ──────────────────────────────────────────────────────────────────────

/// The escaped form of one character in a TSV field.
pub open spec fn tsv_escape_char(c: char) -> Seq<char> {
    if c == '\\' {
        seq!['\\', '\\']
    } else if c == '\t' {
        seq!['\\', 't']
    } else if c == '\n' {
        seq!['\\', 'n']
    } else if c == '\r' {
        seq!['\\', 'r']
    } else {
        seq![c]
    }
}

/// A TSV field value with `\`, tab, LF and CR written as backslash sequences.
pub open spec fn tsv_escaped(s: Seq<char>) -> Seq<char>
    decreases s.len(),
{
    if s.len() == 0 {
        seq![]
    } else {
        tsv_escaped(s.drop_last()) + tsv_escape_char(s.last())
    }
}

/// Escape a single TSV field value so it never breaks column or row
/// boundaries.
pub fn tsv_escape(s: &str) -> (r: String)
    ensures
        r@ == tsv_escaped(s@),
{
    let v = chars_of(s);
    let mut out: Vec<char> = Vec::new();
    let mut i: usize = 0;
    while i < v.len()
        invariant
            i <= v.len(),
            out@ == tsv_escaped(v@.take(i as int)),
        decreases v.len() - i,
    {
        let c = v[i];
        let ghost before = out@;
        if c == '\\' {
            out.push('\\');
            out.push('\\');
        } else if c == '\t' {
            out.push('\\');
            out.push('t');
        } else if c == '\n' {
            out.push('\\');
            out.push('n');
        } else if c == '\r' {
            out.push('\\');
            out.push('r');
        } else {
            out.push(c);
        }
        assert(v@.take(i as int + 1).drop_last() =~= v@.take(i as int));
        assert(out@ =~= before + tsv_escape_char(c));
        i = i + 1;
    }
    assert(v@.take(v.len() as int) =~= v@);
    string_from_chars(&out)
}

/// Escaped fields joined with tabs.
pub open spec fn tsv_joined(fields: Seq<Seq<char>>) -> Seq<char>
    decreases fields.len(),
{
    if fields.len() == 0 {
        seq![]
    } else if fields.len() == 1 {
        tsv_escaped(fields[0])
    } else {
        tsv_joined(fields.drop_last()) + seq!['\t'] + tsv_escaped(fields.last())
    }
}

/// The views of a slice of field strings.
pub open spec fn field_views(fields: Seq<&str>) -> Seq<Seq<char>> {
    fields.map_values(|f: &str| f@)
}

/// Join escaped fields with `\t` into a single TSV row (no trailing newline).
pub fn tsv_row(fields: &[&str]) -> (r: String)
    ensures
        r@ == tsv_joined(field_views(fields@)),
{
    let mut out: Vec<char> = Vec::new();
    let mut i: usize = 0;
    while i < fields.len()
        invariant
            i <= fields@.len(),
            out@ == tsv_joined(field_views(fields@).take(i as int)),
        decreases fields.len() - i,
    {
        let e = tsv_escape(fields[i]);
        let ev = chars_of(e.as_str());
        let ghost before = out@;
        if i > 0 {
            out.push('\t');
        }
        crate::text::push_all(&mut out, &ev);
        assert(field_views(fields@).take(i as int + 1).drop_last() =~= field_views(fields@).take(i as int));
        assert(field_views(fields@).take(i as int + 1).last() == fields@[i as int]@);
        if i == 0 {
            assert(out@ =~= tsv_escaped(fields@[0]@));
        } else {
            assert(out@ =~= before + seq!['\t'] + tsv_escaped(fields@[i as int]@));
        }
        i = i + 1;
    }
    assert(field_views(fields@).take(fields@.len() as int) =~= field_views(fields@));
    string_from_chars(&out)
}

/// Undo TSV escaping: backslash sequences back to the characters they stand for.
pub open spec fn tsv_unescaped(s: Seq<char>) -> Seq<char>
    decreases s.len(),
{
    if s.len() == 0 {
        seq![]
    } else if s.len() >= 2 && s[0] == '\\' {
        let c = if s[1] == 't' { '\t' } else if s[1] == 'n' { '\n' } else if s[1] == 'r' { '\r' } else { s[1] };
        seq![c] + tsv_unescaped(s.subrange(2, s.len() as int))
    } else {
        seq![s[0]] + tsv_unescaped(s.drop_first())
    }
}

proof fn lemma_tsv_escaped_prepend(c: char, s: Seq<char>)
    ensures
        tsv_escaped(seq![c] + s) == tsv_escape_char(c) + tsv_escaped(s),
    decreases s.len(),
{
    if s.len() == 0 {
        assert(seq![c] + s =~= seq![c]);
        assert(seq![c].drop_last() =~= Seq::<char>::empty());
        assert(tsv_escaped(seq![c]) == tsv_escaped(Seq::<char>::empty()) + tsv_escape_char(c));
        assert(tsv_escaped(seq![c]) =~= tsv_escape_char(c));
    } else {
        lemma_tsv_escaped_prepend(c, s.drop_last());
        assert((seq![c] + s).drop_last() =~= seq![c] + s.drop_last());
        assert((seq![c] + s).last() == s.last());
    }
}

/// An escaped field contains no tab, line feed or carriage return, so it
/// never breaks a row or a column.
pub proof fn law_tsv_escaped_has_no_separators(s: Seq<char>)
    ensures
        forall|i: int| 0 <= i < tsv_escaped(s).len() ==> {
            let c = #[trigger] tsv_escaped(s)[i];
            c != '\t' && c != '\n' && c != '\r'
        },
    decreases s.len(),
{
    if s.len() > 0 {
        law_tsv_escaped_has_no_separators(s.drop_last());
        let a = tsv_escaped(s.drop_last());
        let b = tsv_escape_char(s.last());
        assert forall|i: int| 0 <= i < tsv_escaped(s).len() implies {
            let c = #[trigger] tsv_escaped(s)[i];
            c != '\t' && c != '\n' && c != '\r'
        } by {
            if i < a.len() {
                assert(tsv_escaped(s)[i] == a[i]);
            } else {
                assert(tsv_escaped(s)[i] == b[i - a.len()]);
            }
        }
    }
}

/// Unescaping an escaped field gives the field back.
pub proof fn law_tsv_escape_roundtrip(s: Seq<char>)
    ensures
        tsv_unescaped(tsv_escaped(s)) == s,
    decreases s.len(),
{
    if s.len() > 0 {
        let c = s[0];
        let rest = s.drop_first();
        assert(s =~= seq![c] + rest);
        lemma_tsv_escaped_prepend(c, rest);
        law_tsv_escape_roundtrip(rest);
        let e = tsv_escaped(s);
        if c == '\\' || c == '\t' || c == '\n' || c == '\r' {
            assert(e.subrange(2, e.len() as int) =~= tsv_escaped(rest));
        } else {
            assert(e.drop_first() =~= tsv_escaped(rest));
        }
    }
}

/// A TSV row splits at its tabs into exactly its escaped fields, one part per
/// field: no value can break a column (nor, having no line break, a row).
pub proof fn law_tsv_row_splits_into_fields(fields: Seq<Seq<char>>)
    requires
        fields.len() >= 1,
    ensures
        crate::text::split_char(tsv_joined(fields), '\t') == fields.map_values(|f: Seq<char>| tsv_escaped(f)),
    decreases fields.len(),
{
    let last = fields.last();
    law_tsv_escaped_has_no_separators(last);
    let e = tsv_escaped(last);
    assert forall|i: int| 0 <= i < e.len() implies e[i] != '\t' by {
        assert(e[i] == tsv_escaped(last)[i]);
    }
    if fields.len() == 1 {
        crate::text::lemma_split_without_separator(e, '\t');
        assert(fields.map_values(|f: Seq<char>| tsv_escaped(f)) =~= seq![e]);
    } else {
        let init = fields.drop_last();
        law_tsv_row_splits_into_fields(init);
        let j = tsv_joined(init);
        let q = j + seq!['\t'];
        assert(q.drop_last() =~= j);
        crate::text::lemma_split_after_separator(q, '\t', e);
        assert(tsv_joined(fields) == q + e);
        let sj = crate::text::split_char(j, '\t');
        assert(crate::text::split_char(q, '\t') == sj.push(Seq::<char>::empty()));
        assert(sj.push(Seq::<char>::empty()).update(sj.len() as int, e) =~= sj.push(e));
        assert(fields.map_values(|f: Seq<char>| tsv_escaped(f)) =~= init.map_values(|f: Seq<char>| tsv_escaped(f)).push(e));
    }
}

// ── Mode switch ──────────────────────────────────────────────────────────────

/// The first arguments that select CLI mode rather than the GUI.
pub open spec fn cli_words() -> Seq<Seq<char>> {
    seq![
        "file"@, "note"@, "vault"@, "appearance"@, "mcp"@, "describe"@, "generate-man"@,
        "read"@, "write"@, "list"@, "render"@, "backlinks"@, "revision"@, "scan"@,
        "search"@, "status"@, "--help"@, "-h"@, "--version"@, "-V"@
    ]
}

/// Returns true when argv indicates CLI mode (not the GUI): its second
/// element is one of the CLI subcommands or help/version flags.
pub fn is_cli_mode(args: &Vec<String>) -> (r: bool)
    ensures
        r == (args@.len() >= 2 && cli_words().contains(args@[1]@)),
{
    if args.len() < 2 {
        return false;
    }
    let a = chars_of(args[1].as_str());
    let words: [&str; 20] = [
        "file", "note", "vault", "appearance", "mcp", "describe", "generate-man", "read",
        "write", "list", "render", "backlinks", "revision", "scan", "search", "status",
        "--help", "-h", "--version", "-V",
    ];
    let ghost ws = cli_words();
    assert(words@.map_values(|w: &str| w@) =~= ws);
    let mut i: usize = 0;
    while i < 20
        invariant
            i <= 20,
            args@.len() >= 2,
            a@ == args@[1]@,
            ws == cli_words(),
            words@.map_values(|w: &str| w@) == ws,
            forall|k: int| 0 <= k < i ==> ws[k] != a@,
        decreases 20 - i,
    {
        if str_eq(&a, words[i]) {
            assert(ws[i as int] == a@);
            assert(cli_words()[i as int] == args@[1]@);
            assert(cli_words().contains(args@[1]@));
            return true;
        }
        i = i + 1;
    }
    false
}

/// Whether an interactive confirmation prompt should be shown: only on a
/// terminal, without `--yes`, and when the configuration asks for it.
pub fn should_prompt(is_tty: bool, yes: bool, confirm_cfg: bool) -> (r: bool)
    ensures
        r == (!yes && is_tty && confirm_cfg),
{
    !yes && is_tty && confirm_cfg
}

// ── Error envelopes ──────────────────────────────────────────────────────────

/// The hint shown with an error: where to run from for a missing file, to use
/// a vault-relative path, or how to inspect invalid UTF-8.
pub open spec fn next_step_for(e: CoreError) -> Option<Seq<char>> {
    match e {
        CoreError::NotFound(_) => Some("Run qwert with --vault <PATH> or cd into a vault"@),
        CoreError::PathTraversal(_) => Some("Use a path relative to the vault root"@),
        CoreError::InvalidUtf8 { byte_offset } => Some(
            "The file contains invalid UTF-8 bytes at offset "@ + crate::text::dec_digits(byte_offset as nat)
                + ". Inspect with: xxd <file> | grep -A2 '"@ + crate::text::lower_hex_digits(byte_offset as nat)
                + "'"@,
        ),
        _ => None,
    }
}

/// The envelope for an error: the category and value of its exit code, its
/// message and the hint.
pub open spec fn envelope_for(e: CoreError, a: ActionableError) -> bool {
    &&& a.schema_version@ == "v1"@
    &&& a.kind@ == "error"@
    &&& a.category@ == exit_category(exit_for(e))
    &&& a.exit_code as i32 == exit_value(exit_for(e))
    &&& a.message@ == error_text(e)
    &&& a.candidates@.len() == 0
    &&& a.required_args@.len() == 0
    &&& match next_step_for(e) {
        Some(n) => a.next_step matches Some(s) && s@ == n,
        None => a.next_step is None,
    }
}

fn exit_u8(c: ExitCode) -> (r: u8)
    ensures
        r as i32 == exit_value(c),
{
    match c {
        ExitCode::Success => 0,
        ExitCode::General => 1,
        ExitCode::Usage => 2,
        ExitCode::NotFound => 3,
        ExitCode::Conflict => 4,
        ExitCode::Validation => 5,
    }
}

/// The structured error reported for `e`, with its exit code.
pub fn core_error_envelope(e: &CoreError) -> (r: (ActionableError, i32))
    ensures
        envelope_for(*e, r.0),
        r.1 == exit_value(exit_for(*e)),
{
    let code = ExitCode::of_error(e);
    let msg = e.message();
    let base = ActionableError::new(code.category_str(), exit_u8(code), msg.as_str());
    let err = match e {
        CoreError::NotFound(_) => base.with_next_step("Run qwert with --vault <PATH> or cd into a vault"),
        CoreError::PathTraversal(_) => base.with_next_step("Use a path relative to the vault root"),
        CoreError::InvalidUtf8 { byte_offset } => {
            let mut m = chars_of("The file contains invalid UTF-8 bytes at offset ");
            crate::text::push_all(&mut m, &crate::text::decimal_chars(*byte_offset as u64));
            crate::text::push_str(&mut m, ". Inspect with: xxd <file> | grep -A2 '");
            crate::text::push_all(&mut m, &crate::text::lower_hex_chars(*byte_offset as u64));
            crate::text::push_str(&mut m, "'");
            let s = string_from_chars(&m);
            base.with_next_step(s.as_str())
        },
        _ => base,
    };
    (err, code.as_i32())
}

/// A validation error envelope with a hint.
pub open spec fn validation_error(a: ActionableError, msg: Seq<char>, next: Seq<char>) -> bool {
    &&& a.schema_version@ == "v1"@
    &&& a.kind@ == "error"@
    &&& a.category@ == "validation"@
    &&& a.exit_code == 5
    &&& a.message@ == msg
    &&& a.candidates@.len() == 0
    &&& a.required_args@.len() == 0
    &&& a.next_step matches Some(s) && s@ == next
}

fn validation(msg: &Vec<char>, next: &str) -> (r: ActionableError)
    ensures
        validation_error(r, msg@, next@),
{
    let m = string_from_chars(msg);
    ActionableError::new("validation", 5, m.as_str()).with_next_step(next)
}

// ── appearance set ───────────────────────────────────────────────────────────

/// Arguments of `appearance set`.
#[derive(Debug, Clone)]
pub struct SetArgs {
    pub preset: Option<String>,
    pub fg: Option<String>,
    pub bg: Option<String>,
    pub require_aa: bool,
    /// `vault` (default) or `global`.
    pub scope: String,
    /// The vault root the command runs in.
    pub vault_root: String,
    pub format: OutputFormat,
}

/// Arguments of `appearance contrast`.
#[derive(Debug, Clone)]
pub struct ContrastArgs {
    pub fg: String,
    pub bg: String,
    pub assert_aa: bool,
    pub assert_aaa: bool,
    pub format: OutputFormat,
}

/// The first rule that `appearance set` arguments break, if any: an unknown
/// scope, a preset with custom colors, only one of foreground and background,
/// or an unknown preset.
pub open spec fn set_args_error(a: SetArgs, e: ActionableError) -> bool {
    if a.scope@ != "vault"@ && a.scope@ != "global"@ {
        validation_error(e, "unknown --scope '"@ + a.scope@ + "'; valid values: vault, global"@,
            "Use --scope vault (default) or --scope global"@)
    } else if a.preset is Some && (a.fg is Some || a.bg is Some) {
        validation_error(e, "preset and fg/bg are mutually exclusive"@, "Use either --preset or --fg/--bg, not both"@)
    } else if (a.fg is Some) != (a.bg is Some) {
        validation_error(e, "fg and bg must both be specified together (F24)"@, "Provide both --fg and --bg"@)
    } else {
        a.preset matches Some(p) && !crate::appearance::allowed_preset(p@) && validation_error(
            e,
            "unknown preset: '"@ + p@ + "'"@,
            "Valid presets: default, high-contrast, dark, dark-high-contrast"@,
        )
    }
}

/// The arguments pass every rule of [`set_args_error`].
pub open spec fn set_args_ok(a: SetArgs) -> bool {
    &&& (a.scope@ == "vault"@ || a.scope@ == "global"@)
    &&& !(a.preset is Some && (a.fg is Some || a.bg is Some))
    &&& (a.fg is Some) == (a.bg is Some)
    &&& (a.preset matches Some(p) ==> crate::appearance::allowed_preset(p@))
}

/// Check the arguments of `appearance set` before anything is computed or written.
pub fn check_set_args(args: &SetArgs) -> (r: Option<ActionableError>)
    ensures
        r is None <==> set_args_ok(*args),
        r matches Some(e) ==> set_args_error(*args, e),
{
    let scope = chars_of(args.scope.as_str());
    if !str_eq(&scope, "vault") && !str_eq(&scope, "global") {
        let mut m = chars_of("unknown --scope '");
        crate::text::push_str(&mut m, args.scope.as_str());
        crate::text::push_str(&mut m, "'; valid values: vault, global");
        return Some(validation(&m, "Use --scope vault (default) or --scope global"));
    }
    let has_preset = args.preset.is_some();
    let has_fg = args.fg.is_some();
    let has_bg = args.bg.is_some();
    if has_preset && (has_fg || has_bg) {
        let m = chars_of("preset and fg/bg are mutually exclusive");
        return Some(validation(&m, "Use either --preset or --fg/--bg, not both"));
    }
    if has_fg != has_bg {
        let m = chars_of("fg and bg must both be specified together (F24)");
        return Some(validation(&m, "Provide both --fg and --bg"));
    }
    match &args.preset {
        Some(p) => {
            if !crate::appearance::is_allowed_preset(p.as_str()) {
                let mut m = chars_of("unknown preset: '");
                crate::text::push_str(&mut m, p.as_str());
                crate::text::push_str(&mut m, "'");
                return Some(validation(&m, "Valid presets: default, high-contrast, dark, dark-high-contrast"));
            }
        },
        None => {},
    }
    None
}

/// Apply the color change of `appearance set`: a preset clears the custom
/// colors; a custom pair clears the preset; otherwise nothing changes.
/// Everything else in the configuration is kept.
pub fn apply_set(config: &mut crate::appearance::AppearanceConfig, args: &SetArgs)
    ensures
        final(config).text == old(config).text,
        final(config).highlight == old(config).highlight,
        final(config).color.advanced == old(config).color.advanced,
        match args.preset {
            Some(p) => final(config).color.preset == Some(p) && final(config).color.fg is None
                && final(config).color.bg is None,
            None => if args.fg is Some && args.bg is Some {
                final(config).color.preset is None && final(config).color.fg == args.fg
                    && final(config).color.bg == args.bg
            } else {
                final(config).color.preset == old(config).color.preset && final(config).color.fg == old(
                    config,
                ).color.fg && final(config).color.bg == old(config).color.bg
            },
        },
{
    match &args.preset {
        Some(p) => {
            config.color.preset = Some(p.clone());
            config.color.fg = None;
            config.color.bg = None;
        },
        None => {
            if args.fg.is_some() && args.bg.is_some() {
                config.color.preset = None;
                config.color.fg = crate::text::clone_opt(&args.fg);
                config.color.bg = crate::text::clone_opt(&args.bg);
            }
        },
    }
}

/// How a written configuration takes effect: the vault file is picked up at
/// once (`hot`), the global one after a restart.
pub fn set_reload(scope: &str) -> (r: &'static str)
    ensures
        scope@ == "vault"@ ==> r@ == "hot"@,
        scope@ != "vault"@ ==> r@ == "restart"@,
{
    let v = chars_of(scope);
    if str_eq(&v, "vault") {
        "hot"
    } else {
        "restart"
    }
}

/// The error when a contrast ratio (given as its two-decimal text) fails the
/// AAA (`aaa`) or AA threshold.
pub fn contrast_threshold_error(ratio_text: &str, aaa: bool) -> (r: ActionableError)
    ensures
        aaa ==> validation_error(r, "contrast ratio "@ + ratio_text@ + ":1 is below WCAG AAA threshold (7.0)"@,
            "Adjust fg/bg colors to achieve contrast ratio ≥7.0"@),
        !aaa ==> validation_error(r, "contrast ratio "@ + ratio_text@ + ":1 is below WCAG AA threshold (4.5)"@,
            "Adjust fg/bg colors to achieve contrast ratio ≥4.5"@),
{
    let mut m = chars_of("contrast ratio ");
    crate::text::push_str(&mut m, ratio_text);
    if aaa {
        crate::text::push_str(&mut m, ":1 is below WCAG AAA threshold (7.0)");
        validation(&m, "Adjust fg/bg colors to achieve contrast ratio ≥7.0")
    } else {
        crate::text::push_str(&mut m, ":1 is below WCAG AA threshold (4.5)");
        validation(&m, "Adjust fg/bg colors to achieve contrast ratio ≥4.5")
    }
}

/// The error when `--require-aa` rejects custom colors (ratio as two-decimal text).
pub fn require_aa_error(ratio_text: &str) -> (r: ActionableError)
    ensures
        validation_error(r, "contrast ratio "@ + ratio_text@ + ":1 does not meet WCAG AA (≥4.5)"@,
            "Adjust fg/bg colors to achieve contrast ratio ≥4.5"@),
{
    let mut m = chars_of("contrast ratio ");
    crate::text::push_str(&mut m, ratio_text);
    crate::text::push_str(&mut m, ":1 does not meet WCAG AA (≥4.5)");
    validation(&m, "Adjust fg/bg colors to achieve contrast ratio ≥4.5")
}

// ── note revision ────────────────────────────────────────────────────────────

/// The naming style of a revision: the one given on the command line, or the
/// configured one (an unknown configured word is a validation error).
pub fn resolve_naming(
    given: Option<crate::revision::NamingStyle>,
    configured: &str,
) -> (r: Result<crate::revision::NamingStyle, ActionableError>)
    ensures
        match given {
            Some(n) => r == Ok::<crate::revision::NamingStyle, ActionableError>(n),
            None => match r {
                Ok(n) => crate::revision::style_named(configured@) == Some(n),
                Err(e) => crate::revision::style_named(configured@) is None
                    && crate::revision::unknown_style_error(configured@, e),
            },
        },
{
    match given {
        Some(n) => Ok(n),
        None => crate::revision::naming_style_from_str(configured),
    }
}

/// A revision applied outside a terminal needs `--yes`.
pub fn revision_needs_yes(yes: bool, is_tty: bool) -> (r: Option<ActionableError>)
    ensures
        r is Some <==> (!yes && !is_tty),
        r matches Some(a) ==> a.category@ == "usage"@ && a.exit_code == 2 && a.kind@ == "error"@
            && a.schema_version@ == "v1"@
            && a.message@ == "Non-interactive context: --yes is required to apply revision"@
            && a.candidates@.len() == 0 && a.required_args@.len() == 0
            && (a.next_step matches Some(s) && s@ == "Add --yes flag, or use --dry-run to preview"@),
{
    if !yes && !is_tty {
        Some(
            ActionableError::new("usage", 2, "Non-interactive context: --yes is required to apply revision").with_next_step(
                "Add --yes flag, or use --dry-run to preview",
            ),
        )
    } else {
        None
    }
}

// ── Dates ────────────────────────────────────────────────────────────────────

/// A Gregorian leap year.
pub open spec fn is_leap_year(y: int) -> bool {
    y % 4 == 0 && (y % 100 != 0 || y % 400 == 0)
}

/// Number of days in month `m` of year `y`.
pub open spec fn month_length(y: int, m: int) -> int {
    if m == 2 {
        if is_leap_year(y) { 29 } else { 28 }
    } else if m == 4 || m == 6 || m == 9 || m == 11 {
        30
    } else {
        31
    }
}

/// Days from 1970-01-01 to the date `y-m-d` of the proleptic Gregorian
/// calendar (March-based year count: 400-year eras of 146097 days).
pub open spec fn days_from_civil(y: int, m: int, d: int) -> int {
    let yy = if m <= 2 { y - 1 } else { y };
    let era = yy / 400;
    let yoe = yy - era * 400;
    let mp = if m > 2 { m - 3 } else { m + 9 };
    let doy = (153 * mp + 2) / 5 + d - 1;
    let doe = yoe * 365 + yoe / 4 - yoe / 100 + doy;
    era * 146097 + doe - 719468
}

proof fn lemma_year_of_era(doe: u32)
    requires
        doe < 146097,
    ensures
        ({
            let yoe = (doe - doe / 1460 + doe / 36524 - doe / 146096) / 365;
            let start = 365 * yoe + yoe / 4 - yoe / 100;
            &&& yoe <= 399
            &&& start <= doe
            &&& doe - start <= 364 + (if (yoe + 1) % 4 == 0 && ((yoe + 1) % 100 != 0 || (yoe + 1) % 400 == 0) { 1u32 } else { 0u32 })
        }),
{
    assert({
        let yoe = (doe - doe / 1460 + doe / 36524 - doe / 146096) / 365;
        let start = 365 * yoe + yoe / 4 - yoe / 100;
        &&& yoe <= 399
        &&& start <= doe
        &&& doe - start <= 364 + (if (yoe + 1) % 4 == 0 && ((yoe + 1) % 100 != 0 || (yoe + 1) % 400 == 0) { 1u32 } else { 0u32 })
    }) by (bit_vector)
        requires
            doe < 146097,
    ;
}

proof fn lemma_month_of_year(doy: u32)
    requires
        doy <= 365,
    ensures
        ({
            let mp = (5 * doy + 2) / 153;
            let base = (153 * mp + 2) / 5;
            &&& mp <= 11
            &&& base <= doy
            &&& doy - base + 1 <= (if mp == 11 {
                if doy == 365 { 29u32 } else { 28u32 }
            } else if mp == 1 || mp == 3 || mp == 6 || mp == 8 {
                30u32
            } else {
                31u32
            })
        }),
{
    assert({
        let mp = (5 * doy + 2) / 153;
        let base = (153 * mp + 2) / 5;
        &&& mp <= 11
        &&& base <= doy
        &&& doy - base + 1 <= (if mp == 11 {
            if doy == 365 { 29u32 } else { 28u32 }
        } else if mp == 1 || mp == 3 || mp == 6 || mp == 8 {
            30u32
        } else {
            31u32
        })
    }) by (bit_vector)
        requires
            doy <= 365,
    ;
}

proof fn lemma_leap_shift(a: int, k: int)
    requires
        a >= 0,
        k >= 0,
    ensures
        is_leap_year(a + 400 * k) == is_leap_year(a),
{
    assert((a + 400 * k) % 4 == a % 4) by (nonlinear_arith)
        requires a >= 0, k >= 0;
    assert((a + 400 * k) % 100 == a % 100) by (nonlinear_arith)
        requires a >= 0, k >= 0;
    assert((a + 400 * k) % 400 == a % 400) by (nonlinear_arith)
        requires a >= 0, k >= 0;
}

/// The date `z` days after 1970-01-01 in the proleptic Gregorian calendar:
/// a valid year, month and day whose day count is `z`.
pub fn days_to_ymd(z: u32) -> (r: (u32, u32, u32))
    requires
        z <= u32::MAX - 719468,
    ensures
        1 <= r.1 <= 12,
        1 <= r.2 <= month_length(r.0 as int, r.1 as int),
        days_from_civil(r.0 as int, r.1 as int, r.2 as int) == z,
{
    let z = z + 719468;
    let era = z / 146097;
    let doe = z - era * 146097;
    proof {
        lemma_year_of_era(doe);
    }
    let yoe = (doe - doe / 1460 + doe / 36524 - doe / 146096) / 365;
    let y = yoe + era * 400;
    let doy = doe - (365 * yoe + yoe / 4 - yoe / 100);
    proof {
        lemma_month_of_year(doy);
    }
    let mp = (5 * doy + 2) / 153;
    let d = doy - (153 * mp + 2) / 5 + 1;
    let m = if mp < 10 { mp + 3 } else { mp - 9 };
    let y = if m <= 2 { y + 1 } else { y };
    proof {
        let yy: int = if m <= 2 { y - 1 } else { y as int };
        assert(yy == yoe + era * 400);
        assert(yy / 400 == era as int) by (nonlinear_arith)
            requires yy == yoe + era * 400, 0 <= yoe <= 399, era >= 0;
        assert(yy - (yy / 400) * 400 == yoe);
        if m <= 2 {
            lemma_leap_shift(yoe + 1, era as int);
            assert(y as int == (yoe + 1) + 400 * era);
        }
    }
    (y, m, d)
}

/// Today's date as `YYYYMMDD`, given the days since 1970-01-01.
pub fn yyyymmdd(days: u32) -> (r: String)
    requires
        days <= u32::MAX - 719468,
    ensures
        exists|y: u32, m: u32, d: u32|
            1 <= m <= 12 && 1 <= d <= month_length(y as int, m as int)
                && days_from_civil(y as int, m as int, d as int) == days
                && r@ == crate::text::zero_pad(crate::text::dec_digits(y as nat), 4)
                    + crate::text::zero_pad(crate::text::dec_digits(m as nat), 2)
                    + crate::text::zero_pad(crate::text::dec_digits(d as nat), 2),
{
    let (y, m, d) = days_to_ymd(days);
    let mut out = crate::text::decimal_chars_padded(y as u64, 4);
    crate::text::push_all(&mut out, &crate::text::decimal_chars_padded(m as u64, 2));
    crate::text::push_all(&mut out, &crate::text::decimal_chars_padded(d as u64, 2));
    string_from_chars(&out)
}

} // verus!
