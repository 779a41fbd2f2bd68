//! Vault health: Syncthing conflict copies, an unfinished revision log and
//! conflicting appearance files.

use vstd::prelude::*;
use crate::paths::{file_name, file_name_of, last_component, parent, parent_of};
use crate::pattern::{
    caps_view, captures, char_pos, compile, is_match, regex_captures, regex_compile_error,
    regex_matches, span_chars, span_text, CompiledRegex,
};
use crate::text::{
    chars_of, dec_digits, decimal_chars, ends_with, ends_with_lit, owned, push_all, push_str,
    slice_chars, starts_with, starts_with_lit, str_eq, string_from_chars,
};

verus! {

/// The pattern of a Syncthing conflict copy:
/// `<name>.sync-conflict-YYYYMMDD-HHMMSS-DEVICEID[.ext]`.
pub open spec fn sync_conflict_pattern() -> Seq<char> {
    "\\.sync-conflict-\\d{8}-\\d{6}-[A-Z0-9]+(\\.[^./]+)?$"@
}

/// The pattern compiles.
pub open spec fn conflict_pattern_ok() -> bool {
    regex_compile_error(sync_conflict_pattern()) is None
}

fn conflict_regex() -> (r: Option<CompiledRegex>)
    ensures
        match r {
            Some(re) => conflict_pattern_ok() && re.pattern() == sync_conflict_pattern(),
            None => !conflict_pattern_ok(),
        },
{
    match compile("\\.sync-conflict-\\d{8}-\\d{6}-[A-Z0-9]+(\\.[^./]+)?$") {
        Ok(re) => Some(re),
        Err(_) => None,
    }
}

/// The base path of a conflict copy, given the capture spans of the conflict
/// pattern on it: the text before the match followed by the extension group.
pub open spec fn conflict_base_of(rel: Seq<char>, caps: Option<Seq<Option<(int, int)>>>) -> Option<Seq<char>> {
    match caps {
        Some(c) => if c.len() >= 1 {
            match c[0] {
                Some((s, _)) => match char_pos(rel, s) {
                    Some(i) => {
                        let ext = if c.len() >= 2 {
                            match span_text(rel, c[1]) {
                                Some(e) => e,
                                None => Seq::empty(),
                            }
                        } else {
                            Seq::empty()
                        };
                        Some(rel.take(i) + ext)
                    },
                    None => None,
                },
                None => None,
            }
        } else {
            None
        },
        None => None,
    }
}

/// The capture spans of the conflict pattern on `rel`.
pub open spec fn conflict_captures(rel: Seq<char>) -> Option<Seq<Option<(int, int)>>> {
    if conflict_pattern_ok() {
        regex_captures(sync_conflict_pattern(), rel)
    } else {
        None
    }
}

/// The base path for the conflict copy `rel`, given the pattern's captures on it.
pub fn conflict_base_with(conflict_rel: &str, caps: Option<Vec<Option<(usize, usize)>>>) -> (r: Option<String>)
    ensures
        match r {
            Some(b) => conflict_base_of(conflict_rel@, caps_view(caps)) == Some(b@),
            None => conflict_base_of(conflict_rel@, caps_view(caps)) is None,
        },
{
    let v = chars_of(conflict_rel);
    match caps {
        Some(c) => {
            if c.len() < 1 {
                return None;
            }
            let ghost cv = crate::pattern::spans_view(c@);
            match c[0] {
                Some((s, _)) => {
                    match crate::pattern::char_index_at_byte(&v, s) {
                        Some(i) => {
                            proof {
                                let k = choose|k: int| 0 <= k <= v@.len() && #[trigger] crate::text::byte_offset(v@, k) == s;
                                crate::pattern::lemma_byte_offset_injective(v@, i as int, k);
                                assert(char_pos(v@, s as int) == Some(i as int));
                            }
                            let mut out = slice_chars(&v, 0, i);
                            if c.len() >= 2 {
                                assert(cv[1] == (match c@[1] { Some((s, e)) => Some((s as int, e as int)), None => None }));
                                match span_chars(&v, c[1]) {
                                    Some(e) => push_all(&mut out, &e),
                                    None => {},
                                }
                            }
                            assert(v@.take(i as int) =~= v@.subrange(0, i as int));
                            Some(string_from_chars(&out))
                        },
                        None => None,
                    }
                },
                None => None,
            }
        },
        None => None,
    }
}

/// `specs/auth.sync-conflict-20260422-123456-ABC123.md` → `specs/auth.md`;
/// `None` for a path that is not a conflict copy.
pub fn conflict_base(conflict_rel: &str) -> (r: Option<String>)
    ensures
        match r {
            Some(b) => conflict_base_of(conflict_rel@, conflict_captures(conflict_rel@)) == Some(b@),
            None => conflict_base_of(conflict_rel@, conflict_captures(conflict_rel@)) is None,
        },
{
    let caps = match conflict_regex() {
        Some(re) => captures(&re, conflict_rel),
        None => None,
    };
    conflict_base_with(conflict_rel, caps)
}

// ── Vault status ─────────────────────────────────────────────────────────────

/// A conflict copy and the note it belongs to.
#[derive(Debug, Clone, PartialEq, Eq)]
pub struct SyncConflict {
    /// Vault-relative path of the base note.
    pub base: String,
    /// Vault-relative path of the conflict copy.
    pub conflict_file: String,
}

/// The paths recorded by an unfinished revision log.
#[derive(Debug, Clone, PartialEq, Eq)]
pub struct PendingRevisionInfo {
    pub source_old_path: String,
    pub source_new_path: String,
}

/// The health of a vault.
#[derive(Debug, Clone)]
pub struct VaultStatus {
    /// The vault root as given.
    pub vault: String,
    pub sync_conflicts: Vec<SyncConflict>,
    pub pending_revision: Option<PendingRevisionInfo>,
    /// `true` exactly when there are no warnings.
    pub healthy: bool,
    pub warnings: Vec<String>,
}

/// A file met while walking the vault.
#[derive(Debug, Clone)]
pub struct WalkedFile {
    /// Path of the file as walked.
    pub path: String,
    /// The same path relative to the vault root, with `/` separators.
    pub rel: String,
}

/// The walk descends into a directory unless it is hidden (other than
/// `.qwert`) or `node_modules`; the root and all files are always visited.
pub open spec fn walk_visits(depth: nat, name: Seq<char>, is_dir: bool) -> bool {
    depth == 0 || !is_dir || name == ".qwert"@ || (!starts_with(name, "."@) && name != "node_modules"@)
}

/// Whether the status walk visits an entry (see [`walk_visits`]).
pub fn status_walk_visits(depth: usize, name: &str, is_dir: bool) -> (r: bool)
    ensures
        r == walk_visits(depth as nat, name@, is_dir),
{
    if depth == 0 || !is_dir {
        return true;
    }
    let v = chars_of(name);
    str_eq(&v, ".qwert") || (!starts_with_lit(&v, ".") && !str_eq(&v, "node_modules"))
}

/// The name of a walked file (empty when it has none).
pub open spec fn name_of(path: Seq<char>) -> Seq<char> {
    match file_name(path) {
        Some(n) => n,
        None => Seq::empty(),
    }
}

/// A Markdown conflict copy: the file name matches the conflict pattern and ends in `.md`.
pub open spec fn is_sync_conflict(path: Seq<char>) -> bool {
    conflict_pattern_ok() && regex_matches(sync_conflict_pattern(), name_of(path)) && ends_with(name_of(path), ".md"@)
}

/// A conflict copy of `appearance.toml` directly inside a `.qwert` directory.
pub open spec fn is_appearance_conflict(path: Seq<char>) -> bool {
    &&& starts_with(name_of(path), "appearance.sync-conflict-"@)
    &&& ends_with(name_of(path), ".toml"@)
    &&& parent(path) matches Some(p) && last_component(p) == ".qwert"@
}

/// The conflict record for a walked file.
pub open spec fn conflict_record(f: WalkedFile) -> (Seq<char>, Seq<char>) {
    (
        match conflict_base_of(f.rel@, conflict_captures(f.rel@)) {
            Some(b) => b,
            None => f.rel@,
        },
        f.rel@,
    )
}

/// The conflict records of the first `n` files.
pub open spec fn conflicts_upto(files: Seq<WalkedFile>, n: nat) -> Seq<(Seq<char>, Seq<char>)>
    decreases n,
{
    if n == 0 {
        Seq::empty()
    } else {
        let rest = conflicts_upto(files, (n - 1) as nat);
        if is_sync_conflict(files[n - 1].path@) {
            rest.push(conflict_record(files[n - 1]))
        } else {
            rest
        }
    }
}

/// The number of appearance conflict copies among the first `n` files.
pub open spec fn appearance_conflicts_upto(files: Seq<WalkedFile>, n: nat) -> nat
    decreases n,
{
    if n == 0 {
        0
    } else {
        appearance_conflicts_upto(files, (n - 1) as nat) + if is_appearance_conflict(files[n - 1].path@) { 1nat } else { 0nat }
    }
}

/// The warnings of a vault status, in order: conflict copies, an unfinished
/// revision, appearance conflicts.
pub open spec fn status_warnings(conflicts: nat, pending: bool, appearance: nat) -> Seq<Seq<char>> {
    (if conflicts > 0 {
        seq![dec_digits(conflicts) + " sync-conflict file(s) detected. Resolve manually before continuing."@]
    } else {
        seq![]
    }) + (if pending {
        seq!["Incomplete revision detected (.qwert/pending-revision.json). Run `qwert vault status` to inspect, then resolve manually."@]
    } else {
        seq![]
    }) + (if appearance > 0 {
        seq![dec_digits(appearance) + " appearance.toml conflict(s) in .qwert/. Resolve manually."@]
    } else {
        seq![]
    })
}

fn is_appearance_conflict_exec(path: &str) -> (r: bool)
    ensures
        r == is_appearance_conflict(path@),
{
    let name = match file_name_of(path) {
        Some(n) => n,
        None => Vec::new(),
    };
    if !(starts_with_lit(&name, "appearance.sync-conflict-") && ends_with_lit(&name, ".toml")) {
        return false;
    }
    match parent_of(path) {
        Some(p) => {
            let l = crate::paths::last_component_of(&p);
            str_eq(&l, ".qwert")
        },
        None => false,
    }
}

fn is_sync_conflict_exec(re: &Option<CompiledRegex>, path: &str) -> (r: bool)
    requires
        match re {
            Some(x) => conflict_pattern_ok() && x.pattern() == sync_conflict_pattern(),
            None => !conflict_pattern_ok(),
        },
    ensures
        r == is_sync_conflict(path@),
{
    match re {
        Some(x) => {
            let name = match file_name_of(path) {
                Some(n) => n,
                None => Vec::new(),
            };
            let ns = string_from_chars(&name);
            is_match(x, ns.as_str()) && ends_with_lit(&name, ".md")
        },
        None => false,
    }
}

fn count_text(n: usize, tail: &str) -> (r: String)
    ensures
        r@ == dec_digits(n as nat) + tail@,
{
    let mut v = decimal_chars(n as u64);
    push_str(&mut v, tail);
    string_from_chars(&v)
}

/// The health of the vault `vault` from the files met by the walk and the
/// unfinished revision log, if any.
pub fn vault_status_from(vault: String, files: &Vec<WalkedFile>, pending_revision: Option<PendingRevisionInfo>) -> (r: VaultStatus)
    ensures
        r.vault == vault,
        r.sync_conflicts@.map_values(|c: SyncConflict| (c.base@, c.conflict_file@)) == conflicts_upto(files@, files@.len()),
        r.pending_revision == pending_revision,
        r.warnings@.map_values(|w: String| w@) == status_warnings(
            conflicts_upto(files@, files@.len()).len(),
            pending_revision is Some,
            appearance_conflicts_upto(files@, files@.len()),
        ),
        r.healthy == (r.warnings@.len() == 0),
{
    let re = conflict_regex();
    let mut conflicts: Vec<SyncConflict> = Vec::new();
    let mut appearance: usize = 0;
    let mut i: usize = 0;
    while i < files.len()
        invariant
            i <= files@.len(),
            match re {
                Some(x) => conflict_pattern_ok() && x.pattern() == sync_conflict_pattern(),
                None => !conflict_pattern_ok(),
            },
            conflicts@.map_values(|c: SyncConflict| (c.base@, c.conflict_file@)) == conflicts_upto(files@, i as nat),
            appearance == appearance_conflicts_upto(files@, i as nat),
            appearance <= i,
            conflicts@.len() <= i,
        decreases files@.len() - i,
    {
        let f = &files[i];
        if is_sync_conflict_exec(&re, f.path.as_str()) {
            let base = match conflict_base(f.rel.as_str()) {
                Some(b) => b,
                None => f.rel.clone(),
            };
            let ghost prev = conflicts@;
            conflicts.push(SyncConflict { base, conflict_file: f.rel.clone() });
            assert(conflicts@.map_values(|c: SyncConflict| (c.base@, c.conflict_file@)) =~= prev.map_values(
                |c: SyncConflict| (c.base@, c.conflict_file@),
            ).push(conflict_record(files@[i as int])));
        }
        if is_appearance_conflict_exec(f.path.as_str()) {
            appearance = appearance + 1;
        }
        i = i + 1;
    }
    let mut warnings: Vec<String> = Vec::new();
    if conflicts.len() > 0 {
        warnings.push(count_text(conflicts.len(), " sync-conflict file(s) detected. Resolve manually before continuing."));
    }
    let ghost w1 = warnings@;
    if pending_revision.is_some() {
        warnings.push(owned("Incomplete revision detected (.qwert/pending-revision.json). Run `qwert vault status` to inspect, then resolve manually."));
    }
    let ghost w2 = warnings@;
    if appearance > 0 {
        warnings.push(count_text(appearance, " appearance.toml conflict(s) in .qwert/. Resolve manually."));
    }
    proof {
        let n = conflicts_upto(files@, files@.len()).len();
        assert(conflicts@.len() == n);
        assert(warnings@.map_values(|w: String| w@) =~= status_warnings(
            n,
            pending_revision is Some,
            appearance_conflicts_upto(files@, files@.len()),
        ));
    }
    let healthy = warnings.len() == 0;
    VaultStatus { vault, sync_conflicts: conflicts, pending_revision, healthy, warnings }
}

/// The paths of an unfinished revision log, `?` for a missing one.
pub fn pending_info(source_old_path: Option<String>, source_new_path: Option<String>) -> (r: PendingRevisionInfo)
    ensures
        r.source_old_path@ == (match source_old_path { Some(s) => s@, None => "?"@ }),
        r.source_new_path@ == (match source_new_path { Some(s) => s@, None => "?"@ }),
{
    PendingRevisionInfo {
        source_old_path: match source_old_path {
            Some(s) => s,
            None => owned("?"),
        },
        source_new_path: match source_new_path {
            Some(s) => s,
            None => owned("?"),
        },
    }
}


/// `s`, or `?` when it is missing.
pub open spec fn or_unknown(s: Option<Seq<char>>) -> Seq<char> {
    match s {
        Some(t) => t,
        None => "?"@,
    }
}

/// The view of an optional string.
pub open spec fn opt_chars(s: Option<String>) -> Option<Seq<char>> {
    match s {
        Some(t) => Some(t@),
        None => None,
    }
}

/// What serde_json reads from the text of a revision log: `None` when it is
/// not JSON; else the string values under `source_old_path` and
/// `source_new_path`, each `None` where the key is missing or its value is
/// not a string.
pub uninterp spec fn wal_source_paths(raw: Seq<char>) -> Option<(Option<Seq<char>>, Option<Seq<char>>)>;

/// `serde_json::from_str::<serde_json::Value>` on the log text, then
/// `as_str` on the values under `source_old_path` and `source_new_path`. The
/// contract names the outcome [`wal_source_paths`] of the text; which texts
/// parse is serde_json's JSON grammar and is left unstated here.
#[verifier::external_body]
fn json_source_paths(raw: &str) -> (r: Option<(Option<String>, Option<String>)>)
    ensures
        wal_source_paths(raw@) == (match r {
            Some((o, n)) => Some((opt_chars(o), opt_chars(n))),
            None => None,
        }),
{
    match serde_json::from_str::<serde_json::Value>(raw) {
        Ok(v) => Some((
            v["source_old_path"].as_str().map(str::to_owned),
            v["source_new_path"].as_str().map(str::to_owned),
        )),
        Err(_) => None,
    }
}

/// The unfinished revision that the text of `.qwert/pending-revision.json`
/// records: `None` when the text is not JSON, else its two source paths, `?`
/// for one that is missing or not a string.
pub fn pending_from_wal(raw: &str) -> (r: Option<PendingRevisionInfo>)
    ensures
        match wal_source_paths(raw@) {
            None => r is None,
            Some((o, n)) => r matches Some(p) && p.source_old_path@ == or_unknown(o)
                && p.source_new_path@ == or_unknown(n),
        },
{
    match json_source_paths(raw) {
        Some((o, n)) => Some(pending_info(o, n)),
        None => None,
    }
}


/// What [`conflict_base`] answers for a conflict copy at `rel`: the base path
/// it gives, or the copy itself when it gives none.
pub open spec fn conflict_base_or_self(rel: Seq<char>) -> Seq<char> {
    match conflict_base_of(rel, conflict_captures(rel)) {
        Some(b) => b,
        None => rel,
    }
}

/// The conflicts the vault status reports are exactly the walked conflict
/// copies, in walk order, each with the base that [`conflict_base`] gives
/// for the copy's whole vault-relative path (so a copy in `specs/` has its
/// base in `specs/`).
pub proof fn law_status_conflicts_use_conflict_base(files: Seq<WalkedFile>, n: nat)
    requires
        n <= files.len(),
    ensures
        forall|k: int| #![trigger conflicts_upto(files, n)[k]] 0 <= k < conflicts_upto(files, n).len() ==> exists|i: int| #![trigger files[i]] 0 <= i < n
            && is_sync_conflict(files[i].path@)
            && conflicts_upto(files, n)[k] == (conflict_base_or_self(files[i].rel@), files[i].rel@),
        forall|i: int| 0 <= i < n && is_sync_conflict(#[trigger] files[i].path@) ==>
            conflicts_upto(files, n).contains((conflict_base_or_self(files[i].rel@), files[i].rel@)),
    decreases n,
{
    if n > 0 {
        law_status_conflicts_use_conflict_base(files, (n - 1) as nat);
        let prev = conflicts_upto(files, (n - 1) as nat);
        let cur = conflicts_upto(files, n);
        let j = n - 1;
        let rec = (conflict_base_or_self(files[j].rel@), files[j].rel@);
        assert(conflict_record(files[j]) == rec);
        assert forall|k: int| #![trigger cur[k]] 0 <= k < cur.len() implies exists|i: int| #![trigger files[i]] 0 <= i < n
            && is_sync_conflict(files[i].path@)
            && cur[k] == (conflict_base_or_self(files[i].rel@), files[i].rel@) by {
            if k < prev.len() {
                assert(cur[k] == prev[k]);
                let i = choose|i: int| #![trigger files[i]] 0 <= i < n - 1 && is_sync_conflict(files[i].path@)
                    && prev[k] == (conflict_base_or_self(files[i].rel@), files[i].rel@);
                assert(files[i] == files[i]);
            } else {
                assert(cur[k] == rec);
                assert(files[j] == files[j]);
            }
        }
        assert forall|i: int| 0 <= i < n && is_sync_conflict(#[trigger] files[i].path@) implies
            cur.contains((conflict_base_or_self(files[i].rel@), files[i].rel@)) by {
            if i < j {
                let x = (conflict_base_or_self(files[i].rel@), files[i].rel@);
                let k = choose|k: int| 0 <= k < prev.len() && prev[k] == x;
                assert(cur[k] == prev[k]);
            } else {
                assert(cur[prev.len() as int] == rec);
            }
        }
    }
}
} // verus!
