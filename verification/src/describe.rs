//! The command-line grammar as data, and the argument schemas that
//! `qwert describe` prints from it.

use vstd::prelude::*;
use crate::text::{chars_eq, chars_of, is_whitespace, is_ws, owned, push_all, push_str, str_eq, string_from_chars};

verus! {

// ── Schemas ──────────────────────────────────────────────────────────────────

/// One argument of a command.
#[derive(Debug, Clone, PartialEq)]
pub struct ArgSchema {
    pub name: String,
    /// `positional`, `option` or `flag`.
    pub kind: String,
    pub required: bool,
    pub default: Option<String>,
    pub description: Option<String>,
}

/// The arguments of a leaf command, under its full name (`file read`).
#[derive(Debug, Clone, PartialEq)]
pub struct CommandSchema {
    pub name: String,
    pub description: Option<String>,
    pub args: Vec<ArgSchema>,
}

/// A verb of a noun command.
#[derive(Debug, Clone)]
pub struct VerbSpec {
    pub name: String,
    pub hidden: bool,
    pub about: Option<String>,
    pub args: Vec<ArgSchema>,
}

/// A top-level command: a noun with verbs, or a command of its own.
#[derive(Debug, Clone)]
pub struct NounSpec {
    pub name: String,
    pub hidden: bool,
    pub about: Option<String>,
    pub args: Vec<ArgSchema>,
    pub verbs: Vec<VerbSpec>,
}

/// The view of an argument: name, kind, required, default, description.
pub type ArgV = (Seq<char>, Seq<char>, bool, Option<Seq<char>>, Option<Seq<char>>);

/// The view of a schema or a verb: name, description, arguments.
pub type SchemaV = (Seq<char>, Option<Seq<char>>, Seq<ArgV>);

/// The view of a verb: name, hidden, about, arguments.
pub type VerbV = (Seq<char>, bool, Option<Seq<char>>, Seq<ArgV>);

/// The view of a noun: name, hidden, about, arguments, verbs.
pub type NounV = (Seq<char>, bool, Option<Seq<char>>, Seq<ArgV>, Seq<VerbV>);

/// The view of an optional string.
pub open spec fn ostr(o: Option<String>) -> Option<Seq<char>> {
    match o {
        Some(s) => Some(s@),
        None => None,
    }
}

/// The view of an argument.
pub open spec fn arg_view(a: ArgSchema) -> ArgV {
    (a.name@, a.kind@, a.required, ostr(a.default), ostr(a.description))
}

/// The view of a list of arguments.
pub open spec fn args_view(v: Seq<ArgSchema>) -> Seq<ArgV> {
    v.map_values(|a: ArgSchema| arg_view(a))
}

/// The view of a schema.
pub open spec fn schema_view(s: CommandSchema) -> SchemaV {
    (s.name@, ostr(s.description), args_view(s.args@))
}

/// The view of a list of schemas.
pub open spec fn schemas_view(v: Seq<CommandSchema>) -> Seq<SchemaV> {
    v.map_values(|s: CommandSchema| schema_view(s))
}

/// The view of a verb.
pub open spec fn verb_view(v: VerbSpec) -> VerbV {
    (v.name@, v.hidden, ostr(v.about), args_view(v.args@))
}

/// The view of a noun.
pub open spec fn noun_view(n: NounSpec) -> NounV {
    (n.name@, n.hidden, ostr(n.about), args_view(n.args@), n.verbs@.map_values(|v: VerbSpec| verb_view(v)))
}

/// The view of a command table.
pub open spec fn table_view(t: Seq<NounSpec>) -> Seq<NounV> {
    t.map_values(|n: NounSpec| noun_view(n))
}

// ── Schemas from a table ─────────────────────────────────────────────────────

/// The visible verbs among the first `k` verbs of a noun.
pub open spec fn visible_verbs(vs: Seq<VerbV>, k: nat) -> Seq<VerbV>
    decreases k,
{
    if k == 0 {
        Seq::empty()
    } else {
        visible_verbs(vs, (k - 1) as nat) + if vs[k - 1].1 { seq![] } else { seq![vs[k - 1]] }
    }
}

/// The schema of verb `v` of noun `noun`, named `noun verb`.
pub open spec fn verb_schema(noun: Seq<char>, v: VerbV) -> SchemaV {
    (noun + " "@ + v.0, v.2, v.3)
}

/// The leaf schemas of a noun: one per visible verb, or the noun itself when
/// it has no visible verb.
pub open spec fn leaf_schemas(n: NounV) -> Seq<SchemaV> {
    let vis = visible_verbs(n.4, n.4.len());
    if vis.len() == 0 {
        seq![(n.0, n.2, n.3)]
    } else {
        Seq::new(vis.len(), |i: int| verb_schema(n.0, vis[i]))
    }
}

/// The leaf schemas of the visible nouns among the first `k`.
pub open spec fn all_schemas(t: Seq<NounV>, k: nat) -> Seq<SchemaV>
    decreases k,
{
    if k == 0 {
        Seq::empty()
    } else {
        all_schemas(t, (k - 1) as nat) + if t[k - 1].1 { seq![] } else { leaf_schemas(t[k - 1]) }
    }
}

/// Index of the first visible entry named `name` among the first `k`, or -1.
pub open spec fn find_visible_noun(t: Seq<NounV>, name: Seq<char>, k: nat) -> int
    decreases k,
{
    if k == 0 {
        -1
    } else {
        let f = find_visible_noun(t, name, (k - 1) as nat);
        if f >= 0 { f } else if !t[k - 1].1 && t[k - 1].0 == name { k - 1 } else { -1 }
    }
}

/// Index of the first visible verb named `name` among the first `k`, or -1.
pub open spec fn find_visible_verb(vs: Seq<VerbV>, name: Seq<char>, k: nat) -> int
    decreases k,
{
    if k == 0 {
        -1
    } else {
        let f = find_visible_verb(vs, name, (k - 1) as nat);
        if f >= 0 { f } else if !vs[k - 1].1 && vs[k - 1].0 == name { k - 1 } else { -1 }
    }
}

/// The words of `s` from position `i`, `cur` being the word in progress
/// (`str::split_whitespace`).
pub open spec fn words_from(s: Seq<char>, i: int, cur: Seq<char>) -> Seq<Seq<char>>
    decreases s.len() - i,
{
    if i < 0 || i >= s.len() {
        if cur.len() > 0 { seq![cur] } else { seq![] }
    } else if is_ws(s[i]) {
        (if cur.len() > 0 { seq![cur] } else { seq![] }) + words_from(s, i + 1, Seq::empty())
    } else {
        words_from(s, i + 1, cur.push(s[i]))
    }
}

/// The whitespace-separated words of `s`.
pub open spec fn words(s: Seq<char>) -> Seq<Seq<char>> {
    words_from(s, 0, Seq::empty())
}

/// What [`build_schemas_in`] gives: all leaf schemas; those of one noun; the
/// one schema of `noun verb`; or an error message.
pub open spec fn schemas_for(t: Seq<NounV>, spec_text: Option<Seq<char>>) -> Result<Seq<SchemaV>, Seq<char>> {
    match spec_text {
        None => Ok(all_schemas(t, t.len())),
        Some(s) => {
            let w = words(s);
            if w.len() == 1 {
                let i = find_visible_noun(t, w[0], t.len());
                if i < 0 {
                    Err("unknown subcommand: "@ + w[0])
                } else if leaf_schemas(t[i]).len() == 0 {
                    Err("no schema found for: "@ + w[0])
                } else {
                    Ok(leaf_schemas(t[i]))
                }
            } else if w.len() == 2 {
                let i = find_visible_noun(t, w[0], t.len());
                if i < 0 {
                    Err("unknown noun: "@ + w[0])
                } else {
                    let j = find_visible_verb(t[i].4, w[1], t[i].4.len());
                    if j < 0 {
                        Err("unknown verb: "@ + w[1])
                    } else {
                        Ok(seq![(w[0] + " "@ + w[1], t[i].4[j].2, t[i].4[j].3)])
                    }
                }
            } else {
                Err("invalid subcommand specifier: "@ + s)
            }
        },
    }
}

fn words_exec(s: &str) -> (r: Vec<Vec<char>>)
    ensures
        r@.map_values(|w: Vec<char>| w@) == words(s@),
{
    let v = chars_of(s);
    let mut out: Vec<Vec<char>> = Vec::new();
    let mut cur: Vec<char> = Vec::new();
    let mut i: usize = 0;
    while i < v.len()
        invariant
            i <= v@.len(),
            v@ == s@,
            words(s@) == out@.map_values(|w: Vec<char>| w@) + words_from(s@, i as int, cur@),
        decreases v@.len() - i,
    {
        let ghost prev = out@.map_values(|w: Vec<char>| w@);
        if is_whitespace(v[i]) {
            if cur.len() > 0 {
                out.push(cur);
                assert(out@.map_values(|w: Vec<char>| w@) =~= prev.push(cur@));
            } else {
                assert(prev + Seq::<Seq<char>>::empty() =~= prev);
            }
            cur = Vec::new();
            proof {
                assert(words(s@) =~= out@.map_values(|w: Vec<char>| w@) + words_from(s@, i + 1, Seq::empty()));
            }
        } else {
            cur.push(v[i]);
        }
        i = i + 1;
    }
    if cur.len() > 0 {
        let ghost prev = out@.map_values(|w: Vec<char>| w@);
        out.push(cur);
        assert(out@.map_values(|w: Vec<char>| w@) =~= prev.push(out@[out@.len() - 1]@));
    }
    assert(words(s@) =~= out@.map_values(|w: Vec<char>| w@));
    out
}

fn copy_opt(o: &Option<String>) -> (r: Option<String>)
    ensures
        ostr(r) == ostr(*o),
{
    crate::text::clone_opt(o)
}

fn copy_arg(a: &ArgSchema) -> (r: ArgSchema)
    ensures
        arg_view(r) == arg_view(*a),
{
    ArgSchema {
        name: a.name.clone(),
        kind: a.kind.clone(),
        required: a.required,
        default: copy_opt(&a.default),
        description: copy_opt(&a.description),
    }
}

fn copy_args(v: &Vec<ArgSchema>) -> (r: Vec<ArgSchema>)
    ensures
        args_view(r@) == args_view(v@),
{
    let mut out: Vec<ArgSchema> = Vec::new();
    let mut i: usize = 0;
    while i < v.len()
        invariant
            i <= v@.len(),
            args_view(out@) == args_view(v@.take(i as int)),
        decreases v@.len() - i,
    {
        let ghost prev = out@;
        out.push(copy_arg(&v[i]));
        assert(args_view(out@) =~= args_view(prev).push(arg_view(v@[i as int])));
        assert(v@.take(i + 1) =~= v@.take(i as int).push(v@[i as int]));
        assert(args_view(v@.take(i + 1)) =~= args_view(v@.take(i as int)).push(arg_view(v@[i as int])));
        i = i + 1;
    }
    assert(v@.take(v@.len() as int) =~= v@);
    out
}

fn push_leaf_schemas(out: &mut Vec<CommandSchema>, n: &NounSpec)
    ensures
        schemas_view(final(out)@) == schemas_view(old(out)@) + leaf_schemas(noun_view(*n)),
{
    let ghost nv = noun_view(*n);
    let ghost vs = nv.4;
    let ghost start = schemas_view(out@);
    let mut k: usize = 0;
    let mut any: bool = false;
    while k < n.verbs.len()
        invariant
            k <= n.verbs@.len(),
            nv == noun_view(*n),
            vs == nv.4,
            vs.len() == n.verbs@.len(),
            schemas_view(out@) == start + Seq::new(visible_verbs(vs, k as nat).len(), |i: int| verb_schema(nv.0, visible_verbs(vs, k as nat)[i])),
            any == (visible_verbs(vs, k as nat).len() > 0),
        decreases n.verbs@.len() - k,
    {
        let v = &n.verbs[k];
        assert(vs[k as int] == verb_view(*v));
        let ghost before = schemas_view(out@);
        if !v.hidden {
            let mut name = chars_of(n.name.as_str());
            name.push(' ');
            push_str(&mut name, v.name.as_str());
            proof {
                reveal_strlit(" ");
                assert(name@ =~= nv.0 + " "@ + v.name@);
            }
            out.push(CommandSchema { name: string_from_chars(&name), description: copy_opt(&v.about), args: copy_args(&v.args) });
            any = true;
            assert(schemas_view(out@) =~= before.push(verb_schema(nv.0, vs[k as int])));
        }
        assert(schemas_view(out@) =~= start + Seq::new(visible_verbs(vs, (k + 1) as nat).len(), |i: int| verb_schema(nv.0, visible_verbs(vs, (k + 1) as nat)[i])));
        k = k + 1;
    }
    if !any {
        let ghost before = schemas_view(out@);
        out.push(CommandSchema { name: n.name.clone(), description: copy_opt(&n.about), args: copy_args(&n.args) });
        assert(schemas_view(out@) =~= before.push((nv.0, nv.2, nv.3)));
    }
    assert(schemas_view(out@) =~= start + leaf_schemas(nv));
}

fn find_noun(t: &Vec<NounSpec>, name: &Vec<char>) -> (r: Option<usize>)
    ensures
        match r {
            Some(i) => i < t@.len() && find_visible_noun(table_view(t@), name@, t@.len() as nat) == i,
            None => find_visible_noun(table_view(t@), name@, t@.len() as nat) == -1,
        },
{
    let ghost tv = table_view(t@);
    let mut k: usize = 0;
    while k < t.len()
        invariant
            k <= t@.len(),
            tv == table_view(t@),
            find_visible_noun(tv, name@, k as nat) == -1,
        decreases t@.len() - k,
    {
        let nm = chars_of(t[k].name.as_str());
        if !t[k].hidden && chars_eq(&nm, name) {
            proof {
                lemma_find_noun_stays(tv, name@, (k + 1) as nat, t@.len() as nat);
            }
            return Some(k);
        }
        k = k + 1;
    }
    None
}

proof fn lemma_find_noun_stays(t: Seq<NounV>, name: Seq<char>, k: nat, m: nat)
    requires
        k <= m <= t.len(),
        find_visible_noun(t, name, k) >= 0,
    ensures
        find_visible_noun(t, name, m) == find_visible_noun(t, name, k),
    decreases m - k,
{
    if k < m {
        lemma_find_noun_stays(t, name, k, (m - 1) as nat);
    }
}

proof fn lemma_find_verb_stays(t: Seq<VerbV>, name: Seq<char>, k: nat, m: nat)
    requires
        k <= m <= t.len(),
        find_visible_verb(t, name, k) >= 0,
    ensures
        find_visible_verb(t, name, m) == find_visible_verb(t, name, k),
    decreases m - k,
{
    if k < m {
        lemma_find_verb_stays(t, name, k, (m - 1) as nat);
    }
}

// ── One noun is the full list filtered ──────────────────────────────────────

/// `s` is one word: not empty, without white space.
pub open spec fn one_word(s: Seq<char>) -> bool {
    s.len() > 0 && forall|k: int| 0 <= k < s.len() ==> !is_ws(#[trigger] s[k])
}

/// A command table whose visible nouns have one-word names, no two alike, as
/// clap requires of subcommand names.
pub open spec fn table_names_ok(t: Seq<NounV>) -> bool {
    &&& forall|i: int| 0 <= i < t.len() && !t[i].1 ==> one_word(#[trigger] t[i].0)
    &&& forall|i: int, j: int| 0 <= i < j < t.len() && !t[i].1 && !t[j].1 ==> #[trigger] t[i].0 != #[trigger] t[j].0
}

/// A schema of noun `n`: named `n`, or `n` followed by a space and a verb.
pub open spec fn under_noun(n: Seq<char>, s: SchemaV) -> bool {
    s.0 == n || (n.len() + 1 <= s.0.len() && s.0.subrange(0, n.len() + 1 as int) == n + " "@)
}

/// [`under_noun`] as a predicate, for filtering.
pub open spec fn noun_filter(n: Seq<char>) -> spec_fn(SchemaV) -> bool {
    |s: SchemaV| under_noun(n, s)
}

proof fn lemma_words_from_one_word(s: Seq<char>, i: int, cur: Seq<char>)
    requires
        0 <= i <= s.len(),
        forall|k: int| i <= k < s.len() ==> !is_ws(#[trigger] s[k]),
    ensures
        words_from(s, i, cur) == (if cur.len() + (s.len() - i) > 0 { seq![cur + s.subrange(i, s.len() as int)] } else { seq![] }),
    decreases s.len() - i,
{
    if i < s.len() {
        lemma_words_from_one_word(s, i + 1, cur.push(s[i]));
        assert(cur.push(s[i]) + s.subrange(i + 1, s.len() as int) =~= cur + s.subrange(i, s.len() as int));
    } else {
        assert(cur + s.subrange(i, s.len() as int) =~= cur);
    }
}

proof fn lemma_words_one_word(s: Seq<char>)
    requires
        one_word(s),
    ensures
        words(s) == seq![s],
{
    lemma_words_from_one_word(s, 0, Seq::empty());
    assert(Seq::<char>::empty() + s.subrange(0, s.len() as int) =~= s);
}

proof fn lemma_find_unique(t: Seq<NounV>, n: Seq<char>, i0: int, k: nat)
    requires
        table_names_ok(t),
        0 <= i0 < t.len(),
        !t[i0].1,
        t[i0].0 == n,
        k <= t.len(),
    ensures
        find_visible_noun(t, n, k) == (if k > i0 { i0 } else { -1 }),
    decreases k,
{
    if k > 0 {
        lemma_find_unique(t, n, i0, (k - 1) as nat);
        let j = k - 1;
        if j < i0 && !t[j].1 {
            assert(t[j].0 != t[i0].0);
        }
    }
}

proof fn lemma_space_is_ws()
    ensures
        is_ws(' '),
{
}

proof fn lemma_name_under(m: Seq<char>, n: Seq<char>, about: Option<Seq<char>>, args: Seq<ArgV>)
    requires
        one_word(m),
        one_word(n),
    ensures
        under_noun(n, (m, about, args)) <==> m == n,
{
    reveal_strlit(" ");
    lemma_space_is_ws();
    if m != n && n.len() + 1 <= m.len() && m.subrange(0, n.len() + 1 as int) == n + " "@ {
        assert(m[n.len() as int] == m.subrange(0, n.len() + 1 as int)[n.len() as int]);
        assert((n + " "@)[n.len() as int] == ' ');
    }
}

proof fn lemma_verb_name_under(m: Seq<char>, v: VerbV, n: Seq<char>)
    requires
        one_word(m),
        one_word(n),
    ensures
        under_noun(n, verb_schema(m, v)) <==> m == n,
{
    reveal_strlit(" ");
    lemma_space_is_ws();
    let full = m + " "@ + v.0;
    let pre = n + " "@;
    assert(full[m.len() as int] == ' ');
    if m == n {
        assert(full.subrange(0, n.len() + 1 as int) =~= pre);
    } else {
        if full == n {
            assert(n[m.len() as int] == ' ');
        }
        if n.len() + 1 <= full.len() && full.subrange(0, n.len() + 1 as int) == pre {
            assert forall|k: int| 0 <= k <= n.len() implies full[k] == pre[k] by {
                assert(full.subrange(0, n.len() + 1 as int)[k] == full[k]);
            }
            if n.len() < m.len() {
                assert(full[n.len() as int] == m[n.len() as int]);
            } else if n.len() > m.len() {
                assert(pre[m.len() as int] == n[m.len() as int]);
            } else {
                assert(m =~= n) by {
                    assert forall|k: int| 0 <= k < m.len() implies m[k] == n[k] by {
                        assert(full[k] == m[k]);
                        assert(pre[k] == n[k]);
                    }
                }
            }
        }
    }
}

proof fn lemma_filter_keeps_all(s: Seq<SchemaV>, p: spec_fn(SchemaV) -> bool)
    requires
        forall|k: int| 0 <= k < s.len() ==> p(#[trigger] s[k]),
    ensures
        s.filter(p) == s,
    decreases s.len(),
{
    reveal(Seq::filter);
    if s.len() > 0 {
        lemma_filter_keeps_all(s.drop_last(), p);
        assert(s.drop_last().push(s.last()) =~= s);
    }
}

proof fn lemma_filter_keeps_none(s: Seq<SchemaV>, p: spec_fn(SchemaV) -> bool)
    requires
        forall|k: int| 0 <= k < s.len() ==> !p(#[trigger] s[k]),
    ensures
        s.filter(p) == Seq::<SchemaV>::empty(),
    decreases s.len(),
{
    reveal(Seq::filter);
    if s.len() > 0 {
        lemma_filter_keeps_none(s.drop_last(), p);
    }
}

proof fn lemma_leaf_filter(t: Seq<NounV>, j: int, n: Seq<char>)
    requires
        0 <= j < t.len(),
        one_word(t[j].0),
        one_word(n),
    ensures
        leaf_schemas(t[j]).filter(noun_filter(n)) == (if t[j].0 == n { leaf_schemas(t[j]) } else { Seq::<SchemaV>::empty() }),
{
    let m = t[j];
    let l = leaf_schemas(m);
    let vis = visible_verbs(m.4, m.4.len());
    assert forall|k: int| 0 <= k < l.len() implies (noun_filter(n)(#[trigger] l[k]) <==> m.0 == n) by {
        if vis.len() == 0 {
            lemma_name_under(m.0, n, m.2, m.3);
        } else {
            lemma_verb_name_under(m.0, vis[k], n);
        }
    }
    if m.0 == n {
        lemma_filter_keeps_all(l, noun_filter(n));
    } else {
        lemma_filter_keeps_none(l, noun_filter(n));
    }
}

proof fn lemma_all_schemas_filter(t: Seq<NounV>, n: Seq<char>, i0: int, k: nat)
    requires
        table_names_ok(t),
        0 <= i0 < t.len(),
        !t[i0].1,
        t[i0].0 == n,
        k <= t.len(),
    ensures
        all_schemas(t, k).filter(noun_filter(n)) == (if k > i0 { leaf_schemas(t[i0]) } else { Seq::<SchemaV>::empty() }),
    decreases k,
{
    broadcast use Seq::filter_distributes_over_add;
    if k == 0 {
        reveal(Seq::filter);
    } else {
        let j = k - 1;
        lemma_all_schemas_filter(t, n, i0, j as nat);
        let prev = all_schemas(t, j as nat);
        let x: Seq<SchemaV> = if t[j].1 { seq![] } else { leaf_schemas(t[j]) };
        assert(all_schemas(t, k) == prev + x);
        if t[j].1 {
            reveal(Seq::filter);
            assert(x.filter(noun_filter(n)) == x);
        } else {
            lemma_leaf_filter(t, j, n);
            if j != i0 {
                assert(t[j].0 != n) by {
                    if j < i0 {
                        assert(t[j].0 != t[i0].0);
                    } else {
                        assert(t[i0].0 != t[j].0);
                    }
                }
            }
        }
        assert((prev + x).filter(noun_filter(n)) == prev.filter(noun_filter(n)) + x.filter(noun_filter(n)));
        if k > i0 {
            if j == i0 {
                assert(Seq::<SchemaV>::empty() + leaf_schemas(t[i0]) =~= leaf_schemas(t[i0]));
            } else {
                assert(leaf_schemas(t[i0]) + Seq::<SchemaV>::empty() =~= leaf_schemas(t[i0]));
            }
        } else {
            assert(Seq::<SchemaV>::empty() + Seq::<SchemaV>::empty() =~= Seq::<SchemaV>::empty());
        }
    }
}

/// Asking for one noun gives the full list filtered to that noun: in a table
/// whose visible nouns have one-word names, no two alike, the schemas for a
/// visible noun `n` are exactly the schemas of all leaf commands that are
/// named `n` or `n` and a verb, in the same order.
pub proof fn law_noun_schemas_filter_all(t: Seq<NounV>, n: Seq<char>)
    requires
        table_names_ok(t),
        exists|i: int| 0 <= i < t.len() && !t[i].1 && #[trigger] t[i].0 == n,
    ensures
        schemas_for(t, None) == Ok::<Seq<SchemaV>, Seq<char>>(all_schemas(t, t.len())),
        schemas_for(t, Some(n)) == Ok::<Seq<SchemaV>, Seq<char>>(all_schemas(t, t.len()).filter(noun_filter(n))),
{
    let i0 = choose|i: int| 0 <= i < t.len() && !t[i].1 && #[trigger] t[i].0 == n;
    assert(one_word(t[i0].0));
    lemma_words_one_word(n);
    lemma_find_unique(t, n, i0, t.len());
    lemma_all_schemas_filter(t, n, i0, t.len());
    let vis = visible_verbs(t[i0].4, t[i0].4.len());
    assert(leaf_schemas(t[i0]).len() > 0);
}

fn find_verb(n: &NounSpec, name: &Vec<char>) -> (r: Option<usize>)
    ensures
        match r {
            Some(j) => j < n.verbs@.len() && find_visible_verb(noun_view(*n).4, name@, n.verbs@.len() as nat) == j,
            None => find_visible_verb(noun_view(*n).4, name@, n.verbs@.len() as nat) == -1,
        },
{
    let ghost vs = noun_view(*n).4;
    let mut k: usize = 0;
    while k < n.verbs.len()
        invariant
            k <= n.verbs@.len(),
            vs == noun_view(*n).4,
            find_visible_verb(vs, name@, k as nat) == -1,
        decreases n.verbs@.len() - k,
    {
        let nm = chars_of(n.verbs[k].name.as_str());
        assert(vs[k as int] == verb_view(n.verbs@[k as int]));
        if !n.verbs[k].hidden && chars_eq(&nm, name) {
            proof {
                lemma_find_verb_stays(vs, name@, (k + 1) as nat, n.verbs@.len() as nat);
            }
            return Some(k);
        }
        k = k + 1;
    }
    None
}

fn message(prefix: &str, tail: &Vec<char>) -> (r: String)
    ensures
        r@ == prefix@ + tail@,
{
    let mut m = chars_of(prefix);
    push_all(&mut m, tail);
    string_from_chars(&m)
}

/// The view of a schema result.
pub open spec fn result_view(r: Result<Vec<CommandSchema>, String>) -> Result<Seq<SchemaV>, Seq<char>> {
    match r {
        Ok(v) => Ok(schemas_view(v@)),
        Err(m) => Err(m@),
    }
}

/// The view of an optional `&str`.
pub open spec fn ostr_ref(o: Option<&str>) -> Option<Seq<char>> {
    match o {
        Some(s) => Some(s@),
        None => None,
    }
}

/// Argument ids that are not described: clap's own `help` and `version`, and
/// the global `vault`.
pub open spec fn skipped_arg(id: Seq<char>) -> bool {
    id == "help"@ || id == "version"@ || id == "vault"@
}

/// The schema of one argument from what clap records of it: none for a
/// skipped id; else named by its id when positional and by its long name (or
/// its id) otherwise, of kind `positional`, `flag` (a set-true or set-false
/// action) or `option`.
pub open spec fn arg_schema_spec(
    id: Seq<char>,
    positional: bool,
    flag: bool,
    long: Option<Seq<char>>,
    default: Option<Seq<char>>,
    help: Option<Seq<char>>,
    required: bool,
) -> Option<ArgV> {
    if skipped_arg(id) {
        None
    } else {
        let name = if positional {
            id
        } else {
            match long {
                Some(l) => l,
                None => id,
            }
        };
        let kind = if positional { "positional"@ } else if flag { "flag"@ } else { "option"@ };
        Some((name, kind, required, default, help))
    }
}

fn opt_owned(o: Option<&str>) -> (r: Option<String>)
    ensures
        ostr(r) == ostr_ref(o),
{
    match o {
        Some(s) => Some(owned(s)),
        None => None,
    }
}

/// The schema of one argument (see [`arg_schema_spec`]).
pub fn arg_schema_of(
    id: &str,
    positional: bool,
    flag: bool,
    long: Option<&str>,
    default: Option<&str>,
    help: Option<&str>,
    required: bool,
) -> (r: Option<ArgSchema>)
    ensures
        (match r {
            Some(a) => Some(arg_view(a)),
            None => None,
        }) == arg_schema_spec(id@, positional, flag, ostr_ref(long), ostr_ref(default), ostr_ref(help), required),
{
    let idv = chars_of(id);
    if str_eq(&idv, "help") || str_eq(&idv, "version") || str_eq(&idv, "vault") {
        return None;
    }
    let name = if positional {
        owned(id)
    } else {
        match long {
            Some(l) => owned(l),
            None => owned(id),
        }
    };
    let kind = if positional { owned("positional") } else if flag { owned("flag") } else { owned("option") };
    Some(ArgSchema { name, kind, required, default: opt_owned(default), description: opt_owned(help) })
}

/// Schemas from the command table `table` (see [`schemas_for`]): `None` for
/// all leaf commands, `Some("noun")` for the verbs of a noun, `Some("noun
/// verb")` for one command.
pub fn build_schemas_in(table: &Vec<NounSpec>, noun_verb: Option<&str>) -> (r: Result<Vec<CommandSchema>, String>)
    ensures
        result_view(r) == schemas_for(table_view(table@), ostr_ref(noun_verb)),
{
    let ghost tv = table_view(table@);
    match noun_verb {
        None => {
            let mut out: Vec<CommandSchema> = Vec::new();
            let mut k: usize = 0;
            while k < table.len()
                invariant
                    k <= table@.len(),
                    tv == table_view(table@),
                    schemas_view(out@) == all_schemas(tv, k as nat),
                decreases table@.len() - k,
            {
                assert(tv[k as int] == noun_view(table@[k as int]));
                if !table[k].hidden {
                    push_leaf_schemas(&mut out, &table[k]);
                } else {
                    assert(schemas_view(out@) =~= all_schemas(tv, (k + 1) as nat));
                }
                k = k + 1;
            }
            Ok(out)
        },
        Some(s) => {
            let w = words_exec(s);
            let ghost wv = w@.map_values(|x: Vec<char>| x@);
            if w.len() == 1 {
                assert(wv[0] == w@[0]@);
                match find_noun(table, &w[0]) {
                    None => Err(message("unknown subcommand: ", &w[0])),
                    Some(i) => {
                        assert(tv[i as int] == noun_view(table@[i as int]));
                        let mut out: Vec<CommandSchema> = Vec::new();
                        push_leaf_schemas(&mut out, &table[i]);
                        assert(schemas_view(out@) =~= leaf_schemas(tv[i as int]));
                        if out.len() == 0 {
                            return Err(message("no schema found for: ", &w[0]));
                        }
                        Ok(out)
                    },
                }
            } else if w.len() == 2 {
                assert(wv[0] == w@[0]@);
                assert(wv[1] == w@[1]@);
                match find_noun(table, &w[0]) {
                    None => Err(message("unknown noun: ", &w[0])),
                    Some(i) => {
                        assert(tv[i as int] == noun_view(table@[i as int]));
                        match find_verb(&table[i], &w[1]) {
                            None => Err(message("unknown verb: ", &w[1])),
                            Some(j) => {
                                let v = &table[i].verbs[j];
                                assert(tv[i as int].4[j as int] == verb_view(*v));
                                let mut name = slice_all(&w[0]);
                                name.push(' ');
                                push_all(&mut name, &w[1]);
                                proof {
                                    reveal_strlit(" ");
                                    assert(name@ =~= wv[0] + " "@ + wv[1]);
                                }
                                let mut out: Vec<CommandSchema> = Vec::new();
                                out.push(CommandSchema { name: string_from_chars(&name), description: copy_opt(&v.about), args: copy_args(&v.args) });
                                assert(schemas_view(out@) =~= seq![(wv[0] + " "@ + wv[1], tv[i as int].4[j as int].2, tv[i as int].4[j as int].3)]);
                                Ok(out)
                            },
                        }
                    },
                }
            } else {
                let sv = chars_of(s);
                Err(message("invalid subcommand specifier: ", &sv))
            }
        },
    }
}

fn slice_all(v: &Vec<char>) -> (r: Vec<char>)
    ensures
        r@ == v@,
{
    crate::text::slice_chars(v, 0, v.len())
}

// ── The command table ────────────────────────────────────────────────────────

fn arg(name: &str, kind: &str, required: bool, default: Option<&str>, help: Option<&str>) -> (r: ArgSchema)
    ensures
        arg_view(r) == (name@, kind@, required, ostr_ref(default), ostr_ref(help)),
{
    ArgSchema {
        name: owned(name),
        kind: owned(kind),
        required,
        default: match default {
            Some(d) => Some(owned(d)),
            None => None,
        },
        description: match help {
            Some(h) => Some(owned(h)),
            None => None,
        },
    }
}

/// The command `file`.
pub open spec fn noun_0() -> NounV {
    ("file"@, false, Some("File operations (read / write / list)"@), Seq::<ArgV>::empty(), seq![("read"@, false, Some("Read a file and output its contents"@), seq![("path"@, "positional"@, true, None, None), ("format"@, "option"@, false, Some("raw"@), None)]), ("write"@, false, Some("Write stdin to a file (atomic)"@), seq![("path"@, "positional"@, true, None, None), ("yes"@, "flag"@, false, None, None), ("if-match"@, "option"@, false, None, Some("Optimistic mtime lock (Unix seconds from `file read --format json`). Reject with exit 4 if the file's mtime has changed since this value"@)), ("format"@, "option"@, false, Some("json"@), None)]), ("list"@, false, Some("List .md files in the vault"@), seq![("tree"@, "flag"@, false, None, None), ("format"@, "option"@, false, Some("json"@), None)])])
}

/// The command `note`.
pub open spec fn noun_1() -> NounV {
    ("note"@, false, Some("Note operations (render / backlinks)"@), Seq::<ArgV>::empty(), seq![("render"@, false, Some("Render Markdown to HTML"@), seq![("path"@, "positional"@, true, None, None), ("format"@, "option"@, false, Some("raw"@), None)]), ("backlinks"@, false, Some("Show backlinks to a note"@), seq![("path"@, "positional"@, true, None, None), ("format"@, "option"@, false, Some("json"@), None)]), ("scan"@, false, Some("Scan a note for invisible characters"@), seq![("path"@, "positional"@, true, None, None), ("format"@, "option"@, false, Some("json"@), None)]), ("revision"@, false, Some("Rename a note and update all wikilink references (Revision system)"@), seq![("path"@, "positional"@, true, None, Some("Vault-relative path of the note to revise"@)), ("dry-run"@, "flag"@, false, None, Some("Plan without applying (always safe)"@)), ("diff"@, "flag"@, false, None, Some("(with --dry-run) Write unified diff to a temp file; add diff_path to JSON"@)), ("format"@, "option"@, false, Some("text"@), Some("Output format: text (default) | json | diff"@)), ("naming"@, "option"@, false, None, Some("Naming style (default: read from config.toml)"@)), ("name"@, "option"@, false, None, Some("Explicit new name (required when --naming=manual)"@)), ("yes"@, "flag"@, false, None, Some("Apply without interactive confirmation (required in non-TTY)"@))])])
}

/// The command `vault`.
pub open spec fn noun_2() -> NounV {
    ("vault"@, false, Some("Vault operations (search / status)"@), Seq::<ArgV>::empty(), seq![("search"@, false, Some("Full-text search"@), seq![("query"@, "positional"@, true, None, None), ("regex"@, "flag"@, false, None, Some("Treat query as a regex pattern instead of a literal string"@)), ("format"@, "option"@, false, Some("json"@), None)]), ("status"@, false, Some("Vault state report"@), seq![("format"@, "option"@, false, Some("json"@), None)]), ("scan"@, false, Some("Scan entire vault for invisible characters"@), seq![("format"@, "option"@, false, Some("json"@), None)])])
}

/// The command `appearance`.
pub open spec fn noun_3() -> NounV {
    ("appearance"@, false, Some("Appearance settings (global scope)"@), Seq::<ArgV>::empty(), seq![("contrast"@, false, Some("Calculate WCAG 2.x contrast ratio between two hex colors"@), seq![("fg"@, "positional"@, true, None, Some("Foreground color (#rrggbb or #rgb)"@)), ("bg"@, "positional"@, true, None, Some("Background color (#rrggbb or #rgb)"@)), ("assert-aa"@, "flag"@, false, None, Some("Exit 5 if ratio is below WCAG AA (≥4.5)"@)), ("assert-aaa"@, "flag"@, false, None, Some("Exit 5 if ratio is below WCAG AAA (≥7.0)"@)), ("format"@, "option"@, false, Some("text"@), None)]), ("set"@, false, Some("Set appearance configuration (vault scope by default)"@), seq![("preset"@, "option"@, false, None, Some("Apply a named color preset"@)), ("fg"@, "option"@, false, None, Some("Foreground hex color (requires --bg; F24)"@)), ("bg"@, "option"@, false, None, Some("Background hex color (requires --fg; F24)"@)), ("require-aa"@, "flag"@, false, None, Some("Reject custom fg/bg if WCAG AA contrast (4.5) is not met"@)), ("scope"@, "option"@, false, Some("vault"@), Some("Configuration scope: vault (default) or global"@)), ("format"@, "option"@, false, Some("text"@), None)]), ("template"@, false, Some("Output a template appearance.toml"@), seq![("format"@, "option"@, false, Some("text"@), None)]), ("status"@, false, Some("Show the effective appearance configuration and WCAG contrast status"@), seq![("format"@, "option"@, false, Some("json"@), Some("Output format: json (default) | text"@))])])
}

/// The command `mcp`.
pub open spec fn noun_4() -> NounV {
    ("mcp"@, false, Some("MCP server mode (stdio JSON-RPC)"@), Seq::<ArgV>::empty(), Seq::<VerbV>::empty())
}

/// The command `describe`.
pub open spec fn noun_5() -> NounV {
    ("describe"@, false, Some("Print JSON schema for a subcommand's arguments"@), seq![("subcommand"@, "positional"@, false, None, Some("Subcommand to describe, e.g. \"file read\" or \"note\" (omit for all)"@)), ("format"@, "option"@, false, Some("json"@), Some("Output format: json (default) | text"@))], Seq::<VerbV>::empty())
}

/// The command `generate-man`.
pub open spec fn noun_6() -> NounV {
    ("generate-man"@, true, Some("Generate man page"@), Seq::<ArgV>::empty(), Seq::<VerbV>::empty())
}

/// The command `read`.
pub open spec fn noun_7() -> NounV {
    ("read"@, true, None, seq![("path"@, "positional"@, true, None, None), ("format"@, "option"@, false, Some("raw"@), None)], Seq::<VerbV>::empty())
}

/// The command `write`.
pub open spec fn noun_8() -> NounV {
    ("write"@, true, None, seq![("path"@, "positional"@, true, None, None), ("yes"@, "flag"@, false, None, None), ("if-match"@, "option"@, false, None, None), ("format"@, "option"@, false, Some("json"@), None)], Seq::<VerbV>::empty())
}

/// The command `list`.
pub open spec fn noun_9() -> NounV {
    ("list"@, true, None, seq![("tree"@, "flag"@, false, None, None), ("format"@, "option"@, false, Some("json"@), None)], Seq::<VerbV>::empty())
}

/// The command `render`.
pub open spec fn noun_10() -> NounV {
    ("render"@, true, None, seq![("path"@, "positional"@, true, None, None), ("format"@, "option"@, false, Some("raw"@), None)], Seq::<VerbV>::empty())
}

/// The command `backlinks`.
pub open spec fn noun_11() -> NounV {
    ("backlinks"@, true, None, seq![("path"@, "positional"@, true, None, None), ("format"@, "option"@, false, Some("json"@), None)], Seq::<VerbV>::empty())
}

/// The command `revision`.
pub open spec fn noun_12() -> NounV {
    ("revision"@, true, None, seq![("path"@, "positional"@, true, None, None), ("dry-run"@, "flag"@, false, None, None), ("diff"@, "flag"@, false, None, None), ("format"@, "option"@, false, Some("text"@), None), ("naming"@, "option"@, false, None, None), ("name"@, "option"@, false, None, None), ("yes"@, "flag"@, false, None, None)], Seq::<VerbV>::empty())
}

/// The command `search`.
pub open spec fn noun_13() -> NounV {
    ("search"@, true, None, seq![("query"@, "positional"@, true, None, None), ("regex"@, "flag"@, false, None, None), ("format"@, "option"@, false, Some("json"@), None)], Seq::<VerbV>::empty())
}

/// The command `status`.
pub open spec fn noun_14() -> NounV {
    ("status"@, true, None, seq![("format"@, "option"@, false, Some("json"@), None)], Seq::<VerbV>::empty())
}

/// The command `scan`.
pub open spec fn noun_15() -> NounV {
    ("scan"@, true, Some("`note scan` alias (hidden)"@), seq![("path"@, "positional"@, true, None, None), ("format"@, "option"@, false, Some("json"@), None)], Seq::<VerbV>::empty())
}

/// The command-line grammar: every top-level command in order.
pub open spec fn cli_table() -> Seq<NounV> {
    seq![noun_0(), noun_1(), noun_2(), noun_3(), noun_4(), noun_5(), noun_6(), noun_7(), noun_8(), noun_9(), noun_10(), noun_11(), noun_12(), noun_13(), noun_14(), noun_15()]
}

fn noun_0_exec() -> (r: NounSpec)
    ensures
        noun_view(r) == noun_0(),
{
    let mut args: Vec<ArgSchema> = Vec::new();
    let mut verbs: Vec<VerbSpec> = Vec::new();
    {
        let mut va: Vec<ArgSchema> = Vec::new();
        va.push(arg("path", "positional", true, None, None));
        va.push(arg("format", "option", false, Some("raw"), None));
        assert(args_view(va@) =~= seq![("path"@, "positional"@, true, None, None), ("format"@, "option"@, false, Some("raw"@), None)]);
        verbs.push(VerbSpec { name: owned("read"), hidden: false, about: Some(owned("Read a file and output its contents")), args: va });
    }
    {
        let mut va: Vec<ArgSchema> = Vec::new();
        va.push(arg("path", "positional", true, None, None));
        va.push(arg("yes", "flag", false, None, None));
        va.push(arg("if-match", "option", false, None, Some("Optimistic mtime lock (Unix seconds from `file read --format json`). Reject with exit 4 if the file's mtime has changed since this value")));
        va.push(arg("format", "option", false, Some("json"), None));
        assert(args_view(va@) =~= seq![("path"@, "positional"@, true, None, None), ("yes"@, "flag"@, false, None, None), ("if-match"@, "option"@, false, None, Some("Optimistic mtime lock (Unix seconds from `file read --format json`). Reject with exit 4 if the file's mtime has changed since this value"@)), ("format"@, "option"@, false, Some("json"@), None)]);
        verbs.push(VerbSpec { name: owned("write"), hidden: false, about: Some(owned("Write stdin to a file (atomic)")), args: va });
    }
    {
        let mut va: Vec<ArgSchema> = Vec::new();
        va.push(arg("tree", "flag", false, None, None));
        va.push(arg("format", "option", false, Some("json"), None));
        assert(args_view(va@) =~= seq![("tree"@, "flag"@, false, None, None), ("format"@, "option"@, false, Some("json"@), None)]);
        verbs.push(VerbSpec { name: owned("list"), hidden: false, about: Some(owned("List .md files in the vault")), args: va });
    }
    let r = NounSpec { name: owned("file"), hidden: false, about: Some(owned("File operations (read / write / list)")), args, verbs };
    assert(args_view(r.args@) =~= noun_0().3);
    assert(r.verbs@.map_values(|v: VerbSpec| verb_view(v)) =~~= noun_0().4);
    r
}

fn noun_1_exec() -> (r: NounSpec)
    ensures
        noun_view(r) == noun_1(),
{
    let mut args: Vec<ArgSchema> = Vec::new();
    let mut verbs: Vec<VerbSpec> = Vec::new();
    {
        let mut va: Vec<ArgSchema> = Vec::new();
        va.push(arg("path", "positional", true, None, None));
        va.push(arg("format", "option", false, Some("raw"), None));
        assert(args_view(va@) =~= seq![("path"@, "positional"@, true, None, None), ("format"@, "option"@, false, Some("raw"@), None)]);
        verbs.push(VerbSpec { name: owned("render"), hidden: false, about: Some(owned("Render Markdown to HTML")), args: va });
    }
    {
        let mut va: Vec<ArgSchema> = Vec::new();
        va.push(arg("path", "positional", true, None, None));
        va.push(arg("format", "option", false, Some("json"), None));
        assert(args_view(va@) =~= seq![("path"@, "positional"@, true, None, None), ("format"@, "option"@, false, Some("json"@), None)]);
        verbs.push(VerbSpec { name: owned("backlinks"), hidden: false, about: Some(owned("Show backlinks to a note")), args: va });
    }
    {
        let mut va: Vec<ArgSchema> = Vec::new();
        va.push(arg("path", "positional", true, None, None));
        va.push(arg("format", "option", false, Some("json"), None));
        assert(args_view(va@) =~= seq![("path"@, "positional"@, true, None, None), ("format"@, "option"@, false, Some("json"@), None)]);
        verbs.push(VerbSpec { name: owned("scan"), hidden: false, about: Some(owned("Scan a note for invisible characters")), args: va });
    }
    {
        let mut va: Vec<ArgSchema> = Vec::new();
        va.push(arg("path", "positional", true, None, Some("Vault-relative path of the note to revise")));
        va.push(arg("dry-run", "flag", false, None, Some("Plan without applying (always safe)")));
        va.push(arg("diff", "flag", false, None, Some("(with --dry-run) Write unified diff to a temp file; add diff_path to JSON")));
        va.push(arg("format", "option", false, Some("text"), Some("Output format: text (default) | json | diff")));
        va.push(arg("naming", "option", false, None, Some("Naming style (default: read from config.toml)")));
        va.push(arg("name", "option", false, None, Some("Explicit new name (required when --naming=manual)")));
        va.push(arg("yes", "flag", false, None, Some("Apply without interactive confirmation (required in non-TTY)")));
        assert(args_view(va@) =~= seq![("path"@, "positional"@, true, None, Some("Vault-relative path of the note to revise"@)), ("dry-run"@, "flag"@, false, None, Some("Plan without applying (always safe)"@)), ("diff"@, "flag"@, false, None, Some("(with --dry-run) Write unified diff to a temp file; add diff_path to JSON"@)), ("format"@, "option"@, false, Some("text"@), Some("Output format: text (default) | json | diff"@)), ("naming"@, "option"@, false, None, Some("Naming style (default: read from config.toml)"@)), ("name"@, "option"@, false, None, Some("Explicit new name (required when --naming=manual)"@)), ("yes"@, "flag"@, false, None, Some("Apply without interactive confirmation (required in non-TTY)"@))]);
        verbs.push(VerbSpec { name: owned("revision"), hidden: false, about: Some(owned("Rename a note and update all wikilink references (Revision system)")), args: va });
    }
    let r = NounSpec { name: owned("note"), hidden: false, about: Some(owned("Note operations (render / backlinks)")), args, verbs };
    assert(args_view(r.args@) =~= noun_1().3);
    assert(r.verbs@.map_values(|v: VerbSpec| verb_view(v)) =~~= noun_1().4);
    r
}

fn noun_2_exec() -> (r: NounSpec)
    ensures
        noun_view(r) == noun_2(),
{
    let mut args: Vec<ArgSchema> = Vec::new();
    let mut verbs: Vec<VerbSpec> = Vec::new();
    {
        let mut va: Vec<ArgSchema> = Vec::new();
        va.push(arg("query", "positional", true, None, None));
        va.push(arg("regex", "flag", false, None, Some("Treat query as a regex pattern instead of a literal string")));
        va.push(arg("format", "option", false, Some("json"), None));
        assert(args_view(va@) =~= seq![("query"@, "positional"@, true, None, None), ("regex"@, "flag"@, false, None, Some("Treat query as a regex pattern instead of a literal string"@)), ("format"@, "option"@, false, Some("json"@), None)]);
        verbs.push(VerbSpec { name: owned("search"), hidden: false, about: Some(owned("Full-text search")), args: va });
    }
    {
        let mut va: Vec<ArgSchema> = Vec::new();
        va.push(arg("format", "option", false, Some("json"), None));
        assert(args_view(va@) =~= seq![("format"@, "option"@, false, Some("json"@), None)]);
        verbs.push(VerbSpec { name: owned("status"), hidden: false, about: Some(owned("Vault state report")), args: va });
    }
    {
        let mut va: Vec<ArgSchema> = Vec::new();
        va.push(arg("format", "option", false, Some("json"), None));
        assert(args_view(va@) =~= seq![("format"@, "option"@, false, Some("json"@), None)]);
        verbs.push(VerbSpec { name: owned("scan"), hidden: false, about: Some(owned("Scan entire vault for invisible characters")), args: va });
    }
    let r = NounSpec { name: owned("vault"), hidden: false, about: Some(owned("Vault operations (search / status)")), args, verbs };
    assert(args_view(r.args@) =~= noun_2().3);
    assert(r.verbs@.map_values(|v: VerbSpec| verb_view(v)) =~~= noun_2().4);
    r
}

fn noun_3_exec() -> (r: NounSpec)
    ensures
        noun_view(r) == noun_3(),
{
    let mut args: Vec<ArgSchema> = Vec::new();
    let mut verbs: Vec<VerbSpec> = Vec::new();
    {
        let mut va: Vec<ArgSchema> = Vec::new();
        va.push(arg("fg", "positional", true, None, Some("Foreground color (#rrggbb or #rgb)")));
        va.push(arg("bg", "positional", true, None, Some("Background color (#rrggbb or #rgb)")));
        va.push(arg("assert-aa", "flag", false, None, Some("Exit 5 if ratio is below WCAG AA (≥4.5)")));
        va.push(arg("assert-aaa", "flag", false, None, Some("Exit 5 if ratio is below WCAG AAA (≥7.0)")));
        va.push(arg("format", "option", false, Some("text"), None));
        assert(args_view(va@) =~= seq![("fg"@, "positional"@, true, None, Some("Foreground color (#rrggbb or #rgb)"@)), ("bg"@, "positional"@, true, None, Some("Background color (#rrggbb or #rgb)"@)), ("assert-aa"@, "flag"@, false, None, Some("Exit 5 if ratio is below WCAG AA (≥4.5)"@)), ("assert-aaa"@, "flag"@, false, None, Some("Exit 5 if ratio is below WCAG AAA (≥7.0)"@)), ("format"@, "option"@, false, Some("text"@), None)]);
        verbs.push(VerbSpec { name: owned("contrast"), hidden: false, about: Some(owned("Calculate WCAG 2.x contrast ratio between two hex colors")), args: va });
    }
    {
        let mut va: Vec<ArgSchema> = Vec::new();
        va.push(arg("preset", "option", false, None, Some("Apply a named color preset")));
        va.push(arg("fg", "option", false, None, Some("Foreground hex color (requires --bg; F24)")));
        va.push(arg("bg", "option", false, None, Some("Background hex color (requires --fg; F24)")));
        va.push(arg("require-aa", "flag", false, None, Some("Reject custom fg/bg if WCAG AA contrast (4.5) is not met")));
        va.push(arg("scope", "option", false, Some("vault"), Some("Configuration scope: vault (default) or global")));
        va.push(arg("format", "option", false, Some("text"), None));
        assert(args_view(va@) =~= seq![("preset"@, "option"@, false, None, Some("Apply a named color preset"@)), ("fg"@, "option"@, false, None, Some("Foreground hex color (requires --bg; F24)"@)), ("bg"@, "option"@, false, None, Some("Background hex color (requires --fg; F24)"@)), ("require-aa"@, "flag"@, false, None, Some("Reject custom fg/bg if WCAG AA contrast (4.5) is not met"@)), ("scope"@, "option"@, false, Some("vault"@), Some("Configuration scope: vault (default) or global"@)), ("format"@, "option"@, false, Some("text"@), None)]);
        verbs.push(VerbSpec { name: owned("set"), hidden: false, about: Some(owned("Set appearance configuration (vault scope by default)")), args: va });
    }
    {
        let mut va: Vec<ArgSchema> = Vec::new();
        va.push(arg("format", "option", false, Some("text"), None));
        assert(args_view(va@) =~= seq![("format"@, "option"@, false, Some("text"@), None)]);
        verbs.push(VerbSpec { name: owned("template"), hidden: false, about: Some(owned("Output a template appearance.toml")), args: va });
    }
    {
        let mut va: Vec<ArgSchema> = Vec::new();
        va.push(arg("format", "option", false, Some("json"), Some("Output format: json (default) | text")));
        assert(args_view(va@) =~= seq![("format"@, "option"@, false, Some("json"@), Some("Output format: json (default) | text"@))]);
        verbs.push(VerbSpec { name: owned("status"), hidden: false, about: Some(owned("Show the effective appearance configuration and WCAG contrast status")), args: va });
    }
    let r = NounSpec { name: owned("appearance"), hidden: false, about: Some(owned("Appearance settings (global scope)")), args, verbs };
    assert(args_view(r.args@) =~= noun_3().3);
    assert(r.verbs@.map_values(|v: VerbSpec| verb_view(v)) =~~= noun_3().4);
    r
}

fn noun_4_exec() -> (r: NounSpec)
    ensures
        noun_view(r) == noun_4(),
{
    let mut args: Vec<ArgSchema> = Vec::new();
    let mut verbs: Vec<VerbSpec> = Vec::new();
    let r = NounSpec { name: owned("mcp"), hidden: false, about: Some(owned("MCP server mode (stdio JSON-RPC)")), args, verbs };
    assert(args_view(r.args@) =~= noun_4().3);
    assert(r.verbs@.map_values(|v: VerbSpec| verb_view(v)) =~~= noun_4().4);
    r
}

fn noun_5_exec() -> (r: NounSpec)
    ensures
        noun_view(r) == noun_5(),
{
    let mut args: Vec<ArgSchema> = Vec::new();
    args.push(arg("subcommand", "positional", false, None, Some("Subcommand to describe, e.g. \"file read\" or \"note\" (omit for all)")));
    args.push(arg("format", "option", false, Some("json"), Some("Output format: json (default) | text")));
    let mut verbs: Vec<VerbSpec> = Vec::new();
    let r = NounSpec { name: owned("describe"), hidden: false, about: Some(owned("Print JSON schema for a subcommand's arguments")), args, verbs };
    assert(args_view(r.args@) =~= noun_5().3);
    assert(r.verbs@.map_values(|v: VerbSpec| verb_view(v)) =~~= noun_5().4);
    r
}

fn noun_6_exec() -> (r: NounSpec)
    ensures
        noun_view(r) == noun_6(),
{
    let mut args: Vec<ArgSchema> = Vec::new();
    let mut verbs: Vec<VerbSpec> = Vec::new();
    let r = NounSpec { name: owned("generate-man"), hidden: true, about: Some(owned("Generate man page")), args, verbs };
    assert(args_view(r.args@) =~= noun_6().3);
    assert(r.verbs@.map_values(|v: VerbSpec| verb_view(v)) =~~= noun_6().4);
    r
}

fn noun_7_exec() -> (r: NounSpec)
    ensures
        noun_view(r) == noun_7(),
{
    let mut args: Vec<ArgSchema> = Vec::new();
    args.push(arg("path", "positional", true, None, None));
    args.push(arg("format", "option", false, Some("raw"), None));
    let mut verbs: Vec<VerbSpec> = Vec::new();
    let r = NounSpec { name: owned("read"), hidden: true, about: None, args, verbs };
    assert(args_view(r.args@) =~= noun_7().3);
    assert(r.verbs@.map_values(|v: VerbSpec| verb_view(v)) =~~= noun_7().4);
    r
}

fn noun_8_exec() -> (r: NounSpec)
    ensures
        noun_view(r) == noun_8(),
{
    let mut args: Vec<ArgSchema> = Vec::new();
    args.push(arg("path", "positional", true, None, None));
    args.push(arg("yes", "flag", false, None, None));
    args.push(arg("if-match", "option", false, None, None));
    args.push(arg("format", "option", false, Some("json"), None));
    let mut verbs: Vec<VerbSpec> = Vec::new();
    let r = NounSpec { name: owned("write"), hidden: true, about: None, args, verbs };
    assert(args_view(r.args@) =~= noun_8().3);
    assert(r.verbs@.map_values(|v: VerbSpec| verb_view(v)) =~~= noun_8().4);
    r
}

fn noun_9_exec() -> (r: NounSpec)
    ensures
        noun_view(r) == noun_9(),
{
    let mut args: Vec<ArgSchema> = Vec::new();
    args.push(arg("tree", "flag", false, None, None));
    args.push(arg("format", "option", false, Some("json"), None));
    let mut verbs: Vec<VerbSpec> = Vec::new();
    let r = NounSpec { name: owned("list"), hidden: true, about: None, args, verbs };
    assert(args_view(r.args@) =~= noun_9().3);
    assert(r.verbs@.map_values(|v: VerbSpec| verb_view(v)) =~~= noun_9().4);
    r
}

fn noun_10_exec() -> (r: NounSpec)
    ensures
        noun_view(r) == noun_10(),
{
    let mut args: Vec<ArgSchema> = Vec::new();
    args.push(arg("path", "positional", true, None, None));
    args.push(arg("format", "option", false, Some("raw"), None));
    let mut verbs: Vec<VerbSpec> = Vec::new();
    let r = NounSpec { name: owned("render"), hidden: true, about: None, args, verbs };
    assert(args_view(r.args@) =~= noun_10().3);
    assert(r.verbs@.map_values(|v: VerbSpec| verb_view(v)) =~~= noun_10().4);
    r
}

fn noun_11_exec() -> (r: NounSpec)
    ensures
        noun_view(r) == noun_11(),
{
    let mut args: Vec<ArgSchema> = Vec::new();
    args.push(arg("path", "positional", true, None, None));
    args.push(arg("format", "option", false, Some("json"), None));
    let mut verbs: Vec<VerbSpec> = Vec::new();
    let r = NounSpec { name: owned("backlinks"), hidden: true, about: None, args, verbs };
    assert(args_view(r.args@) =~= noun_11().3);
    assert(r.verbs@.map_values(|v: VerbSpec| verb_view(v)) =~~= noun_11().4);
    r
}

fn noun_12_exec() -> (r: NounSpec)
    ensures
        noun_view(r) == noun_12(),
{
    let mut args: Vec<ArgSchema> = Vec::new();
    args.push(arg("path", "positional", true, None, None));
    args.push(arg("dry-run", "flag", false, None, None));
    args.push(arg("diff", "flag", false, None, None));
    args.push(arg("format", "option", false, Some("text"), None));
    args.push(arg("naming", "option", false, None, None));
    args.push(arg("name", "option", false, None, None));
    args.push(arg("yes", "flag", false, None, None));
    let mut verbs: Vec<VerbSpec> = Vec::new();
    let r = NounSpec { name: owned("revision"), hidden: true, about: None, args, verbs };
    assert(args_view(r.args@) =~= noun_12().3);
    assert(r.verbs@.map_values(|v: VerbSpec| verb_view(v)) =~~= noun_12().4);
    r
}

fn noun_13_exec() -> (r: NounSpec)
    ensures
        noun_view(r) == noun_13(),
{
    let mut args: Vec<ArgSchema> = Vec::new();
    args.push(arg("query", "positional", true, None, None));
    args.push(arg("regex", "flag", false, None, None));
    args.push(arg("format", "option", false, Some("json"), None));
    let mut verbs: Vec<VerbSpec> = Vec::new();
    let r = NounSpec { name: owned("search"), hidden: true, about: None, args, verbs };
    assert(args_view(r.args@) =~= noun_13().3);
    assert(r.verbs@.map_values(|v: VerbSpec| verb_view(v)) =~~= noun_13().4);
    r
}

fn noun_14_exec() -> (r: NounSpec)
    ensures
        noun_view(r) == noun_14(),
{
    let mut args: Vec<ArgSchema> = Vec::new();
    args.push(arg("format", "option", false, Some("json"), None));
    let mut verbs: Vec<VerbSpec> = Vec::new();
    let r = NounSpec { name: owned("status"), hidden: true, about: None, args, verbs };
    assert(args_view(r.args@) =~= noun_14().3);
    assert(r.verbs@.map_values(|v: VerbSpec| verb_view(v)) =~~= noun_14().4);
    r
}

fn noun_15_exec() -> (r: NounSpec)
    ensures
        noun_view(r) == noun_15(),
{
    let mut args: Vec<ArgSchema> = Vec::new();
    args.push(arg("path", "positional", true, None, None));
    args.push(arg("format", "option", false, Some("json"), None));
    let mut verbs: Vec<VerbSpec> = Vec::new();
    let r = NounSpec { name: owned("scan"), hidden: true, about: Some(owned("`note scan` alias (hidden)")), args, verbs };
    assert(args_view(r.args@) =~= noun_15().3);
    assert(r.verbs@.map_values(|v: VerbSpec| verb_view(v)) =~~= noun_15().4);
    r
}

/// The command table (see [`cli_table`]).
pub fn cli_table_exec() -> (r: Vec<NounSpec>)
    ensures
        table_view(r@) == cli_table(),
{
    let mut t: Vec<NounSpec> = Vec::new();
    t.push(noun_0_exec());
    t.push(noun_1_exec());
    t.push(noun_2_exec());
    t.push(noun_3_exec());
    t.push(noun_4_exec());
    t.push(noun_5_exec());
    t.push(noun_6_exec());
    t.push(noun_7_exec());
    t.push(noun_8_exec());
    t.push(noun_9_exec());
    t.push(noun_10_exec());
    t.push(noun_11_exec());
    t.push(noun_12_exec());
    t.push(noun_13_exec());
    t.push(noun_14_exec());
    t.push(noun_15_exec());
    assert(table_view(t@) =~= cli_table());
    t
}

/// Argument schemas of the `qwert` commands (see [`schemas_for`] over
/// [`cli_table`]).
pub fn build_schemas(noun_verb: Option<&str>) -> (r: Result<Vec<CommandSchema>, String>)
    ensures
        result_view(r) == schemas_for(cli_table(), ostr_ref(noun_verb)),
{
    let t = cli_table_exec();
    build_schemas_in(&t, noun_verb)
}

proof fn lemma_one_word_lit(s: Seq<char>)
    requires
        s.len() > 0,
        forall|k: int| 0 <= k < s.len() ==> (s[k] as u32) > 0x20 && (s[k] as u32) < 0x80,
    ensures
        one_word(s),
{
}

/// The command table of `qwert` has one-word visible names, no two alike.
pub proof fn lemma_cli_table_names_ok()
    ensures
        table_names_ok(cli_table()),
{
    reveal_strlit("file");
    reveal_strlit("note");
    reveal_strlit("vault");
    reveal_strlit("appearance");
    reveal_strlit("mcp");
    reveal_strlit("describe");
    let t = cli_table();
    assert(t[0].0 == "file"@ && t[1].0 == "note"@ && t[2].0 == "vault"@ && t[3].0 == "appearance"@
        && t[4].0 == "mcp"@ && t[5].0 == "describe"@);
    assert forall|i: int| 6 <= i < t.len() implies #[trigger] t[i].1 by {
        assert(t[6].1 && t[7].1 && t[8].1 && t[9].1 && t[10].1 && t[11].1 && t[12].1 && t[13].1 && t[14].1 && t[15].1);
    }
    lemma_one_word_lit("file"@);
    lemma_one_word_lit("note"@);
    lemma_one_word_lit("vault"@);
    lemma_one_word_lit("appearance"@);
    lemma_one_word_lit("mcp"@);
    lemma_one_word_lit("describe"@);
    assert("file"@[0] != "note"@[0]);
}

/// [`law_noun_schemas_filter_all`] for the `qwert` commands: `qwert describe
/// <noun>` prints the schemas of `qwert describe` filtered to that noun, for
/// each visible noun (`file`, `note`, `vault`, `appearance`, `mcp`,
/// `describe`).
pub proof fn law_cli_noun_schemas_filter_all(n: Seq<char>)
    requires
        exists|i: int| 0 <= i < cli_table().len() && !cli_table()[i].1 && #[trigger] cli_table()[i].0 == n,
    ensures
        schemas_for(cli_table(), Some(n)) == Ok::<Seq<SchemaV>, Seq<char>>(all_schemas(cli_table(), cli_table().len()).filter(noun_filter(n))),
{
    lemma_cli_table_names_ok();
    law_noun_schemas_filter_all(cli_table(), n);
}

// ── Text output ──────────────────────────────────────────────────────────────

/// `<name>` for a positional argument, `--name` otherwise.
pub open spec fn arg_prefix(a: ArgV) -> Seq<char> {
    if a.1 == "positional"@ { "<"@ + a.0 + ">"@ } else { "--"@ + a.0 }
}

/// The tags after the name: required, default, description.
pub open spec fn arg_tags(a: ArgV) -> Seq<char> {
    (if a.2 { " (required)"@ } else { Seq::empty() })
        + (match a.3 { Some(d) => " [default: "@ + d + "]"@, None => Seq::empty() })
        + (match a.4 { Some(d) => "  — "@ + d, None => Seq::empty() })
}

/// The text line of one argument: `<name>` or `--name`, then the required
/// tag, the default and the description.
pub open spec fn arg_line(a: ArgV) -> Seq<char> {
    "  "@ + arg_prefix(a) + arg_tags(a) + "\n"@
}

/// The lines of the first `k` arguments.
pub open spec fn arg_lines(args: Seq<ArgV>, k: nat) -> Seq<char>
    decreases k,
{
    if k == 0 { Seq::empty() } else { arg_lines(args, (k - 1) as nat) + arg_line(args[k - 1]) }
}

/// The text block of one schema: its name, its description, its arguments
/// and a blank line.
pub open spec fn schema_text(s: SchemaV) -> Seq<char> {
    s.0 + "\n"@ + (match s.1 { Some(d) => "  "@ + d + "\n"@, None => Seq::empty() }) + arg_lines(s.2, s.2.len())
        + "\n"@
}

/// The text of the first `k` schemas.
pub open spec fn schemas_text(v: Seq<SchemaV>, k: nat) -> Seq<char>
    decreases k,
{
    if k == 0 { Seq::empty() } else { schemas_text(v, (k - 1) as nat) + schema_text(v[k - 1]) }
}

fn push_arg_prefix(out: &mut Vec<char>, a: &ArgSchema)
    ensures
        final(out)@ == old(out)@ + arg_prefix(arg_view(*a)),
{
    let ghost start = out@;
    let kind = chars_of(a.kind.as_str());
    if str_eq(&kind, "positional") {
        push_str(out, "<");
        push_str(out, a.name.as_str());
        push_str(out, ">");
    } else {
        push_str(out, "--");
        push_str(out, a.name.as_str());
    }
    assert(out@ =~= start + arg_prefix(arg_view(*a)));
}

fn push_arg_tags(out: &mut Vec<char>, a: &ArgSchema)
    ensures
        final(out)@ == old(out)@ + arg_tags(arg_view(*a)),
{
    let ghost start = out@;
    if a.required {
        push_str(out, " (required)");
    }
    let ghost s1 = out@;
    match &a.default {
        Some(d) => {
            push_str(out, " [default: ");
            push_str(out, d.as_str());
            push_str(out, "]");
        },
        None => {},
    }
    let ghost s2 = out@;
    match &a.description {
        Some(d) => {
            push_str(out, "  — ");
            push_str(out, d.as_str());
        },
        None => {},
    }
    assert(s1 =~= start + (if a.required { " (required)"@ } else { Seq::empty() }));
    assert(s2 =~= s1 + (match ostr(a.default) { Some(d) => " [default: "@ + d + "]"@, None => Seq::empty() }));
    assert(out@ =~= s2 + (match ostr(a.description) { Some(d) => "  — "@ + d, None => Seq::empty() }));
    assert(out@ =~= start + arg_tags(arg_view(*a)));
}

fn push_arg_line(out: &mut Vec<char>, a: &ArgSchema)
    ensures
        final(out)@ == old(out)@ + arg_line(arg_view(*a)),
{
    let ghost start = out@;
    push_str(out, "  ");
    push_arg_prefix(out, a);
    push_arg_tags(out, a);
    push_str(out, "\n");
    assert(out@ =~= start + arg_line(arg_view(*a)));
}

fn push_schema_text(out: &mut Vec<char>, s: &CommandSchema)
    ensures
        final(out)@ == old(out)@ + schema_text(schema_view(*s)),
{
    let ghost start = out@;
    let ghost av = args_view(s.args@);
    push_str(out, s.name.as_str());
    push_str(out, "\n");
    match &s.description {
        Some(d) => {
            push_str(out, "  ");
            push_str(out, d.as_str());
            push_str(out, "\n");
        },
        None => {},
    }
    let ghost head = out@;
    let mut i: usize = 0;
    while i < s.args.len()
        invariant
            i <= s.args@.len(),
            av == args_view(s.args@),
            out@ == head + arg_lines(av, i as nat),
        decreases s.args@.len() - i,
    {
        assert(av[i as int] == arg_view(s.args@[i as int]));
        push_arg_line(out, &s.args[i]);
        assert(out@ =~= head + arg_lines(av, (i + 1) as nat));
        i = i + 1;
    }
    push_str(out, "\n");
    assert(out@ =~= start + schema_text(schema_view(*s)));
}

/// The text form of `qwert describe`: each schema as a block of lines.
pub fn describe_text(schemas: &Vec<CommandSchema>) -> (r: String)
    ensures
        r@ == schemas_text(schemas_view(schemas@), schemas@.len() as nat),
{
    let ghost sv = schemas_view(schemas@);
    let mut out: Vec<char> = Vec::new();
    let mut i: usize = 0;
    while i < schemas.len()
        invariant
            i <= schemas@.len(),
            sv == schemas_view(schemas@),
            out@ == schemas_text(sv, i as nat),
        decreases schemas@.len() - i,
    {
        assert(sv[i as int] == schema_view(schemas@[i as int]));
        push_schema_text(&mut out, &schemas[i]);
        i = i + 1;
    }
    string_from_chars(&out)
}

} // verus!
