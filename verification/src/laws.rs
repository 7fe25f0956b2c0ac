//! Laws of the parser and the validator, stated and proved over the
//! specification model.

use vstd::prelude::*;

use crate::args::Args;
use crate::command::Command;
use crate::command::CommandError;
use crate::command::HelpFn;
use crate::command::RunOutcome;
use crate::command::same_option;
use crate::parse::ParseState;
use crate::parse::TokenState;
use crate::parse::classify_step;
use crate::parse::child_index;
use crate::parse::contains_name;
use crate::parse::lemma_child_index_bounds;
use crate::parse::parse_init;
use crate::parse::parse_post;
use crate::parse::parse_run;
use crate::parse::parse_step;
use crate::run::first_missing_option;
use crate::run::missing_option_from;
use crate::run::option_present;
use crate::run::run_post;
use crate::token::Entry;
use crate::token::eq_split;
use crate::token::is_long_option;
use crate::token::is_short_cluster;
use crate::token::is_terminator;
use crate::token::lemma_entry_index_bounds;
use crate::token::lemma_store_map;
use crate::token::option_name;
use crate::token::option_value;
use crate::token::store;
use crate::token::store_cluster;
use crate::token::entry_map;

verus! {

/// Whether a token leads with a dash.
pub open spec fn starts_dash(t: Seq<char>) -> bool {
    t.len() >= 1 && t[0] == '-'
}

/// Storing an entry under a dash-led name keeps every entry's name
/// dash-led.
proof fn lemma_store_keeps_dashes(es: Seq<Entry>, k: Seq<char>, v: Seq<char>)
    requires
        starts_dash(k),
        forall|i: int| 0 <= i < es.len() ==> starts_dash(#[trigger] es[i].0),
    ensures
        forall|i: int|
            0 <= i < store(es, k, v).len() ==> starts_dash(#[trigger] store(es, k, v)[i].0),
{
    lemma_entry_index_bounds(es, k, 0);
}

/// Storing a short-option cluster keeps every entry's name dash-led.
proof fn lemma_store_cluster_keeps_dashes(
    es: Seq<Entry>,
    name: Seq<char>,
    v: Seq<char>,
    j: int,
)
    requires
        0 <= j,
        forall|i: int| 0 <= i < es.len() ==> starts_dash(#[trigger] es[i].0),
    ensures
        forall|i: int|
            0 <= i < store_cluster(es, name, v, j).len() ==> starts_dash(
                #[trigger] store_cluster(es, name, v, j)[i].0,
            ),
    decreases name.len() - j,
{
    if 0 <= j < name.len() {
        lemma_store_keeps_dashes(es, seq!['-', name[j]], v);
        lemma_store_cluster_keeps_dashes(store(es, seq!['-', name[j]], v), name, v, j + 1);
        assert(store_cluster(es, name, v, j) == store_cluster(
            store(es, seq!['-', name[j]], v),
            name,
            v,
            j + 1,
        ));
    }
}

/// While no terminator has been consumed, option syntax stays on,
/// dash-led tokens never land among the positional values, and every
/// stored option name leads with a dash.
proof fn lemma_classifier_split_preserved(s: ParseState, toks: Seq<Seq<char>>)
    requires
        s.opts_on,
        forall|i: int| 0 <= i < toks.len() ==> !is_terminator(#[trigger] toks[i]),
        forall|i: int| 0 <= i < s.pos.len() ==> !starts_dash(#[trigger] s.pos[i]),
        forall|i: int| 0 <= i < s.opts.len() ==> starts_dash(#[trigger] s.opts[i].0),
    ensures
        parse_run(s, toks).opts_on,
        forall|i: int|
            0 <= i < parse_run(s, toks).pos.len() ==> !starts_dash(
                #[trigger] parse_run(s, toks).pos[i],
            ),
        forall|i: int|
            0 <= i < parse_run(s, toks).opts.len() ==> starts_dash(
                #[trigger] parse_run(s, toks).opts[i].0,
            ),
    decreases toks.len(),
{
    if toks.len() > 0 {
        let t = toks[0];
        let s2 = parse_step(s, t);
        if !(s.subs && child_index(s.cmd, t) < s.cmd.children@.len()) {
            if is_long_option(t) {
                crate::text::lemma_find_from_bounds(t, '=', 0);
                assert(eq_split(t) >= 1);
                assert(option_name(t)[0] == t[0]);
                lemma_store_keeps_dashes(s.opts, option_name(t), crate::token::option_value(t));
            } else if is_short_cluster(t) {
                lemma_store_cluster_keeps_dashes(
                    s.opts,
                    option_name(t),
                    crate::token::option_value(t),
                    1,
                );
            }
        }
        lemma_classifier_split_preserved(s2, toks.drop_first());
    }
}

/// For a token list without the option terminator, no dash-led token
/// ever lands among the positional values, and every parsed option name
/// leads with a dash: the classifier sends each token to exactly one
/// side.
pub proof fn lemma_dashes_are_options(root: Command, toks: Seq<Seq<char>>)
    requires
        forall|i: int| 0 <= i < toks.len() ==> !is_terminator(#[trigger] toks[i]),
    ensures
        forall|i: int|
            0 <= i < parse_run(parse_init(root), toks).pos.len() ==> !starts_dash(
                #[trigger] parse_run(parse_init(root), toks).pos[i],
            ),
        forall|i: int|
            0 <= i < parse_run(parse_init(root), toks).opts.len() ==> starts_dash(
                #[trigger] parse_run(parse_init(root), toks).opts[i].0,
            ),
{
    lemma_classifier_split_preserved(parse_init(root), toks);
}

/// The mapping a short-option cluster produces: one binding per
/// clustered character from position `j` on, each named `-` plus that
/// character, all sharing the value `v`.
pub open spec fn cluster_map(
    m: Map<Seq<char>, Seq<char>>,
    name: Seq<char>,
    v: Seq<char>,
    j: int,
) -> Map<Seq<char>, Seq<char>>
    decreases name.len() - j when 0 <= j
{
    if j < 0 || j >= name.len() {
        m
    } else {
        cluster_map(m.insert(seq!['-', name[j]], v), name, v, j + 1)
    }
}

/// Storing a short-option cluster among the entries is, at the mapping
/// level, inserting one binding per clustered character.
pub proof fn lemma_store_cluster_map(es: Seq<Entry>, name: Seq<char>, v: Seq<char>, j: int)
    requires
        0 <= j,
    ensures
        entry_map(store_cluster(es, name, v, j)) =~= cluster_map(entry_map(es), name, v, j),
    decreases name.len() - j,
{
    if j < name.len() {
        let key = seq!['-', name[j]];
        lemma_store_map(es, key, v);
        lemma_store_cluster_map(store(es, key, v), name, v, j + 1);
        assert(entry_map(store(es, key, v)) == entry_map(es).insert(key, v));
    }
}

/// A binding whose value is already `v` survives the cluster: later
/// insertions either overwrite it with `v` again or leave it alone.
proof fn lemma_cluster_map_keeps(
    m: Map<Seq<char>, Seq<char>>,
    name: Seq<char>,
    v: Seq<char>,
    j: int,
    key: Seq<char>,
)
    requires
        0 <= j,
        m.contains_key(key),
        m[key] == v,
    ensures
        cluster_map(m, name, v, j).contains_key(key),
        cluster_map(m, name, v, j)[key] == v,
    decreases name.len() - j,
{
    if j < name.len() {
        lemma_cluster_map_keeps(m.insert(seq!['-', name[j]], v), name, v, j + 1, key);
    }
}

/// Every clustered character is bound to the shared value.
pub proof fn lemma_cluster_map_binds(
    m: Map<Seq<char>, Seq<char>>,
    name: Seq<char>,
    v: Seq<char>,
    j: int,
)
    requires
        0 <= j,
    ensures
        forall|k: int|
            j <= k < name.len() ==> cluster_map(m, name, v, j).contains_key(
                seq!['-', name[k]],
            ) && cluster_map(m, name, v, j)[seq!['-', name[k]]] == v,
    decreases name.len() - j,
{
    if j < name.len() {
        let m2 = m.insert(seq!['-', name[j]], v);
        lemma_cluster_map_binds(m2, name, v, j + 1);
        lemma_cluster_map_keeps(m2, name, v, j + 1, seq!['-', name[j]]);
    }
}

/// A long option token binds its name, leading dashes included, to its
/// value: the text after the first `=`, or the literal `true` when no
/// `=` is present. Nothing else changes.
pub proof fn lemma_long_option_binds(s: TokenState, t: Seq<char>)
    requires
        s.opts_on,
        is_long_option(t),
    ensures
        entry_map(classify_step(s, t).opts) =~= entry_map(s.opts).insert(
            option_name(t),
            option_value(t),
        ),
        classify_step(s, t).pos == s.pos,
        classify_step(s, t).opts_on,
{
    lemma_store_map(s.opts, option_name(t), option_value(t));
}

/// A short-option cluster binds one entry per clustered character, each
/// named `-` plus that character, all sharing the cluster's value: the
/// one after the first `=`, or the literal `true` without one. The
/// positional values do not change.
pub proof fn lemma_short_cluster_binds(s: TokenState, t: Seq<char>)
    requires
        s.opts_on,
        is_short_cluster(t),
    ensures
        forall|k: int|
            1 <= k < eq_split(t) ==> entry_map(classify_step(s, t).opts).contains_key(
                seq!['-', t[k]],
            ) && entry_map(classify_step(s, t).opts)[seq!['-', t[k]]] == option_value(t),
        classify_step(s, t).pos == s.pos,
        classify_step(s, t).opts_on,
{
    crate::text::lemma_find_from_bounds(t, '=', 0);
    let nm = option_name(t);
    let v = option_value(t);
    lemma_store_cluster_map(s.opts, nm, v, 1);
    lemma_cluster_map_binds(entry_map(s.opts), nm, v, 1);
    assert forall|k: int| 1 <= k < eq_split(t) implies entry_map(
        classify_step(s, t).opts,
    ).contains_key(seq!['-', t[k]]) && entry_map(classify_step(s, t).opts)[seq!['-', t[k]]]
        == v by {
        assert(nm.len() == eq_split(t));
        assert(nm[k] == t[k]);
    }
}

/// In every reachable parser state, once option syntax is off,
/// subcommand matching is off as well: the terminator begins positional
/// mode for good.
proof fn lemma_opts_off_subs_off(s: ParseState, toks: Seq<Seq<char>>)
    requires
        s.opts_on || !s.subs,
    ensures
        parse_run(s, toks).opts_on || !parse_run(s, toks).subs,
    decreases toks.len(),
{
    if toks.len() > 0 {
        lemma_opts_off_subs_off(parse_step(s, toks[0]), toks.drop_first());
    }
}

/// Splitting a token list splits the parse: the second half starts from
/// the state the first half reached.
pub proof fn lemma_parse_run_append(s: ParseState, t1: Seq<Seq<char>>, t2: Seq<Seq<char>>)
    ensures
        parse_run(s, t1 + t2) == parse_run(parse_run(s, t1), t2),
    decreases t1.len(),
{
    if t1.len() == 0 {
        assert(t1 + t2 =~= t2);
    } else {
        assert((t1 + t2)[0] == t1[0]);
        assert((t1 + t2).drop_first() =~= t1.drop_first() + t2);
        lemma_parse_run_append(parse_step(s, t1[0]), t1.drop_first(), t2);
    }
}

/// From a state that has left both subcommand matching and option
/// syntax behind, every further token lands among the positional
/// values, in order, and nothing else changes.
proof fn lemma_positional_mode_absorbs(s: ParseState, toks: Seq<Seq<char>>)
    requires
        !s.subs,
        !s.opts_on,
    ensures
        parse_run(s, toks) == (ParseState { pos: s.pos + toks, ..s }),
    decreases toks.len(),
{
    if toks.len() == 0 {
        assert(s.pos + toks =~= s.pos);
        assert((ParseState { pos: s.pos + toks, ..s }) == s);
    } else {
        lemma_positional_mode_absorbs(parse_step(s, toks[0]), toks.drop_first());
        assert(s.pos.push(toks[0]) + toks.drop_first() =~= s.pos + toks);
    }
}

/// Once the terminator has been seen, all subsequent tokens land among
/// the positional values regardless of leading dashes, and subcommand
/// matching never resumes: the matched command, the parsed options and
/// the help callback stay as they were.
pub proof fn lemma_terminator_is_final(root: Command, t1: Seq<Seq<char>>, t2: Seq<Seq<char>>)
    requires
        !parse_run(parse_init(root), t1).opts_on,
    ensures
        ({
            let st1 = parse_run(parse_init(root), t1);
            let st2 = parse_run(parse_init(root), t1 + t2);
            &&& st2.cmd == st1.cmd
            &&& st2.opts == st1.opts
            &&& st2.help == st1.help
            &&& st2.pos == st1.pos + t2
            &&& !st2.subs
            &&& !st2.opts_on
        }),
{
    let st1 = parse_run(parse_init(root), t1);
    lemma_opts_off_subs_off(parse_init(root), t1);
    lemma_parse_run_append(parse_init(root), t1, t2);
    lemma_positional_mode_absorbs(st1, t2);
}

/// Subcommand resolution is greedy and order-sensitive: when some child
/// of the current command is named `t`, the parser descends into the
/// earliest declared one, and no earlier child is named `t`.
pub proof fn lemma_first_match_wins(s: ParseState, t: Seq<char>, j: int)
    requires
        s.subs,
        0 <= j < s.cmd.children@.len(),
        contains_name(s.cmd.children@[j].names@, t),
    ensures
        ({
            let i = child_index(s.cmd, t);
            &&& 0 <= i <= j
            &&& contains_name(s.cmd.children@[i].names@, t)
            &&& parse_step(s, t).cmd == s.cmd.children@[i]
            &&& forall|k: int| 0 <= k < i ==> !contains_name(
                #[trigger] s.cmd.children@[k].names@,
                t,
            )
        }),
{
    lemma_child_index_bounds(s.cmd.children@, t, 0);
}

/// Parsing is deterministic: two parses of the same token list against
/// the same tree agree on the matched command, on every parsed option
/// entry, on every positional value, and on the help callback, so
/// re-parsing an unmodified input reproduces the same result.
pub proof fn lemma_parse_idempotent(
    root: Command,
    toks: Seq<Seq<char>>,
    c1: Command,
    a1: Args,
    h1: Option<&Box<dyn HelpFn>>,
    c2: Command,
    a2: Args,
    h2: Option<&Box<dyn HelpFn>>,
)
    requires
        parse_post(root, toks, c1, a1, h1),
        parse_post(root, toks, c2, a2, h2),
    ensures
        c1 == c2,
        a1.opts_entries() == a2.opts_entries(),
        a1.pos_view() == a2.pos_view(),
        (h1 is Some) == (h2 is Some),
        h1 matches Some(f1) ==> (h2 matches Some(f2) && *f1 == *f2),
{
}

/// A required option that the parsed options do not satisfy makes the
/// run fail with `MissingOption`, naming the earliest such option, and
/// the action never runs.
pub proof fn lemma_missing_option_fails(
    root: Command,
    toks: Seq<Seq<char>>,
    r: Result<RunOutcome, CommandError>,
    j: int,
)
    requires
        run_post(root, toks, r),
        !entry_map(parse_run(parse_init(root), toks).opts).contains_key("--help"@),
        0 <= j < parse_run(parse_init(root), toks).cmd.options@.len(),
        parse_run(parse_init(root), toks).cmd.options@[j].required,
        !option_present(
            parse_run(parse_init(root), toks).cmd.options@[j],
            entry_map(parse_run(parse_init(root), toks).opts),
        ),
    ensures
        ({
            let st = parse_run(parse_init(root), toks);
            let m = entry_map(st.opts);
            let fo = first_missing_option(st.cmd, m);
            &&& r is Err
            &&& r != Ok::<RunOutcome, CommandError>(RunOutcome::ActionRun)
            &&& fo <= j
            &&& r matches Err(CommandError::MissingOption(o)) && same_option(
                o,
                st.cmd.options@[fo],
            )
        }),
{
    let st = parse_run(parse_init(root), toks);
    let m = entry_map(st.opts);
    lemma_missing_option_bounds(st.cmd.options@, m, 0);
}

pub proof fn lemma_missing_option_bounds(
    opts: Seq<crate::command::CLIOption>,
    m: Map<Seq<char>, Seq<char>>,
    j: int,
)
    requires
        0 <= j <= opts.len(),
    ensures
        j <= missing_option_from(opts, m, j) <= opts.len(),
        missing_option_from(opts, m, j) < opts.len() ==> opts[missing_option_from(
            opts,
            m,
            j,
        )].required && !option_present(opts[missing_option_from(opts, m, j)], m),
        forall|i: int|
            j <= i < missing_option_from(opts, m, j) ==> !(#[trigger] opts[i].required
                && !option_present(opts[i], m)),
    decreases opts.len() - j,
{
    if j < opts.len() && !(opts[j].required && !option_present(opts[j], m)) {
        lemma_missing_option_bounds(opts, m, j + 1);
    }
}

} // verus!
