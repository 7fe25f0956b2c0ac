//! The token classifier and the option-entry model.
//!
//! A raw argument string is, in order of precedence: the option terminator
//! `--`, a long option `--name[=value]`, a short-option cluster
//! `-abc[=value]`, or a positional candidate. Parsed options are kept as a
//! sequence of name/value entries in first-insertion order; storing a name
//! again overwrites its entry in place.

use vstd::map::*;
use vstd::prelude::*;

use crate::text::find_from;

verus! {

/// One parsed option entry: a name, with its leading dashes, and a value.
pub type Entry = (Seq<char>, Seq<char>);

/// The token that ends option parsing: exactly `--`.
pub open spec fn is_terminator(t: Seq<char>) -> bool {
    t.len() == 2 && t[0] == '-' && t[1] == '-'
}

/// A long option: starts with `--` and is longer than the terminator.
pub open spec fn is_long_option(t: Seq<char>) -> bool {
    t.len() > 2 && t[0] == '-' && t[1] == '-'
}

/// A short-option cluster: starts with a single dash and is neither the
/// terminator nor a long option.
pub open spec fn is_short_cluster(t: Seq<char>) -> bool {
    t.len() >= 1 && t[0] == '-' && !is_terminator(t) && !is_long_option(t)
}

/// Index of the first `=` in `t`, or `t.len()` when there is none.
pub open spec fn eq_split(t: Seq<char>) -> int {
    find_from(t, '=', 0)
}

/// The name part of an option token: everything before the first `=`,
/// leading dashes included.
pub open spec fn option_name(t: Seq<char>) -> Seq<char> {
    t.subrange(0, eq_split(t))
}

/// The value part of an option token: everything after the first `=`, or
/// the literal `true` when no `=` is present.
pub open spec fn option_value(t: Seq<char>) -> Seq<char> {
    if eq_split(t) < t.len() {
        t.subrange(eq_split(t) + 1, t.len() as int)
    } else {
        "true"@
    }
}

/// Index of the first entry named `k` at or after position `j`, or
/// `es.len()` when there is none.
pub open spec fn entry_index_from(es: Seq<Entry>, k: Seq<char>, j: int) -> int
    decreases es.len() - j when 0 <= j <= es.len()
{
    if j >= es.len() {
        es.len() as int
    } else if es[j].0 == k {
        j
    } else {
        entry_index_from(es, k, j + 1)
    }
}

/// Index of the first entry named `k`, or `es.len()` when there is none.
pub open spec fn entry_index(es: Seq<Entry>, k: Seq<char>) -> int {
    entry_index_from(es, k, 0)
}

pub proof fn lemma_entry_index_bounds(es: Seq<Entry>, k: Seq<char>, j: int)
    requires
        0 <= j <= es.len(),
    ensures
        j <= entry_index_from(es, k, j) <= es.len(),
        entry_index_from(es, k, j) < es.len() ==> es[entry_index_from(es, k, j)].0 == k,
        forall|i: int| j <= i < entry_index_from(es, k, j) ==> es[i].0 != k,
    decreases es.len() - j,
{
    if j < es.len() && es[j].0 != k {
        lemma_entry_index_bounds(es, k, j + 1);
    }
}

/// Stores `v` under the name `k`: overwrites the first entry named `k`, or
/// appends a new entry when none exists.
pub open spec fn store(es: Seq<Entry>, k: Seq<char>, v: Seq<char>) -> Seq<Entry> {
    let j = entry_index(es, k);
    if j < es.len() {
        es.update(j, (k, v))
    } else {
        es.push((k, v))
    }
}

/// Stores one entry per character of `name` from position `j` on, each
/// named `-` plus that character, all sharing the value `v`.
pub open spec fn store_cluster(es: Seq<Entry>, name: Seq<char>, v: Seq<char>, j: int) -> Seq<
    Entry,
>
    decreases name.len() - j when 0 <= j
{
    if j < 0 || j >= name.len() {
        es
    } else {
        store_cluster(store(es, seq!['-', name[j]], v), name, v, j + 1)
    }
}

/// The mapping that a sequence of entries represents: each name maps to the
/// value of its first entry.
pub open spec fn entry_map(es: Seq<Entry>) -> Map<Seq<char>, Seq<char>> {
    Map::new(
        |k: Seq<char>| entry_index(es, k) < es.len(),
        |k: Seq<char>| es[entry_index(es, k)].1,
    )
}

/// Storing an entry changes the represented mapping by exactly one binding.
pub proof fn lemma_store_map(es: Seq<Entry>, k: Seq<char>, v: Seq<char>)
    ensures
        entry_map(store(es, k, v)) =~= entry_map(es).insert(k, v),
{
    let es2 = store(es, k, v);
    lemma_entry_index_bounds(es, k, 0);
    assert_maps_equal!(entry_map(store(es, k, v)), entry_map(es).insert(k, v), k2 => {
        lemma_store_find(es, k, v, k2, 0);
        lemma_entry_index_bounds(es, k2, 0);
        lemma_entry_index_bounds(es2, k2, 0);
    });
}

proof fn lemma_store_find(es: Seq<Entry>, k: Seq<char>, v: Seq<char>, k2: Seq<char>, j: int)
    requires
        0 <= j <= es.len(),
    ensures
        entry_index_from(store(es, k, v), k2, j) == (if k2 == k {
            if entry_index_from(es, k, j) < es.len() {
                entry_index_from(es, k, j)
            } else {
                es.len() as int
            }
        } else {
            if entry_index_from(es, k2, j) < es.len() {
                entry_index_from(es, k2, j)
            } else {
                store(es, k, v).len() as int
            }
        }),
    decreases es.len() - j,
{
    lemma_entry_index_bounds(es, k, 0);
    let es2 = store(es, k, v);
    if j < es.len() {
        lemma_store_find(es, k, v, k2, j + 1);
    } else {
        if j < es2.len() {
            assert(es2[j] == (k, v));
            assert(entry_index_from(es2, k2, j + 1) == es2.len());
        }
    }
}

} // verus!
