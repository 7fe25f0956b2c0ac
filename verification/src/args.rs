//! Parsed command-line arguments: named option values and positional
//! values, with exact lookup contracts.

use vstd::prelude::*;

use crate::text::join_with;
use crate::text::join_strings;
use crate::text::str_eq;
use crate::token::Entry;
use crate::token::entry_index;
use crate::token::entry_index_from;
use crate::token::entry_map;

verus! {

/// The result of one parse: option values keyed by option name, dashes
/// included, and positional values in order of appearance.
pub struct Args {
    /// The parsed options, one entry per name, in first-appearance order.
    /// Storing a name again overwrites its entry in place.
    pub opts: Vec<(String, String)>,
    /// The positional values, in order of appearance.
    pub pos: Vec<String>,
}

impl Args {
    /// The option entries as sequences of characters.
    pub open spec fn opts_entries(&self) -> Seq<Entry> {
        Seq::new(self.opts@.len(), |i: int| (self.opts@[i].0@, self.opts@[i].1@))
    }

    /// The mapping from option name to value that the entries represent.
    pub open spec fn opts_map(&self) -> Map<Seq<char>, Seq<char>> {
        entry_map(self.opts_entries())
    }

    /// The positional values as sequences of characters.
    pub open spec fn pos_view(&self) -> Seq<Seq<char>> {
        self.pos.deep_view()
    }

    /// Finds the position of the entry for `name`, if any.
    pub(crate) fn lookup(&self, name: &str) -> (r: Option<usize>)
        ensures
            match r {
                Some(j) => j < self.opts@.len() && j == entry_index(self.opts_entries(), name@)
                    && self.opts_map().contains_key(name@) && self.opts_map()[name@]
                    == self.opts@[j as int].1@,
                None => !self.opts_map().contains_key(name@),
            },
    {
        let ghost es = self.opts_entries();
        let mut j: usize = 0;
        while j < self.opts.len()
            invariant
                0 <= j <= self.opts@.len(),
                es == self.opts_entries(),
                es.len() == self.opts@.len(),
                entry_index(es, name@) == entry_index_from(es, name@, j as int),
            decreases self.opts@.len() - j,
        {
            if str_eq(self.opts[j].0.as_str(), name) {
                proof {
                    assert(es[j as int].0 == name@);
                }
                return Some(j);
            }
            proof {
                assert(es[j as int].0 != name@);
            }
            j += 1;
        }
        None
    }

    /// Whether an option named `name` was parsed.
    pub fn has(&self, name: &str) -> (r: bool)
        ensures
            r == self.opts_map().contains_key(name@),
    {
        self.lookup(name).is_some()
    }

    /// Whether an option named `name` or one named `other` was parsed.
    pub fn has_or(&self, name: &str, other: &str) -> (r: bool)
        ensures
            r == (self.opts_map().contains_key(name@) || self.opts_map().contains_key(other@)),
    {
        self.lookup(name).is_some() || self.lookup(other).is_some()
    }

    /// Whether a positional value exists at index `pos`.
    pub fn has_at(&self, pos: usize) -> (r: bool)
        ensures
            r == (pos < self.pos_view().len()),
    {
        pos < self.pos.len()
    }

    /// The value of the option named `name`, if parsed.
    pub fn get_string(&self, name: &str) -> (r: Option<&String>)
        ensures
            match r {
                Some(v) => self.opts_map().contains_key(name@) && v@ == self.opts_map()[name@],
                None => !self.opts_map().contains_key(name@),
            },
    {
        match self.lookup(name) {
            Some(j) => Some(&self.opts[j].1),
            None => None,
        }
    }

    /// The value of the option named `name`, or of the one named `other`
    /// when no option named `name` was parsed.
    pub fn get_string_or(&self, name: &str, other: &str) -> (r: Option<&String>)
        ensures
            match r {
                Some(v) => {
                    &&& self.opts_map().contains_key(name@) || self.opts_map().contains_key(
                        other@,
                    )
                    &&& v@ == if self.opts_map().contains_key(name@) {
                        self.opts_map()[name@]
                    } else {
                        self.opts_map()[other@]
                    }
                },
                None => !self.opts_map().contains_key(name@) && !self.opts_map().contains_key(
                    other@,
                ),
            },
    {
        match self.lookup(name) {
            Some(j) => Some(&self.opts[j].1),
            None => self.get_string(other),
        }
    }

    /// The positional value at index `pos`, if present.
    pub fn at_string(&self, pos: usize) -> (r: Option<&String>)
        ensures
            match r {
                Some(v) => pos < self.pos_view().len() && v@ == self.pos_view()[pos as int],
                None => pos >= self.pos_view().len(),
            },
    {
        if pos < self.pos.len() {
            proof {
                assert(self.pos_view()[pos as int] == self.pos@[pos as int]@);
            }
            Some(&self.pos[pos])
        } else {
            None
        }
    }

    /// The value of the option named `name`, converted to `T`. Returns
    /// `None` when the option is absent or the conversion fails.
    pub fn get<T: core::str::FromStr>(&self, name: &str) -> (r: Option<T>)
        ensures
            !self.opts_map().contains_key(name@) ==> r is None,
    {
        match self.get_string(name) {
            Some(v) => parse_opt::<T>(v.as_str()),
            None => None,
        }
    }

    /// The value of the option named `name` or of the one named `other`,
    /// converted to `T`. The option named `name` takes precedence even
    /// when its value does not convert.
    pub fn get_or<T: core::str::FromStr>(&self, name: &str, other: &str) -> (r: Option<T>)
        ensures
            !self.opts_map().contains_key(name@) && !self.opts_map().contains_key(other@)
                ==> r is None,
    {
        if self.has(name) {
            self.get(name)
        } else {
            self.get(other)
        }
    }

    /// The positional value at index `pos`, converted to `T`. Returns
    /// `None` when the value is absent or the conversion fails.
    pub fn at<T: core::str::FromStr>(&self, pos: usize) -> (r: Option<T>)
        ensures
            pos >= self.pos_view().len() ==> r is None,
    {
        match self.at_string(pos) {
            Some(v) => parse_opt::<T>(v.as_str()),
            None => None,
        }
    }

    /// The positional values between `range.start` and `range.end`, each
    /// converted to `T`. Fails when the range is out of bounds or a value
    /// does not convert; the first conversion failure wins. An in-bounds
    /// empty range converts nothing, so it always succeeds with the
    /// empty vector.
    pub fn range<T: core::str::FromStr>(&self, range: core::ops::Range<usize>) -> (r: Result<
        Vec<T>,
        String,
    >)
        where
            T::Err: ToString,
        ensures
            !(range.start <= range.end && range.end <= self.pos_view().len()) ==> (r matches Err(
                m,
            ) && m@ == "index out of bounds"@),
            r matches Ok(v) ==> range.start <= range.end <= self.pos_view().len() && v@.len()
                == range.end - range.start,
            range.start == range.end && range.end <= self.pos_view().len() ==> r is Ok,
    {
        if range.start > range.end || range.end > self.pos.len() {
            return Err(String::from_str("index out of bounds"));
        }
        let mut out: Vec<T> = Vec::new();
        let mut i = range.start;
        while i < range.end
            invariant
                range.start <= i <= range.end,
                range.end <= self.pos@.len(),
                out@.len() == i - range.start,
            decreases range.end - i,
        {
            match parse_or_message::<T>(self.pos[i].as_str()) {
                Ok(v) => out.push(v),
                Err(m) => {
                    return Err(m);
                },
            }
            i += 1;
        }
        Ok(out)
    }

    /// The positional values between `range.start` and `range.end`, or
    /// `None` when the range is out of bounds.
    pub fn range_string(&self, range: core::ops::Range<usize>) -> (r: Option<Vec<&String>>)
        ensures
            (range.start <= range.end && range.end <= self.pos_view().len()) <==> r is Some,
            r matches Some(v) ==> v@.len() == range.end - range.start && forall|i: int|
                0 <= i < v@.len() ==> v@[i]@ == self.pos_view()[range.start + i],
    {
        if range.start > range.end || range.end > self.pos.len() {
            return None;
        }
        let mut out: Vec<&String> = Vec::new();
        let mut i = range.start;
        while i < range.end
            invariant
                range.start <= i <= range.end,
                range.end <= self.pos@.len(),
                out@.len() == i - range.start,
                forall|j: int| 0 <= j < out@.len() ==> out@[j] == &self.pos@[range.start + j],
            decreases range.end - i,
    {
            out.push(&self.pos[i]);
            i += 1;
        }
        proof {
            assert forall|i: int| 0 <= i < out@.len() implies out@[i]@ == self.pos_view()[
                range.start + i
            ] by {
                assert(out@[i] == &self.pos@[range.start + i]);
            }
        }
        Some(out)
    }

    /// A copy of the positional values.
    pub fn iter(&self) -> (r: Vec<String>)
        ensures
            r@ == self.pos@,
    {
        let r = self.pos.clone();
        proof {
            assert(r@ =~= self.pos@);
        }
        r
    }

    /// A copy of the parsed option entries, in first-appearance order.
    pub fn iter_opt(&self) -> (r: Vec<(String, String)>)
        ensures
            r@ == self.opts@,
    {
        let mut out: Vec<(String, String)> = Vec::new();
        let mut i: usize = 0;
        while i < self.opts.len()
            invariant
                0 <= i <= self.opts@.len(),
                out@.len() == i,
                forall|j: int| 0 <= j < i ==> out@[j] == self.opts@[j],
            decreases self.opts@.len() - i,
        {
            out.push((self.opts[i].0.clone(), self.opts[i].1.clone()));
            i += 1;
        }
        proof {
            assert(out@ =~= self.opts@);
        }
        out
    }

    /// The positional values, for in-place modification.
    pub fn iter_mut(&mut self) -> (r: &mut Vec<String>)
        ensures
            *r == old(self).pos,
            final(self).pos == *final(r),
            final(self).opts == old(self).opts,
    {
        &mut self.pos
    }

    /// The parsed option entries, for in-place modification.
    pub fn iter_mut_opt(&mut self) -> (r: &mut Vec<(String, String)>)
        ensures
            *r == old(self).opts,
            final(self).opts == *final(r),
            final(self).pos == old(self).pos,
    {
        &mut self.opts
    }

    /// The positional values joined with `separator`.
    pub fn join(&self, separator: &str) -> (r: String)
        ensures
            r@ == join_with(self.pos_view(), separator@),
    {
        join_strings(&self.pos, separator)
    }
}

/// Relies on str::parse: a successful `FromStr` conversion is handed back
/// unchanged and a failed one becomes `None`. Which strings convert, and
/// to what, is the type's own affair, so nothing is assumed of the result.
#[verifier::external_body]
fn parse_opt<F: core::str::FromStr>(s: &str) -> (r: Option<F>) {
    s.parse::<F>().ok()
}

/// Relies on str::parse: the outcome of the `FromStr` conversion is handed
/// back unchanged, with a failure rendered by ToString::to_string. Which
/// strings convert, and to what, is the type's own affair, so nothing is
/// assumed of the result.
#[verifier::external_body]
fn parse_or_message<F: core::str::FromStr>(s: &str) -> (r: Result<F, String>)
    where
        F::Err: ToString,
{
    match s.parse::<F>() {
        Ok(v) => Ok(v),
        Err(e) => Err(e.to_string()),
    }
}

} // verus!
