//! The resolver/parser: a single left-to-right pass over the raw argument
//! strings. While subcommand matching is still on, each token is held
//! against the current command's children, first match wins; the first
//! token that matches no child turns subcommand matching off for good and
//! falls through to the token classifier, as does every later token.

use vstd::prelude::*;

use crate::args::Args;
use crate::command::Command;
use crate::command::HelpFn;
use crate::text::str_eq;
use crate::token::Entry;
use crate::token::eq_split;
use crate::token::is_long_option;
use crate::token::is_short_cluster;
use crate::token::is_terminator;
use crate::token::option_name;
use crate::token::option_value;
use crate::token::store;
use crate::token::store_cluster;

verus! {

/// The classifier's state: the option entries and positional values
/// gathered so far, and whether option syntax is still recognized.
pub ghost struct TokenState {
    /// The option entries gathered so far.
    pub opts: Seq<Entry>,
    /// The positional values gathered so far.
    pub pos: Seq<Seq<char>>,
    /// Whether option syntax is still recognized; `--` clears it.
    pub opts_on: bool,
}

/// Classifies one token and folds it into the state.
pub open spec fn classify_step(s: TokenState, t: Seq<char>) -> TokenState {
    if s.opts_on {
        if is_terminator(t) {
            TokenState { opts_on: false, ..s }
        } else if is_long_option(t) {
            TokenState { opts: store(s.opts, option_name(t), option_value(t)), ..s }
        } else if is_short_cluster(t) {
            TokenState { opts: store_cluster(s.opts, option_name(t), option_value(t), 1), ..s }
        } else {
            TokenState { pos: s.pos.push(t), ..s }
        }
    } else {
        TokenState { pos: s.pos.push(t), ..s }
    }
}

/// Folds the classifier over a token list.
pub open spec fn classify_run(s: TokenState, toks: Seq<Seq<char>>) -> TokenState
    decreases toks.len()
{
    if toks.len() == 0 {
        s
    } else {
        classify_run(classify_step(s, toks[0]), toks.drop_first())
    }
}

/// Whether `t` is one of the names in `ns`.
pub open spec fn contains_name(ns: Seq<String>, t: Seq<char>) -> bool {
    exists|k: int| 0 <= k < ns.len() && ns[k]@ == t
}

/// Index of the first command in `cs` at or after `j` that is named `t`,
/// or `cs.len()` when there is none.
pub open spec fn child_index_from(cs: Seq<Command>, t: Seq<char>, j: int) -> int
    decreases cs.len() - j when 0 <= j <= cs.len()
{
    if j >= cs.len() {
        cs.len() as int
    } else if contains_name(cs[j].names@, t) {
        j
    } else {
        child_index_from(cs, t, j + 1)
    }
}

/// Index of the first child of `c` named `t`, or the child count when no
/// child is named `t`. Resolution is greedy and order-sensitive: among the
/// children named `t`, the earliest declared one wins.
pub open spec fn child_index(c: Command, t: Seq<char>) -> int {
    child_index_from(c.children@, t, 0)
}

pub proof fn lemma_child_index_bounds(cs: Seq<Command>, t: Seq<char>, j: int)
    requires
        0 <= j <= cs.len(),
    ensures
        j <= child_index_from(cs, t, j) <= cs.len(),
        child_index_from(cs, t, j) < cs.len() ==> contains_name(
            cs[child_index_from(cs, t, j)].names@,
            t,
        ),
        forall|i: int| j <= i < child_index_from(cs, t, j) ==> !contains_name(cs[i].names@, t),
    decreases cs.len() - j,
{
    if j < cs.len() && !contains_name(cs[j].names@, t) {
        lemma_child_index_bounds(cs, t, j + 1);
    }
}

/// The parser's full state after some prefix of the tokens.
pub ghost struct ParseState {
    /// The deepest command matched so far.
    pub cmd: Command,
    /// The option entries gathered so far.
    pub opts: Seq<Entry>,
    /// The positional values gathered so far.
    pub pos: Seq<Seq<char>>,
    /// Whether the next token may still name a subcommand.
    pub subs: bool,
    /// Whether option syntax is still recognized; `--` clears it.
    pub opts_on: bool,
    /// The help callback of the deepest matched command that has one.
    pub help: Option<Box<dyn HelpFn>>,
}

impl ParseState {
    /// The classifier's share of the state.
    pub open spec fn tokens(self) -> TokenState {
        TokenState { opts: self.opts, pos: self.pos, opts_on: self.opts_on }
    }
}

/// The parser's state before any token: at the root, with nothing
/// gathered and both subcommand matching and option syntax on.
pub open spec fn parse_init(root: Command) -> ParseState {
    ParseState {
        cmd: root,
        opts: Seq::empty(),
        pos: Seq::empty(),
        subs: true,
        opts_on: true,
        help: None,
    }
}

/// Folds one token into the parser's state: descend into the first
/// matching child while subcommand matching is on, otherwise turn it off
/// for good and classify this same token.
pub open spec fn parse_step(s: ParseState, t: Seq<char>) -> ParseState {
    if s.subs && child_index(s.cmd, t) < s.cmd.children@.len() {
        let child = s.cmd.children@[child_index(s.cmd, t)];
        ParseState {
            cmd: child,
            help: if child.help is Some {
                child.help
            } else {
                s.help
            },
            ..s
        }
    } else {
        let c = classify_step(s.tokens(), t);
        ParseState { subs: false, opts: c.opts, pos: c.pos, opts_on: c.opts_on, ..s }
    }
}

/// Folds the parser over a token list.
pub open spec fn parse_run(s: ParseState, toks: Seq<Seq<char>>) -> ParseState
    decreases toks.len()
{
    if toks.len() == 0 {
        s
    } else {
        parse_run(parse_step(s, toks[0]), toks.drop_first())
    }
}

pub proof fn lemma_parse_run_snoc(s: ParseState, toks: Seq<Seq<char>>, t: Seq<char>)
    ensures
        parse_run(s, toks.push(t)) == parse_step(parse_run(s, toks), t),
    decreases toks.len(),
{
    if toks.len() == 0 {
        assert(toks.push(t)[0] == t);
        assert(toks.push(t).drop_first() =~= Seq::<Seq<char>>::empty());
        assert(parse_run(parse_step(s, t), toks.push(t).drop_first()) == parse_step(s, t));
    } else {
        assert(toks.push(t)[0] == toks[0]);
        assert(toks.push(t).drop_first() =~= toks.drop_first().push(t));
        lemma_parse_run_snoc(parse_step(s, toks[0]), toks.drop_first(), t);
    }
}

/// On a command without subcommands the parser is the bare classifier:
/// the command and help callback never change, and the entries and
/// positional values are the classifier's fold.
pub proof fn lemma_parse_run_no_children(s: ParseState, toks: Seq<Seq<char>>)
    requires
        s.cmd.children@.len() == 0,
    ensures
        parse_run(s, toks).cmd == s.cmd,
        parse_run(s, toks).help == s.help,
        parse_run(s, toks).tokens() == classify_run(s.tokens(), toks),
    decreases toks.len(),
{
    if toks.len() > 0 {
        lemma_parse_run_no_children(parse_step(s, toks[0]), toks.drop_first());
    }
}

/// How a returned help reference relates to the modeled callback.
pub open spec fn help_matches(r: Option<&Box<dyn HelpFn>>, h: Option<Box<dyn HelpFn>>) -> bool {
    match (r, h) {
        (Some(a), Some(b)) => *a == b,
        (None, None) => true,
        _ => false,
    }
}

/// What one full parse of `toks` against the tree rooted at `root`
/// returns: the matched command, the gathered entries and positional
/// values, and the nearest help callback.
pub open spec fn parse_post(
    root: Command,
    toks: Seq<Seq<char>>,
    cmd: Command,
    args: Args,
    help: Option<&Box<dyn HelpFn>>,
) -> bool {
    let st = parse_run(parse_init(root), toks);
    &&& cmd == st.cmd
    &&& args.opts_entries() == st.opts
    &&& args.pos_view() == st.pos
    &&& help_matches(help, st.help)
}

/// Whether `t` is one of the names in `ns`.
fn names_contain(ns: &Vec<String>, t: &str) -> (r: bool)
    ensures
        r == contains_name(ns@, t@),
{
    let mut k: usize = 0;
    while k < ns.len()
        invariant
            0 <= k <= ns@.len(),
            forall|j: int| 0 <= j < k ==> ns@[j]@ != t@,
        decreases ns@.len() - k,
    {
        if str_eq(ns[k].as_str(), t) {
            return true;
        }
        k += 1;
    }
    false
}

/// Finds the first child of `c` named `t`, scanning the children in
/// declaration order.
fn find_child(c: &Command, t: &str) -> (r: Option<usize>)
    ensures
        match r {
            Some(j) => j == child_index(*c, t@) && j < c.children@.len(),
            None => child_index(*c, t@) == c.children@.len(),
        },
{
    let mut j: usize = 0;
    while j < c.children.len()
        invariant
            0 <= j <= c.children@.len(),
            child_index(*c, t@) == child_index_from(c.children@, t@, j as int),
        decreases c.children@.len() - j,
    {
        if names_contain(&c.children[j].names, t) {
            return Some(j);
        }
        j += 1;
    }
    None
}

impl Args {
    /// Stores `value` under `name`: overwrites the entry with that name,
    /// or appends one when none exists.
    fn store_opt(&mut self, name: String, value: String)
        ensures
            final(self).opts_entries() == store(old(self).opts_entries(), name@, value@),
            final(self).pos == old(self).pos,
    {
        match self.lookup(name.as_str()) {
            Some(j) => {
                self.opts[j] = (name, value);
                proof {
                    assert(self.opts_entries() =~= store(
                        old(self).opts_entries(),
                        name@,
                        value@,
                    ));
                }
            },
            None => {
                proof {
                    crate::token::lemma_entry_index_bounds(
                        old(self).opts_entries(),
                        name@,
                        0,
                    );
                }
                self.opts.push((name, value));
                proof {
                    assert(self.opts_entries() =~= store(
                        old(self).opts_entries(),
                        name@,
                        value@,
                    ));
                }
            },
        }
    }

    /// Parses `arguments` against the command tree rooted at `command`:
    /// returns the deepest matched command, the gathered option and
    /// positional values, and the nearest help callback on the matched
    /// path.
    pub fn parse<'a>(command: &'a Command, arguments: Vec<String>) -> (r: (
        &'a Command,
        Args,
        Option<&'a Box<dyn HelpFn>>,
    ))
        ensures
            parse_post(*command, arguments.deep_view(), *r.0, r.1, r.2),
    {
        let ghost toks = arguments.deep_view();
        let mut current: &Command = command;
        let mut parsed = Args { opts: Vec::new(), pos: Vec::new() };
        let mut help_fn: Option<&Box<dyn HelpFn>> = None;
        let mut subs = true;
        let mut opts_on = true;
        let mut i: usize = 0;
        proof {
            assert(parsed.opts_entries() =~= Seq::<Entry>::empty());
            assert(parsed.pos_view() =~= Seq::<Seq<char>>::empty());
            assert(toks.take(0) =~= Seq::<Seq<char>>::empty());
        }
        while i < arguments.len()
            invariant
                0 <= i <= arguments@.len(),
                toks == arguments.deep_view(),
                toks.len() == arguments@.len(),
                ({
                    let st = parse_run(parse_init(*command), toks.take(i as int));
                    &&& *current == st.cmd
                    &&& parsed.opts_entries() == st.opts
                    &&& parsed.pos_view() == st.pos
                    &&& subs == st.subs
                    &&& opts_on == st.opts_on
                    &&& help_matches(help_fn, st.help)
                }),
            decreases arguments@.len() - i,
        {
            let ghost st = parse_run(parse_init(*command), toks.take(i as int));
            let arg = &arguments[i];
            proof {
                assert(toks[i as int] == arguments@[i as int]@);
                lemma_parse_run_snoc(parse_init(*command), toks.take(i as int), toks[i as int]);
                assert(toks.take(i + 1) =~= toks.take(i as int).push(toks[i as int]));
            }
            let mut matched = false;
            if subs {
                match find_child(current, arg.as_str()) {
                    Some(j) => {
                        current = &current.children[j];
                        match &current.help {
                            Some(h) => {
                                help_fn = Some(h);
                            },
                            None => {},
                        }
                        matched = true;
                    },
                    None => {
                        subs = false;
                    },
                }
            }
            if !matched {
                let s = arg.as_str();
                let n = s.unicode_len();
                if opts_on && n == 2 && s.get_char(0) == '-' && s.get_char(1) == '-' {
                    opts_on = false;
                } else if opts_on && n >= 1 && s.get_char(0) == '-' {
                    // A long option or a short-option cluster: split at the
                    // first `=`; without one the value is the literal `true`.
                    let e = crate::text::find_char(s, '=');
                    proof {
                        crate::text::lemma_find_from_bounds(s@, '=', 0);
                    }
                    let value = if e < n {
                        String::from_str(s.substring_char(e + 1, n))
                    } else {
                        String::from_str("true")
                    };
                    proof {
                        reveal_strlit("true");
                        assert(value@ =~= option_value(arg@));
                    }
                    if n > 2 && s.get_char(1) == '-' {
                        let name = String::from_str(s.substring_char(0, e));
                        proof {
                            assert(name@ =~= option_name(arg@));
                        }
                        parsed.store_opt(name, value);
                    } else {
                        let ghost nm = option_name(arg@);
                        let ghost before = parsed.opts_entries();
                        proof {
                            assert(e >= 1);
                        }
                        let mut k: usize = 1;
                        while k < e
                            invariant
                                1 <= k <= e,
                                e == eq_split(arg@),
                                e <= n,
                                n == arg@.len(),
                                s@ == arg@,
                                nm == option_name(arg@),
                                nm.len() == e,
                                value@ == option_value(arg@),
                                parsed.pos_view() == st.pos,
                                store_cluster(before, nm, value@, 1) == store_cluster(
                                    parsed.opts_entries(),
                                    nm,
                                    value@,
                                    k as int,
                                ),
                            decreases e - k,
                        {
                            let key = cluster_key(s, k);
                            proof {
                                assert(nm[k as int] == arg@[k as int]);
                            }
                            parsed.store_opt(key, value.clone());
                            k += 1;
                        }
                        proof {
                            assert(store_cluster(before, nm, value@, 1)
                                == parsed.opts_entries());
                        }
                    }
                } else {
                    parsed.pos.push(arg.clone());
                    proof {
                        assert(parsed.pos_view() =~= st.pos.push(arg@));
                    }
                }
            }
            i += 1;
        }
        proof {
            assert(toks.take(i as int) =~= toks);
        }
        (current, parsed, help_fn)
    }

    /// Parses borrowed argument strings; see [`Args::parse`].
    pub fn parse_str<'a>(command: &'a Command, arguments: Vec<&str>) -> (r: (
        &'a Command,
        Args,
        Option<&'a Box<dyn HelpFn>>,
    ))
        ensures
            parse_post(*command, arguments.deep_view(), *r.0, r.1, r.2),
    {
        Args::parse(command, to_owned_all(arguments))
    }

    /// Parses `arguments` with no command tree at all: every token goes
    /// through the classifier alone.
    pub fn new(arguments: Vec<String>) -> (r: Args)
        ensures
            ({
                let ts = classify_run(classify_init(), arguments.deep_view());
                &&& r.opts_entries() == ts.opts
                &&& r.pos_view() == ts.pos
            }),
    {
        let ghost toks = arguments.deep_view();
        let root = Command::new("");
        proof {
            lemma_parse_run_no_children(parse_init(root), toks);
            assert(parse_init(root).tokens() == classify_init());
        }
        let (_, parsed, _) = Args::parse(&root, arguments);
        parsed
    }

    /// Parses borrowed argument strings with no command tree at all.
    pub fn new_str(arguments: Vec<&str>) -> (r: Args)
        ensures
            ({
                let ts = classify_run(classify_init(), arguments.deep_view());
                &&& r.opts_entries() == ts.opts
                &&& r.pos_view() == ts.pos
            }),
    {
        Args::new(to_owned_all(arguments))
    }
}

/// The classifier's state before any token.
pub open spec fn classify_init() -> TokenState {
    TokenState { opts: Seq::empty(), pos: Seq::empty(), opts_on: true }
}

/// Copies borrowed argument strings into owned ones.
pub fn to_owned_all(v: Vec<&str>) -> (r: Vec<String>)
    ensures
        r.deep_view() == v.deep_view(),
{
    let mut out: Vec<String> = Vec::new();
    let mut i: usize = 0;
    while i < v.len()
        invariant
            0 <= i <= v@.len(),
            out@.len() == i,
            forall|j: int| 0 <= j < i ==> out@[j]@ == v@[j]@,
        decreases v@.len() - i,
    {
        out.push(String::from_str(v[i]));
        i += 1;
    }
    proof {
        assert(out.deep_view() =~= v.deep_view());
    }
    out
}

/// Builds the single-character option name `-` plus `s[k]`.
fn cluster_key(s: &str, k: usize) -> (r: String)
    requires
        k < s@.len(),
        s@.len() <= usize::MAX,
    ensures
        r@ == seq!['-', s@[k as int]],
{
    let dash = String::from_str("-");
    proof {
        reveal_strlit("-");
    }
    let piece = s.substring_char(k, k + 1);
    let r = dash.concat(piece);
    proof {
        assert(r@ =~= seq!['-', s@[k as int]]);
    }
    r
}

} // verus!
