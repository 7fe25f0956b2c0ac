//! The validator and dispatcher: after one parse, check the `--help`
//! flag, then the matched command's required options and arguments in
//! declaration order, and either invoke its action or render help.

use std::io::Write;

use vstd::prelude::*;

use crate::args::Args;
use crate::command::CLIArgument;
use crate::command::CLIOption;
use crate::command::Command;
use crate::command::CommandError;
use crate::command::HelpFn;
use crate::command::HelpReason;
use crate::command::RunOutcome;
use crate::command::same_option;
use crate::command::tree_wf;
use crate::parse::ParseState;
use crate::parse::parse_init;
use crate::parse::parse_run;
use crate::parse::parse_step;
use crate::text::decimal;
use crate::text::decimal_string;
use crate::text::join_strings;
use crate::text::join_with;
use crate::token::entry_map;

verus! {

/// Whether the parsed options hold one of the names in `ns`.
pub open spec fn name_present(ns: Seq<String>, m: Map<Seq<char>, Seq<char>>) -> bool {
    exists|k: int| 0 <= k < ns.len() && m.contains_key(#[trigger] ns[k]@)
}

/// Whether the declared option `o` is satisfied by the parsed options.
pub open spec fn option_present(o: CLIOption, m: Map<Seq<char>, Seq<char>>) -> bool {
    name_present(o.names@, m)
}

/// Index of the first required option at or after `j` that the parsed
/// options do not satisfy, or `opts.len()` when all are satisfied.
pub open spec fn missing_option_from(
    opts: Seq<CLIOption>,
    m: Map<Seq<char>, Seq<char>>,
    j: int,
) -> int
    decreases opts.len() - j when 0 <= j <= opts.len()
{
    if j >= opts.len() {
        opts.len() as int
    } else if opts[j].required && !option_present(opts[j], m) {
        j
    } else {
        missing_option_from(opts, m, j + 1)
    }
}

/// Index of the first required option of `c` that the parsed options do
/// not satisfy, or the option count.
pub open spec fn first_missing_option(c: Command, m: Map<Seq<char>, Seq<char>>) -> int {
    missing_option_from(c.options@, m, 0)
}

/// Index of the first required argument at or after `j` with no
/// positional value, or `ds.len()` when all are filled.
pub open spec fn missing_argument_from(ds: Seq<CLIArgument>, npos: nat, j: int) -> int
    decreases ds.len() - j when 0 <= j <= ds.len()
{
    if j >= ds.len() {
        ds.len() as int
    } else if ds[j].required && j >= npos {
        j
    } else {
        missing_argument_from(ds, npos, j + 1)
    }
}

/// Index of the first required argument of `c` with no positional value,
/// or the argument count.
pub open spec fn first_missing_argument(c: Command, npos: nat) -> int {
    missing_argument_from(c.arguments@, npos, 0)
}

/// The reported end of a missing-argument range: the last declared index
/// for an array argument, the argument's own index otherwise.
pub open spec fn missing_end(c: Command, i: int) -> int {
    if c.arguments@[i].array {
        c.arguments@.len() - 1
    } else {
        i
    }
}

/// What `run` returns for the tree `root` and the tokens `toks`: the
/// `--help` flag short-circuits to help; otherwise the first missing
/// required option fails the run, then the first missing required
/// argument; otherwise the action's own outcome is reported, and a
/// command without an action shows help.
pub open spec fn run_post(
    root: Command,
    toks: Seq<Seq<char>>,
    r: Result<RunOutcome, CommandError>,
) -> bool {
    let st = parse_run(parse_init(root), toks);
    let m = entry_map(st.opts);
    let fo = first_missing_option(st.cmd, m);
    let fa = first_missing_argument(st.cmd, st.pos.len());
    if m.contains_key("--help"@) {
        r == Ok::<RunOutcome, CommandError>(RunOutcome::HelpShown)
    } else if fo < st.cmd.options@.len() {
        r matches Err(CommandError::MissingOption(o)) && same_option(o, st.cmd.options@[fo])
    } else if fa < st.cmd.arguments@.len() {
        r == Err::<RunOutcome, CommandError>(
            CommandError::MissingArgument(fa as usize, missing_end(st.cmd, fa) as usize),
        )
    } else if st.cmd.action is None {
        r == Ok::<RunOutcome, CommandError>(RunOutcome::HelpShown)
    } else {
        r == Ok::<RunOutcome, CommandError>(RunOutcome::ActionRun) || (r matches Err(
            CommandError::ActionFailed(_),
        ))
    }
}

/// What the dispatcher reports for each outcome of an action call.
pub fn action_outcome(res: Result<(), String>) -> (r: Result<RunOutcome, CommandError>)
    ensures
        match res {
            Ok(_) => r == Ok::<RunOutcome, CommandError>(RunOutcome::ActionRun),
            Err(m) => r matches Err(CommandError::ActionFailed(m2)) && m2 == m,
        },
{
    match res {
        Ok(_) => Ok(RunOutcome::ActionRun),
        Err(m) => Err(CommandError::ActionFailed(m)),
    }
}

/// Bounds that every reason handed to the default help path satisfies.
pub open spec fn reason_in_bounds(reason: HelpReason, c: Command) -> bool {
    match reason {
        HelpReason::MissingArgument(s, e) => s < c.arguments@.len() && e < c.arguments@.len(),
        _ => true,
    }
}

/// The parser preserves tree well-formedness: the matched command is a
/// node of the tree it started from.
pub proof fn lemma_parse_run_wf(s: ParseState, toks: Seq<Seq<char>>)
    requires
        tree_wf(s.cmd),
    ensures
        tree_wf(parse_run(s, toks).cmd),
    decreases toks.len(),
{
    if toks.len() > 0 {
        crate::parse::lemma_child_index_bounds(s.cmd.children@, toks[0], 0);
        assert(tree_wf(parse_step(s, toks[0]).cmd));
        lemma_parse_run_wf(parse_step(s, toks[0]), toks.drop_first());
    }
}

/// Relies on std::io::stdout: writes `s` and a newline to standard
/// output; a write failure is ignored.
#[verifier::external_body]
fn print_line(s: &str) {
    let _ = writeln!(std::io::stdout(), "{}", s);
}

/// Relies on std::io::stderr: writes `s` and a newline to the error
/// stream; a write failure is ignored.
#[verifier::external_body]
fn eprint_line(s: &str) {
    let _ = writeln!(std::io::stderr(), "{}", s);
}

/// The one-line diagnostic printed for missing positional arguments,
/// with the declared indices shown one-based.
pub open spec fn missing_argument_diagnostic(start: nat, end: nat) -> Seq<char> {
    "missing argument from positions "@ + decimal(start + 1) + " to "@ + decimal(end + 1) + "!"@
}

/// The one-line diagnostic printed for a missing option.
pub open spec fn missing_option_diagnostic(names: Seq<Seq<char>>) -> Seq<char> {
    "missing option "@ + join_with(names, " or "@) + "!"@
}

/// Whether the parsed arguments satisfy one of the names in `names`.
fn any_name_present(args: &Args, names: &Vec<String>) -> (r: bool)
    ensures
        r == name_present(names@, args.opts_map()),
{
    let mut k: usize = 0;
    while k < names.len()
        invariant
            0 <= k <= names@.len(),
            forall|j: int| 0 <= j < k ==> !args.opts_map().contains_key(#[trigger] names@[j]@),
        decreases names@.len() - k,
    {
        if args.has(names[k].as_str()) {
            return true;
        }
        k += 1;
    }
    false
}

impl Command {
    /// Renders help through `help_fn` when the resolver found one, and
    /// through the default renderer otherwise.
    fn show_help(
        &self,
        help_fn: Option<&Box<dyn HelpFn>>,
        reason: HelpReason,
        args: Args,
    )
        requires
            self.names@.len() > 0,
            reason_in_bounds(reason, *self),
    {
        match help_fn {
            Some(h) => h.call(reason, self, args),
            None => self.default_help(reason),
        }
    }

    /// The default help path: print the help screen, to standard output
    /// for informational reasons and to the error stream behind a
    /// one-line diagnostic for validation failures.
    fn default_help(&self, reason: HelpReason)
        requires
            self.names@.len() > 0,
            reason_in_bounds(reason, *self),
    {
        match &reason {
            HelpReason::MissingAction | HelpReason::UserAsked => {
                let screen = self.generate_help();
                print_line(screen.as_str());
            },
            HelpReason::MissingArgument(start, end) => {
                let declared = self.arguments.len();
                proof {
                    assert(*start < declared && *end < declared);
                }
                let msg = argument_diagnostic(*start, *end);
                eprint_line(msg.as_str());
                let screen = self.generate_help();
                eprint_line(screen.as_str());
            },
            HelpReason::MissingOption(option) => {
                let msg = option_diagnostic(&option.names);
                eprint_line(msg.as_str());
                let screen = self.generate_help();
                eprint_line(screen.as_str());
            },
        }
    }

    /// Parses `args` against this command tree, validates the matched
    /// command's requirements and dispatches its action; on a missing
    /// requirement or a missing action, renders help instead.
    #[verifier::loop_isolation(false)]
    pub fn run(&self, args: Vec<String>) -> (r: Result<RunOutcome, CommandError>)
        requires
            tree_wf(*self),
        ensures
            run_post(*self, args.deep_view(), r),
    {
        let ghost toks = args.deep_view();
        let (command, parsed, help_fn) = Args::parse(self, args);
        let ghost st = parse_run(parse_init(*self), toks);
        let ghost m = entry_map(st.opts);
        proof {
            lemma_parse_run_wf(parse_init(*self), toks);
        }
        if parsed.has("--help") {
            command.show_help(help_fn, HelpReason::UserAsked, parsed);
            return Ok(RunOutcome::HelpShown);
        }
        // Required options, in declaration order; the first missing one
        // fails the run.
        let mut oi: usize = 0;
        while oi < command.options.len()
            invariant
                0 <= oi <= command.options@.len(),
                *command == st.cmd,
                parsed.opts_map() == m,
                parsed.pos_view() == st.pos,
                command.names@.len() > 0,
                !m.contains_key("--help"@),
                first_missing_option(*command, m) == missing_option_from(
                    command.options@,
                    m,
                    oi as int,
                ),
            decreases command.options@.len() - oi,
        {
            let required = command.options[oi].required;
            if required && !any_name_present(&parsed, &command.options[oi].names) {
                let carried = command.options[oi].clone();
                let reported = command.options[oi].clone();
                command.show_help(help_fn, HelpReason::MissingOption(reported), parsed);
                return Err(CommandError::MissingOption(carried));
            }
            oi += 1;
        }
        // Required arguments, in declaration order; the first unfilled
        // one fails the run.
        let mut ai: usize = 0;
        while ai < command.arguments.len()
            invariant
                0 <= ai <= command.arguments@.len(),
                *command == st.cmd,
                parsed.opts_map() == m,
                parsed.pos_view() == st.pos,
                command.names@.len() > 0,
                first_missing_option(*command, m) == command.options@.len(),
                !m.contains_key("--help"@),
                first_missing_argument(*command, st.pos.len()) == missing_argument_from(
                    command.arguments@,
                    st.pos.len(),
                    ai as int,
                ),
            decreases command.arguments@.len() - ai,
        {
            let required = command.arguments[ai].required;
            if required && !parsed.has_at(ai) {
                let end = if command.arguments[ai].array {
                    command.arguments.len() - 1
                } else {
                    ai
                };
                command.show_help(help_fn, HelpReason::MissingArgument(ai, end), parsed);
                return Err(CommandError::MissingArgument(ai, end));
            }
            ai += 1;
        }
        match &command.action {
            Some(action) => action_outcome(action.call(parsed)),
            None => {
                command.show_help(help_fn, HelpReason::MissingAction, parsed);
                Ok(RunOutcome::HelpShown)
            },
        }
    }

    /// Runs the command on borrowed argument strings.
    pub fn run_str(&self, args: Vec<&str>) -> (r: Result<RunOutcome, CommandError>)
        requires
            tree_wf(*self),
        ensures
            run_post(*self, args.deep_view(), r),
    {
        self.run(crate::parse::to_owned_all(args))
    }
}

/// Renders the diagnostic for missing positional arguments.
fn argument_diagnostic(start: usize, end: usize) -> (r: String)
    requires
        start < usize::MAX,
        end < usize::MAX,
    ensures
        r@ == missing_argument_diagnostic(start as nat, end as nat),
{
    let mut msg = String::from_str("missing argument from positions ");
    let from_digits = decimal_string(start + 1);
    msg.append(from_digits.as_str());
    msg.append(" to ");
    let to_digits = decimal_string(end + 1);
    msg.append(to_digits.as_str());
    msg.append("!");
    proof {
        assert(msg@ =~= missing_argument_diagnostic(start as nat, end as nat));
    }
    msg
}

/// Renders the diagnostic for a missing option.
fn option_diagnostic(names: &Vec<String>) -> (r: String)
    ensures
        r@ == missing_option_diagnostic(names.deep_view()),
{
    let mut msg = String::from_str("missing option ");
    let joined = join_strings(names, " or ");
    msg.append(joined.as_str());
    msg.append("!");
    proof {
        assert(msg@ =~= missing_option_diagnostic(names.deep_view()));
    }
    msg
}

} // verus!
