//! The command tree: commands with options, positional argument
//! declarations, subcommands and callbacks, plus the builder surface.

use vstd::prelude::*;

use crate::args::Args;
use crate::text::decimal;
use crate::text::decimal_string;
use crate::text::join_strings;
use crate::text::join_with;
use crate::text::split_trimmed;
use crate::text::split_names;

verus! {

/// Why a help screen is rendered.
#[derive(Debug)]
pub enum HelpReason {
    /// The user asked for help with `--help`.
    UserAsked,
    /// The matched command has no action.
    MissingAction,
    /// A required option is missing from the parsed arguments.
    MissingOption(CLIOption),
    /// Required positional arguments are missing, between the two declared
    /// indices, both inclusive.
    MissingArgument(usize, usize),
}

/// Why running a command failed. Unlike [`HelpReason`], this is the error
/// type that `run` reports to its caller.
#[derive(Debug)]
pub enum CommandError {
    /// A required option is missing from the parsed arguments.
    MissingOption(CLIOption),
    /// Required positional arguments are missing, between the two declared
    /// indices, both inclusive.
    MissingArgument(usize, usize),
    /// The command's action ran and reported this failure.
    ActionFailed(String),
}

/// What a successful run did.
#[derive(Debug, PartialEq, Eq, Structural)]
pub enum RunOutcome {
    /// The matched command's action ran and succeeded.
    ActionRun,
    /// No action ran; a help screen was rendered instead.
    HelpShown,
}

/// A command-line option declaration (`--example`, `-e`).
#[derive(Debug)]
pub struct CLIOption {
    /// All names of this option, leading dashes included.
    pub names: Vec<String>,
    /// A short description of the option.
    pub desc: String,
    /// Whether this option must be present.
    pub required: bool,
}

/// A positional argument declaration.
#[derive(Debug)]
pub struct CLIArgument {
    /// A short description of the argument.
    pub desc: String,
    /// Whether this argument must be present.
    pub required: bool,
    /// Whether this argument captures all remaining positional values.
    pub array: bool,
}

/// The action attached to a command: invoked with the parsed arguments,
/// it reports success or a failure message.
pub trait ActionFn {
    fn call(&self, args: Args) -> Result<(), String>;
}

/// The read surface of a command that a help callback receives: the
/// rendered sections of its help screen.
pub trait CommandInfo {
    fn generate_help(&self) -> String;

    fn generate_usage(&self, prefix: &str) -> String;

    fn generate_args(&self, prefix: &str, separator: &str) -> String;

    fn generate_opts(&self, prefix: &str, separator: &str) -> String;

    fn generate_sub_commands(&self, prefix: &str, separator: &str) -> String;
}

/// A help callback attached to a command: invoked with the reason, the
/// matched command and the parsed arguments.
pub trait HelpFn {
    fn call(&self, reason: HelpReason, command: &dyn CommandInfo, args: Args);
}

/// A node of the command tree.
pub struct Command {
    /// All names of the command; the first is canonical, the rest are
    /// aliases. Never empty.
    pub names: Vec<String>,
    /// The callback run when the command is executed.
    pub action: Option<Box<dyn ActionFn>>,
    /// The callback run to show a help screen.
    pub help: Option<Box<dyn HelpFn>>,
    /// An optional short description of the command.
    pub desc: Option<String>,
    /// The subcommands, in resolution order.
    pub children: Vec<Command>,
    /// The options declared on this command.
    pub options: Vec<CLIOption>,
    /// The positional arguments declared on this command.
    pub arguments: Vec<CLIArgument>,
}

impl Clone for CLIOption {
    fn clone(&self) -> (r: Self)
        ensures
            same_option(r, *self),
    {
        let mut names: Vec<String> = Vec::new();
        let mut i: usize = 0;
        while i < self.names.len()
            invariant
                0 <= i <= self.names@.len(),
                names@.len() == i,
                forall|j: int| 0 <= j < i ==> names@[j] == self.names@[j],
            decreases self.names@.len() - i,
        {
            names.push(self.names[i].clone());
            i += 1;
        }
        proof {
            assert(names.deep_view() =~= self.names.deep_view());
        }
        CLIOption { names, desc: self.desc.clone(), required: self.required }
    }
}

impl Clone for CLIArgument {
    fn clone(&self) -> (r: Self)
        ensures
            r == *self,
    {
        CLIArgument { desc: self.desc.clone(), required: self.required, array: self.array }
    }
}

impl Clone for HelpReason {
    fn clone(&self) -> (r: Self)
        ensures
            same_reason(r, *self),
    {
        match self {
            HelpReason::UserAsked => HelpReason::UserAsked,
            HelpReason::MissingAction => HelpReason::MissingAction,
            HelpReason::MissingOption(o) => HelpReason::MissingOption(o.clone()),
            HelpReason::MissingArgument(s, e) => HelpReason::MissingArgument(*s, *e),
        }
    }
}

impl Clone for CommandError {
    fn clone(&self) -> (r: Self)
        ensures
            same_error(r, *self),
    {
        match self {
            CommandError::MissingOption(o) => CommandError::MissingOption(o.clone()),
            CommandError::MissingArgument(s, e) => CommandError::MissingArgument(*s, *e),
            CommandError::ActionFailed(m) => CommandError::ActionFailed(m.clone()),
        }
    }
}

/// Whether `a` and `b` are the same option declaration: same names, same
/// description, same requiredness.
pub open spec fn same_option(a: CLIOption, b: CLIOption) -> bool {
    &&& a.names.deep_view() == b.names.deep_view()
    &&& a.desc@ == b.desc@
    &&& a.required == b.required
}

/// Whether `a` and `b` report the same help reason.
pub open spec fn same_reason(a: HelpReason, b: HelpReason) -> bool {
    match (a, b) {
        (HelpReason::UserAsked, HelpReason::UserAsked) => true,
        (HelpReason::MissingAction, HelpReason::MissingAction) => true,
        (HelpReason::MissingOption(x), HelpReason::MissingOption(y)) => same_option(x, y),
        (HelpReason::MissingArgument(s1, e1), HelpReason::MissingArgument(s2, e2)) => s1 == s2
            && e1 == e2,
        _ => false,
    }
}

/// Whether `a` and `b` report the same failure.
pub open spec fn same_error(a: CommandError, b: CommandError) -> bool {
    match (a, b) {
        (CommandError::MissingOption(x), CommandError::MissingOption(y)) => same_option(x, y),
        (CommandError::MissingArgument(s1, e1), CommandError::MissingArgument(s2, e2)) => s1 == s2
            && e1 == e2,
        (CommandError::ActionFailed(m1), CommandError::ActionFailed(m2)) => m1@ == m2@,
        _ => false,
    }
}

/// The text of an error report, as [`CommandError::message`] renders it.
pub open spec fn error_message(e: CommandError) -> Seq<char> {
    match e {
        CommandError::MissingOption(o) => "Missing option: "@ + join_with(
            o.names.deep_view(),
            ", "@,
        ),
        CommandError::MissingArgument(s, e2) => "Missing arguments from "@ + decimal(s as nat)
            + " to "@ + decimal(e2 as nat),
        CommandError::ActionFailed(m) => "Action failed: "@ + m@,
    }
}

impl CommandError {
    /// Renders the error as one line of text.
    pub fn message(&self) -> (r: String)
        ensures
            r@ == error_message(*self),
    {
        match self {
            CommandError::MissingOption(o) => {
                let mut msg = String::from_str("Missing option: ");
                let names = join_strings(&o.names, ", ");
                msg.append(names.as_str());
                proof {
                    assert(msg@ =~= error_message(*self));
                }
                msg
            },
            CommandError::MissingArgument(s, e2) => {
                let mut msg = String::from_str("Missing arguments from ");
                let from_digits = decimal_string(*s);
                msg.append(from_digits.as_str());
                msg.append(" to ");
                let to_digits = decimal_string(*e2);
                msg.append(to_digits.as_str());
                proof {
                    assert(msg@ =~= error_message(*self));
                }
                msg
            },
            CommandError::ActionFailed(m) => {
                let mut msg = String::from_str("Action failed: ");
                msg.append(m.as_str());
                proof {
                    assert(msg@ =~= error_message(*self));
                }
                msg
            },
        }
    }
}

/// Every node of the tree rooted at `c` has at least one name, as
/// `Command::new` and the builders guarantee.
pub open spec fn tree_wf(c: Command) -> bool
    decreases c
{
    &&& c.names@.len() > 0
    &&& forall|i: int| 0 <= i < c.children@.len() ==> tree_wf(#[trigger] c.children@[i])
}

impl Command {
    /// Creates a command named `name`, with no description, subcommands,
    /// options, arguments or callbacks.
    pub fn new(name: &str) -> (c: Command)
        ensures
            c.names.deep_view() == seq![name@],
            (c.action is None),
            (c.help is None),
            (c.desc is None),
            c.children@ == Seq::<Command>::empty(),
            c.options@ == Seq::<CLIOption>::empty(),
            c.arguments@ == Seq::<CLIArgument>::empty(),
            tree_wf(c),
    {
        let mut names: Vec<String> = Vec::new();
        names.push(String::from_str(name));
        let c = Command {
            names,
            desc: None,
            children: Vec::new(),
            options: Vec::new(),
            arguments: Vec::new(),
            action: None,
            help: None,
        };
        proof {
            assert(c.names.deep_view() =~= seq![name@]);
        }
        c
    }

    /// Sets the action run when this command is executed.
    pub fn action<T: ActionFn + 'static>(&mut self, action: T) -> (r: &mut Self)
        ensures
            (r.action is Some),
            r.names == old(self).names,
            r.help == old(self).help,
            r.desc == old(self).desc,
            r.children == old(self).children,
            r.options == old(self).options,
            r.arguments == old(self).arguments,
            tree_wf(*old(self)) ==> tree_wf(*r),
            *final(self) == *final(r),
    {
        self.action = Some(Box::new(action));
        self
    }

    /// Sets the help callback run when this command renders help.
    pub fn help<T: HelpFn + 'static>(&mut self, help: T) -> (r: &mut Self)
        ensures
            (r.help is Some),
            r.names == old(self).names,
            r.action == old(self).action,
            r.desc == old(self).desc,
            r.children == old(self).children,
            r.options == old(self).options,
            r.arguments == old(self).arguments,
            tree_wf(*old(self)) ==> tree_wf(*r),
            *final(self) == *final(r),
    {
        self.help = Some(Box::new(help));
        self
    }

    /// Sets the description of the command.
    pub fn desc(&mut self, desc: &str) -> (r: &mut Self)
        ensures
            (r.desc matches Some(d) && d@ == desc@),
            r.names == old(self).names,
            r.action == old(self).action,
            r.help == old(self).help,
            r.children == old(self).children,
            r.options == old(self).options,
            r.arguments == old(self).arguments,
            tree_wf(*old(self)) ==> tree_wf(*r),
            *final(self) == *final(r),
    {
        self.desc = Some(String::from_str(desc));
        self
    }

    /// Adds an alias to the command.
    pub fn alias(&mut self, alias: &str) -> (r: &mut Self)
        ensures
            r.names.deep_view() == old(self).names.deep_view().push(alias@),
            r.action == old(self).action,
            r.help == old(self).help,
            r.desc == old(self).desc,
            r.children == old(self).children,
            r.options == old(self).options,
            r.arguments == old(self).arguments,
            tree_wf(*old(self)) ==> tree_wf(*r),
            *final(self) == *final(r),
    {
        self.names.push(String::from_str(alias));
        proof {
            assert(self.names.deep_view() =~= old(self).names.deep_view().push(alias@));
        }
        self
    }

    /// Declares a required option. `names` lists its spellings separated
    /// by commas, as in `-o, --option`.
    pub fn option(&mut self, names: &str, desc: &str) -> (r: &mut Self)
        ensures
            r.options@.len() == old(self).options@.len() + 1,
            r.options@.drop_last() == old(self).options@,
            r.options@.last().names.deep_view() == split_trimmed(names@),
            r.options@.last().desc@ == desc@,
            (r.options@.last().required),
            r.names == old(self).names,
            r.action == old(self).action,
            r.help == old(self).help,
            r.desc == old(self).desc,
            r.children == old(self).children,
            r.arguments == old(self).arguments,
            tree_wf(*old(self)) ==> tree_wf(*r),
            *final(self) == *final(r),
    {
        let opt = CLIOption {
            names: split_names(names),
            desc: String::from_str(desc),
            required: true,
        };
        self.options.push(opt);
        proof {
            assert(self.options@.drop_last() =~= old(self).options@);
        }
        self
    }

    /// Declares an optional option. `names` lists its spellings separated
    /// by commas, as in `-o, --option`.
    pub fn opt_option(&mut self, names: &str, desc: &str) -> (r: &mut Self)
        ensures
            r.options@.len() == old(self).options@.len() + 1,
            r.options@.drop_last() == old(self).options@,
            r.options@.last().names.deep_view() == split_trimmed(names@),
            r.options@.last().desc@ == desc@,
            (!r.options@.last().required),
            r.names == old(self).names,
            r.action == old(self).action,
            r.help == old(self).help,
            r.desc == old(self).desc,
            r.children == old(self).children,
            r.arguments == old(self).arguments,
            tree_wf(*old(self)) ==> tree_wf(*r),
            *final(self) == *final(r),
    {
        let opt = CLIOption {
            names: split_names(names),
            desc: String::from_str(desc),
            required: false,
        };
        self.options.push(opt);
        proof {
            assert(self.options@.drop_last() =~= old(self).options@);
        }
        self
    }

    /// Declares a required scalar positional argument at the next index.
    pub fn argument(&mut self, desc: &str) -> (r: &mut Self)
        ensures
            r.arguments@.len() == old(self).arguments@.len() + 1,
            r.arguments@.drop_last() == old(self).arguments@,
            r.arguments@.last().desc@ == desc@,
            (r.arguments@.last().required),
            (!r.arguments@.last().array),
            r.names == old(self).names,
            r.action == old(self).action,
            r.help == old(self).help,
            r.desc == old(self).desc,
            r.children == old(self).children,
            r.options == old(self).options,
            tree_wf(*old(self)) ==> tree_wf(*r),
            *final(self) == *final(r),
    {
        self.arguments.push(
            CLIArgument { desc: String::from_str(desc), required: true, array: false },
        );
        proof {
            assert(self.arguments@.drop_last() =~= old(self).arguments@);
        }
        self
    }

    /// Declares an optional scalar positional argument at the next index.
    pub fn opt_argument(&mut self, desc: &str) -> (r: &mut Self)
        ensures
            r.arguments@.len() == old(self).arguments@.len() + 1,
            r.arguments@.drop_last() == old(self).arguments@,
            r.arguments@.last().desc@ == desc@,
            (!r.arguments@.last().required),
            (!r.arguments@.last().array),
            r.names == old(self).names,
            r.action == old(self).action,
            r.help == old(self).help,
            r.desc == old(self).desc,
            r.children == old(self).children,
            r.options == old(self).options,
            tree_wf(*old(self)) ==> tree_wf(*r),
            *final(self) == *final(r),
    {
        self.arguments.push(
            CLIArgument { desc: String::from_str(desc), required: false, array: false },
        );
        proof {
            assert(self.arguments@.drop_last() =~= old(self).arguments@);
        }
        self
    }

    /// Declares a positional argument that captures all remaining
    /// positional values from its index on.
    pub fn array_argument(&mut self, desc: &str) -> (r: &mut Self)
        ensures
            r.arguments@.len() == old(self).arguments@.len() + 1,
            r.arguments@.drop_last() == old(self).arguments@,
            r.arguments@.last().desc@ == desc@,
            (!r.arguments@.last().required),
            (r.arguments@.last().array),
            r.names == old(self).names,
            r.action == old(self).action,
            r.help == old(self).help,
            r.desc == old(self).desc,
            r.children == old(self).children,
            r.options == old(self).options,
            tree_wf(*old(self)) ==> tree_wf(*r),
            *final(self) == *final(r),
    {
        self.arguments.push(
            CLIArgument { desc: String::from_str(desc), required: false, array: true },
        );
        proof {
            assert(self.arguments@.drop_last() =~= old(self).arguments@);
        }
        self
    }

    /// Attaches an already-built command as a subcommand.
    pub fn add(&mut self, other: Command) -> (r: &mut Self)
        ensures
            r.children@ == old(self).children@.push(other),
            r.names == old(self).names,
            r.action == old(self).action,
            r.help == old(self).help,
            r.desc == old(self).desc,
            r.options == old(self).options,
            r.arguments == old(self).arguments,
            tree_wf(*old(self)) && tree_wf(other) ==> tree_wf(*r),
            *final(self) == *final(r),
    {
        self.children.push(other);
        self
    }

    /// Creates a command named `name`, attaches it as a subcommand and
    /// returns it for further building.
    pub fn command(&mut self, name: &str) -> (r: &mut Command)
        ensures
            r.names.deep_view() == seq![name@],
            (r.action is None),
            (r.help is None),
            (r.desc is None),
            r.children@ == Seq::<Command>::empty(),
            r.options@ == Seq::<CLIOption>::empty(),
            r.arguments@ == Seq::<CLIArgument>::empty(),
            tree_wf(*r),
            final(self).children@ == old(self).children@.push(*final(r)),
            tree_wf(*old(self)) && tree_wf(*final(r)) ==> tree_wf(*final(self)),
            final(self).names == old(self).names,
            final(self).action == old(self).action,
            final(self).help == old(self).help,
            final(self).desc == old(self).desc,
            final(self).options == old(self).options,
            final(self).arguments == old(self).arguments,
    {
        let child = Command::new(name);
        self.children.push(child);
        let i = self.children.len() - 1;
        &mut self.children[i]
    }
}

} // verus!
