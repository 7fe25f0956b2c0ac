//! The help renderer: pure formatting over one command's declared
//! metadata, with the exact output text as its specification.

use vstd::prelude::*;

use crate::command::CLIArgument;
use crate::command::CLIOption;
use crate::command::Command;
use crate::command::CommandInfo;
use crate::text::decimal;
use crate::text::decimal_string;
use crate::text::join_strings;
use crate::text::join_with;

verus! {

/// The usage line: the prefix, the canonical name, then a marker for each
/// non-empty declaration block.
pub open spec fn usage_text(c: Command, prefix: Seq<char>) -> Seq<char> {
    prefix + c.names@[0]@ + (if c.options@.len() > 0 {
        " [--options]"@
    } else {
        Seq::<char>::empty()
    }) + (if c.arguments@.len() > 0 {
        " [<arguments>]"@
    } else {
        Seq::<char>::empty()
    }) + (if c.children@.len() > 0 {
        " <command>"@
    } else {
        Seq::<char>::empty()
    })
}

/// How a declared argument is labeled: scalar arguments by index, an
/// array argument by its reach.
pub open spec fn argument_label(i: int, array: bool) -> Seq<char> {
    if array {
        if i != 0 {
            "<everything else>"@
        } else {
            "all arguments"@
        }
    } else {
        "#"@ + decimal(i as nat)
    }
}

/// One line of the arguments block.
pub open spec fn argument_line(a: CLIArgument, i: int, prefix: Seq<char>, sep: Seq<char>) -> Seq<
    char,
> {
    prefix + argument_label(i, a.array) + ": "@ + a.desc@ + (if a.required {
        " (required)"@
    } else {
        Seq::<char>::empty()
    }) + sep
}

/// The first `j` lines of the arguments block.
pub open spec fn arguments_text_upto(c: Command, prefix: Seq<char>, sep: Seq<char>, j: int) -> Seq<
    char,
>
    decreases j
{
    if j <= 0 {
        Seq::<char>::empty()
    } else {
        arguments_text_upto(c, prefix, sep, j - 1) + argument_line(
            c.arguments@[j - 1],
            j - 1,
            prefix,
            sep,
        )
    }
}

/// The arguments block: one line per declared argument.
pub open spec fn arguments_text(c: Command, prefix: Seq<char>, sep: Seq<char>) -> Seq<char> {
    arguments_text_upto(c, prefix, sep, c.arguments@.len() as int)
}

/// One line of the options block.
pub open spec fn option_line(o: CLIOption, prefix: Seq<char>, sep: Seq<char>) -> Seq<char> {
    prefix + join_with(o.names.deep_view(), ", "@) + ": "@ + o.desc@ + " ("@ + (if o.required {
        "required"@
    } else {
        "not required"@
    }) + ")"@ + sep
}

/// The first `j` lines of the options block.
pub open spec fn options_text_upto(c: Command, prefix: Seq<char>, sep: Seq<char>, j: int) -> Seq<
    char,
>
    decreases j
{
    if j <= 0 {
        Seq::<char>::empty()
    } else {
        options_text_upto(c, prefix, sep, j - 1) + option_line(c.options@[j - 1], prefix, sep)
    }
}

/// The options block: one line per declared option.
pub open spec fn options_text(c: Command, prefix: Seq<char>, sep: Seq<char>) -> Seq<char> {
    options_text_upto(c, prefix, sep, c.options@.len() as int)
}

/// One line of the subcommands block.
pub open spec fn subcommand_line(child: Command, prefix: Seq<char>, sep: Seq<char>) -> Seq<char> {
    prefix + join_with(child.names.deep_view(), ", "@) + ": "@ + (match child.desc {
        Some(d) => d@,
        None => "(no description)"@,
    }) + sep
}

/// The first `j` lines of the subcommands block.
pub open spec fn subcommands_text_upto(
    c: Command,
    prefix: Seq<char>,
    sep: Seq<char>,
    j: int,
) -> Seq<char>
    decreases j
{
    if j <= 0 {
        Seq::<char>::empty()
    } else {
        subcommands_text_upto(c, prefix, sep, j - 1) + subcommand_line(
            c.children@[j - 1],
            prefix,
            sep,
        )
    }
}

/// The subcommands block: one line per child.
pub open spec fn subcommands_text(c: Command, prefix: Seq<char>, sep: Seq<char>) -> Seq<char> {
    subcommands_text_upto(c, prefix, sep, c.children@.len() as int)
}

/// The full help screen: usage, arguments, options, subcommands, each
/// section under its literal header.
pub open spec fn help_text(c: Command) -> Seq<char> {
    "usage:"@ + usage_text(c, " "@) + "\n"@ + "arguments:\n"@ + arguments_text(c, "\t"@, "\n"@)
        + "options:\n"@ + options_text(c, "\t"@, "\n"@) + "commands:\n"@ + subcommands_text(
        c,
        "\t"@,
        "\n"@,
    )
}

impl Command {
    /// Renders the usage line, starting with `prefix`.
    pub fn generate_usage(&self, prefix: &str) -> (r: String)
        requires
            self.names@.len() > 0,
        ensures
            r@ == usage_text(*self, prefix@),
    {
        let mut builder = String::from_str(prefix);
        builder.append(self.names[0].as_str());
        if self.options.len() > 0 {
            builder.append(" [--options]");
        }
        if self.arguments.len() > 0 {
            builder.append(" [<arguments>]");
        }
        if self.children.len() > 0 {
            builder.append(" <command>");
        }
        proof {
            assert(builder@ =~= usage_text(*self, prefix@));
        }
        builder
    }

    /// Renders the arguments block: one line per declared argument,
    /// prefixed with `prefix` and terminated by `separator`.
    pub fn generate_args(&self, prefix: &str, separator: &str) -> (r: String)
        ensures
            r@ == arguments_text(*self, prefix@, separator@),
    {
        let mut builder = String::new();
        let mut i: usize = 0;
        while i < self.arguments.len()
            invariant
                0 <= i <= self.arguments@.len(),
                builder@ == arguments_text_upto(*self, prefix@, separator@, i as int),
            decreases self.arguments@.len() - i,
        {
            let ghost before = builder@;
            builder.append(prefix);
            if self.arguments[i].array {
                if i != 0 {
                    builder.append("<everything else>");
                } else {
                    builder.append("all arguments");
                }
            } else {
                builder.append("#");
                let digits = decimal_string(i);
                builder.append(digits.as_str());
            }
            builder.append(": ");
            builder.append(self.arguments[i].desc.as_str());
            if self.arguments[i].required {
                builder.append(" (required)");
            }
            builder.append(separator);
            proof {
                assert(builder@ =~= before + argument_line(
                    self.arguments@[i as int],
                    i as int,
                    prefix@,
                    separator@,
                ));
            }
            i += 1;
        }
        builder
    }

    /// Renders the options block: one line per declared option, prefixed
    /// with `prefix` and terminated by `separator`.
    pub fn generate_opts(&self, prefix: &str, separator: &str) -> (r: String)
        ensures
            r@ == options_text(*self, prefix@, separator@),
    {
        let mut builder = String::new();
        let mut i: usize = 0;
        while i < self.options.len()
            invariant
                0 <= i <= self.options@.len(),
                builder@ == options_text_upto(*self, prefix@, separator@, i as int),
            decreases self.options@.len() - i,
        {
            let ghost before = builder@;
            builder.append(prefix);
            let names = join_strings(&self.options[i].names, ", ");
            builder.append(names.as_str());
            builder.append(": ");
            builder.append(self.options[i].desc.as_str());
            builder.append(" (");
            if self.options[i].required {
                builder.append("required");
            } else {
                builder.append("not required");
            }
            builder.append(")");
            builder.append(separator);
            proof {
                assert(builder@ =~= before + option_line(
                    self.options@[i as int],
                    prefix@,
                    separator@,
                ));
            }
            i += 1;
        }
        builder
    }

    /// Renders the subcommands block: one line per child, prefixed with
    /// `prefix` and terminated by `separator`.
    pub fn generate_sub_commands(&self, prefix: &str, separator: &str) -> (r: String)
        ensures
            r@ == subcommands_text(*self, prefix@, separator@),
    {
        let mut builder = String::new();
        let mut i: usize = 0;
        while i < self.children.len()
            invariant
                0 <= i <= self.children@.len(),
                builder@ == subcommands_text_upto(*self, prefix@, separator@, i as int),
            decreases self.children@.len() - i,
        {
            let ghost before = builder@;
            builder.append(prefix);
            let names = join_strings(&self.children[i].names, ", ");
            builder.append(names.as_str());
            builder.append(": ");
            match &self.children[i].desc {
                Some(d) => builder.append(d.as_str()),
                None => builder.append("(no description)"),
            }
            builder.append(separator);
            proof {
                assert(builder@ =~= before + subcommand_line(
                    self.children@[i as int],
                    prefix@,
                    separator@,
                ));
            }
            i += 1;
        }
        builder
    }

    /// Renders the full help screen.
    pub fn generate_help(&self) -> (r: String)
        requires
            self.names@.len() > 0,
        ensures
            r@ == help_text(*self),
    {
        let mut builder = String::from_str("usage:");
        let usage = self.generate_usage(" ");
        builder.append(usage.as_str());
        builder.append("\n");
        builder.append("arguments:\n");
        let args = self.generate_args("\t", "\n");
        builder.append(args.as_str());
        builder.append("options:\n");
        let opts = self.generate_opts("\t", "\n");
        builder.append(opts.as_str());
        builder.append("commands:\n");
        let subs = self.generate_sub_commands("\t", "\n");
        builder.append(subs.as_str());
        proof {
            assert(builder@ =~= help_text(*self));
        }
        builder
    }
}

/// The help callback's view of a command. A command whose name list was
/// emptied by hand renders an empty usage line rather than none.
impl CommandInfo for Command {
    fn generate_help(&self) -> String {
        if self.names.len() > 0 {
            Command::generate_help(self)
        } else {
            String::new()
        }
    }

    fn generate_usage(&self, prefix: &str) -> String {
        if self.names.len() > 0 {
            Command::generate_usage(self, prefix)
        } else {
            String::new()
        }
    }

    fn generate_args(&self, prefix: &str, separator: &str) -> String {
        Command::generate_args(self, prefix, separator)
    }

    fn generate_opts(&self, prefix: &str, separator: &str) -> String {
        Command::generate_opts(self, prefix, separator)
    }

    fn generate_sub_commands(&self, prefix: &str, separator: &str) -> String {
        Command::generate_sub_commands(self, prefix, separator)
    }
}

} // verus!
