//! A command-line interface construction toolkit.
//!
//! Callers build a tree of named commands, each carrying options, positional
//! argument declarations and callbacks, then hand the tree a flat list of
//! raw argument strings. The library tokenizes the list, resolves the
//! deepest matching subcommand, accumulates option and positional values,
//! validates the result against the matched command's declarations and
//! either dispatches its action or renders a help screen.

pub mod args;
pub mod command;
pub mod laws;
pub mod parse;
pub mod render;
pub mod run;
pub mod text;
pub mod token;

pub use args::Args;
pub use command::ActionFn;
pub use command::CLIArgument;
pub use command::CLIOption;
pub use command::Command;
pub use command::CommandError;
pub use command::CommandInfo;
pub use command::HelpFn;
pub use command::HelpReason;
pub use command::RunOutcome;
