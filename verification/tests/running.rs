use std::cell::Cell;
use std::cell::RefCell;
use std::rc::Rc;

use icicle::ActionFn;
use icicle::CLIArgument;
use icicle::Args;
use icicle::Command;
use icicle::CommandError;
use icicle::CommandInfo;
use icicle::HelpFn;
use icicle::HelpReason;
use icicle::RunOutcome;

struct Record {
    ran: Rc<Cell<bool>>,
    sum: Rc<Cell<i32>>,
    seen: Rc<RefCell<Vec<String>>>,
}

impl ActionFn for Record {
    fn call(&self, args: Args) -> Result<(), String> {
        self.ran.set(true);
        let x = args.get_or::<i32>("-x", "--x").unwrap_or(0);
        let y = args.get_or::<i32>("-y", "--y").unwrap_or(0);
        self.sum.set(x + y);
        for v in args.iter() {
            self.seen.borrow_mut().push(v);
        }
        Ok(())
    }
}

fn recorder() -> (Record, Rc<Cell<bool>>, Rc<Cell<i32>>, Rc<RefCell<Vec<String>>>) {
    let ran = Rc::new(Cell::new(false));
    let sum = Rc::new(Cell::new(0));
    let seen = Rc::new(RefCell::new(Vec::new()));
    (
        Record { ran: ran.clone(), sum: sum.clone(), seen: seen.clone() },
        ran,
        sum,
        seen,
    )
}

struct Failing;

impl ActionFn for Failing {
    fn call(&self, _args: Args) -> Result<(), String> {
        Err("no luck".to_string())
    }
}

struct NoteHelp {
    called: Rc<Cell<bool>>,
    was_missing_option: Rc<Cell<bool>>,
}

impl HelpFn for NoteHelp {
    fn call(&self, reason: HelpReason, command: &dyn CommandInfo, _args: Args) {
        self.called.set(true);
        if let HelpReason::MissingOption(_) = reason {
            self.was_missing_option.set(true);
        }
        // The callback can still render the command's help screen.
        let _ = command.generate_help();
    }
}

#[test]
fn test_missing_required_option_fails() {
    let mut root = Command::new("root");
    let (record, ran, _, _) = recorder();
    root.command("add")
        .option("-x, --x", "First number")
        .option("-y, --y", "Second number")
        .action(record);

    let result = root.run_str(vec!["add", "--x=2"]);
    match result.unwrap_err() {
        CommandError::MissingOption(opt) => {
            assert_eq!(opt.names, vec!["-y".to_string(), "--y".to_string()]);
        }
        other => panic!("unexpected error: {:?}", other),
    }
    assert!(!ran.get());
}

#[test]
fn test_missing_scalar_argument_range() {
    let mut root = Command::new("root");
    let (record, ran, _, _) = recorder();
    root.argument("the one").action(record);

    let result = root.run_str(vec![]);
    match result.unwrap_err() {
        CommandError::MissingArgument(start, end) => {
            assert_eq!((start, end), (0, 0));
        }
        other => panic!("unexpected error: {:?}", other),
    }
    assert!(!ran.get());
}

#[test]
fn test_missing_array_argument_range_collapses() {
    let mut root = Command::new("root");
    let (record, _, _, _) = recorder();
    root.action(record);
    root.arguments.push(CLIArgument {
        desc: "everything".to_string(),
        required: true,
        array: true,
    });

    let result = root.run_str(vec![]);
    match result.unwrap_err() {
        CommandError::MissingArgument(start, end) => {
            assert_eq!((start, end), (0, 0));
        }
        other => panic!("unexpected error: {:?}", other),
    }
}

#[test]
fn test_missing_array_argument_range_spans_declarations() {
    let mut root = Command::new("root");
    root.opt_argument("first");
    root.arguments.push(CLIArgument {
        desc: "rest".to_string(),
        required: true,
        array: true,
    });
    root.opt_argument("ignored tail");

    let result = root.run_str(vec!["only-one"]);
    match result.unwrap_err() {
        CommandError::MissingArgument(start, end) => {
            assert_eq!((start, end), (1, 2));
        }
        other => panic!("unexpected error: {:?}", other),
    }
}

#[test]
fn test_add_scenario_sums_options() {
    let mut root = Command::new("human");
    let (record, ran, sum, _) = recorder();
    root.command("add")
        .option("-x, --x", "First number")
        .option("-y, --y", "Second number")
        .action(record);

    let result = root.run_str(vec!["add", "--x=2", "--y=3"]);
    assert_eq!(result.unwrap(), RunOutcome::ActionRun);
    assert!(ran.get());
    assert_eq!(sum.get(), 5);
}

#[test]
fn test_greet_scenario_collects_positionals() {
    let mut root = Command::new("human");
    let (record, ran, _, seen) = recorder();
    root.command("greet")
        .array_argument("Names you want to greet.")
        .action(record);

    let result = root.run_str(vec!["greet", "Alice", "Bob"]);
    assert_eq!(result.unwrap(), RunOutcome::ActionRun);
    assert!(ran.get());
    assert_eq!(*seen.borrow(), vec!["Alice".to_string(), "Bob".to_string()]);
}

#[test]
fn test_help_flag_short_circuits_validation() {
    let mut root = Command::new("root");
    let (record, ran, _, _) = recorder();
    root.option("-m, --must", "never supplied").action(record);

    let result = root.run_str(vec!["--help"]);
    assert_eq!(result.unwrap(), RunOutcome::HelpShown);
    assert!(!ran.get());
}

#[test]
fn test_missing_action_shows_help() {
    let root = Command::new("root");
    let result = root.run_str(vec![]);
    assert_eq!(result.unwrap(), RunOutcome::HelpShown);
}

#[test]
fn test_failing_action_reports_message() {
    let mut root = Command::new("root");
    root.action(Failing);
    match root.run_str(vec![]).unwrap_err() {
        CommandError::ActionFailed(msg) => assert_eq!(msg, "no luck"),
        other => panic!("unexpected error: {:?}", other),
    }
}

#[test]
fn test_help_callback_is_inherited_and_invoked() {
    let called = Rc::new(Cell::new(false));
    let was_missing_option = Rc::new(Cell::new(false));
    let mut root = Command::new("root");
    root.command("sub")
        .option("-r, --required", "must be there")
        .help(NoteHelp {
            called: called.clone(),
            was_missing_option: was_missing_option.clone(),
        });

    let result = root.run_str(vec!["sub"]);
    assert!(result.is_err());
    assert!(called.get());
    assert!(was_missing_option.get());
}

#[test]
fn test_options_checked_before_arguments() {
    let mut root = Command::new("root");
    root.option("-r", "required option").argument("required argument");
    match root.run_str(vec![]).unwrap_err() {
        CommandError::MissingOption(opt) => {
            assert_eq!(opt.names, vec!["-r".to_string()]);
        }
        other => panic!("unexpected error: {:?}", other),
    }
}

#[test]
fn test_run_resolves_alias_then_validates() {
    let mut root = Command::new("root");
    let (record, ran, _, _) = recorder();
    root.command("serve")
        .alias("s")
        .option("-p, --port", "port to bind")
        .action(record);

    let ok = root.run_str(vec!["s", "--port=8080"]);
    assert_eq!(ok.unwrap(), RunOutcome::ActionRun);
    assert!(ran.get());
}
