use icicle::CLIArgument;
use icicle::Command;
use icicle::CommandError;

#[test]
fn test_command_creation() {
    let cmd = Command::new("test");
    assert_eq!(cmd.names[0], "test");
    assert!(cmd.children.is_empty());
    assert!(cmd.options.is_empty());
    assert!(cmd.arguments.is_empty());
}

#[test]
fn test_add_alias() {
    let mut cmd = Command::new("test");
    cmd.alias("alias1");
    cmd.alias("alias2");
    assert!(cmd.names.contains(&"alias1".to_string()));
    assert!(cmd.names.contains(&"alias2".to_string()));
}

#[test]
fn test_add_option_and_argument() {
    let mut cmd = Command::new("test");
    cmd.option("-o, --option", "an option")
        .argument("an argument");
    assert_eq!(cmd.options.len(), 1);
    assert_eq!(cmd.arguments.len(), 1);
    assert_eq!(
        cmd.options[0].names,
        vec!["-o".to_string(), "--option".to_string()]
    );
    assert!(cmd.options[0].required);
    assert!(cmd.arguments[0].required);
}

#[test]
fn test_add_optional_option_and_argument() {
    let mut cmd = Command::new("test");
    cmd.opt_option("-o, --optional", "optional option")
        .opt_argument("optional argument");
    assert_eq!(cmd.options.len(), 1);
    assert_eq!(cmd.arguments.len(), 1);
    assert!(!cmd.options[0].required);
    assert!(!cmd.arguments[0].required);
}

#[test]
fn test_add_subcommand() {
    let mut parent = Command::new("parent");
    parent.command("child").desc("child command");
    assert_eq!(parent.children.len(), 1);
    assert_eq!(parent.children[0].names[0], "child");
    assert_eq!(parent.children[0].desc.as_ref().unwrap(), "child command");
}

#[test]
fn test_generate_usage() {
    let mut cmd = Command::new("app");
    cmd.option("-v, --verbose", "verbose mode")
        .argument("filename");
    let usage = cmd.generate_usage(" ");
    assert!(usage.contains("[--options]"));
    assert!(usage.contains("[<arguments>]"));
}

#[test]
fn test_generate_help_sections() {
    let mut cmd = Command::new("app");
    cmd.option("-v, --verbose", "verbose mode")
        .argument("filename")
        .command("sub");
    let help = cmd.generate_help();
    assert!(help.contains("usage:"));
    assert!(help.contains("arguments:"));
    assert!(help.contains("options:"));
    assert!(help.contains("commands:"));
}

#[test]
fn test_generate_usage_exact() {
    let mut cmd = Command::new("app");
    assert_eq!(cmd.generate_usage(" "), " app");
    cmd.option("-v, --verbose", "verbose mode")
        .argument("filename")
        .command("sub");
    assert_eq!(
        cmd.generate_usage(" "),
        " app [--options] [<arguments>] <command>"
    );
}

#[test]
fn test_generate_args_exact() {
    let mut cmd = Command::new("app");
    cmd.argument("first file")
        .opt_argument("second file")
        .array_argument("the rest");
    assert_eq!(
        cmd.generate_args("\t", "\n"),
        "\t#0: first file (required)\n\t#1: second file\n\t<everything else>: the rest\n"
    );

    let mut all = Command::new("app");
    all.array_argument("names");
    assert_eq!(all.generate_args("\t", "\n"), "\tall arguments: names\n");
}

#[test]
fn test_generate_opts_exact() {
    let mut cmd = Command::new("app");
    cmd.option("-v, --verbose", "verbose mode")
        .opt_option("-q", "quiet mode");
    assert_eq!(
        cmd.generate_opts("\t", "\n"),
        "\t-v, --verbose: verbose mode (required)\n\t-q: quiet mode (not required)\n"
    );
}

#[test]
fn test_generate_sub_commands_exact() {
    let mut cmd = Command::new("app");
    cmd.command("first").desc("the first");
    cmd.command("second");
    assert_eq!(
        cmd.generate_sub_commands("\t", "\n"),
        "\tfirst: the first\n\tsecond: (no description)\n"
    );
}

#[test]
fn test_generate_help_exact() {
    let mut cmd = Command::new("app");
    cmd.argument("file");
    assert_eq!(
        cmd.generate_help(),
        "usage: app [<arguments>]\narguments:\n\t#0: file (required)\noptions:\ncommands:\n"
    );
}

#[test]
fn test_option_names_are_trimmed() {
    let mut cmd = Command::new("app");
    cmd.option("  -o ,   --option  ", "spaced");
    assert_eq!(
        cmd.options[0].names,
        vec!["-o".to_string(), "--option".to_string()]
    );
}

#[test]
fn test_array_argument_flags() {
    let mut cmd = Command::new("app");
    cmd.array_argument("rest");
    assert!(cmd.arguments[0].array);
    assert!(!cmd.arguments[0].required);
}

#[test]
fn test_error_messages() {
    let mut cmd = Command::new("app");
    cmd.option("-x, --x", "an x");
    let opt = cmd.options[0].clone();
    assert_eq!(
        CommandError::MissingOption(opt).message(),
        "Missing option: -x, --x"
    );
    assert_eq!(
        CommandError::MissingArgument(0, 2).message(),
        "Missing arguments from 0 to 2"
    );
    assert_eq!(
        CommandError::ActionFailed("boom".to_string()).message(),
        "Action failed: boom"
    );
}

#[test]
fn test_clone_keeps_declarations() {
    let arg = CLIArgument {
        desc: "a file".to_string(),
        required: true,
        array: false,
    };
    let copy = arg.clone();
    assert_eq!(copy.desc, "a file");
    assert!(copy.required);
    assert!(!copy.array);
}
