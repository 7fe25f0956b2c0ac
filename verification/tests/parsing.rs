use icicle::Args;
use icicle::Command;

fn dummy_command() -> Command {
    Command {
        names: vec!["root".to_string()],
        children: vec![Command {
            names: vec!["sub".to_string(), "alias".to_string()],
            children: vec![],
            arguments: vec![],
            options: vec![],
            help: None,
            action: None,
            desc: None,
        }],
        arguments: vec![],
        options: vec![],
        help: None,
        action: None,
        desc: None,
    }
}

#[test]
fn test_parse_long_option() {
    let cmd = dummy_command();
    let args = vec!["--verbose=true".to_string(), "--count=42".to_string()];
    let (_, parsed, _) = Args::parse(&cmd, args);

    assert_eq!(parsed.get_string("--verbose").unwrap(), "true");
    assert_eq!(parsed.get::<i32>("--count").unwrap(), 42);
}

#[test]
fn test_parse_short_option() {
    let cmd = dummy_command();
    let args = vec!["-v=true".to_string(), "-f=false".to_string()];
    let (_, parsed, _) = Args::parse(&cmd, args);

    assert_eq!(parsed.get_string("-v").unwrap(), "true");
    assert_eq!(parsed.get_string("-f").unwrap(), "false");
}

#[test]
fn test_positional_arguments() {
    let cmd = dummy_command();
    let args = vec![
        "sub".to_string(),
        "file1.txt".to_string(),
        "file2.txt".to_string(),
    ];
    let (_, parsed, _) = Args::parse(&cmd, args);

    assert_eq!(parsed.at_string(0).unwrap(), "file1.txt");
    assert_eq!(parsed.at_string(1).unwrap(), "file2.txt");
}

#[test]
fn test_command_alias() {
    let cmd = dummy_command();
    let args = vec!["alias".to_string()];
    let (found_cmd, _, _) = Args::parse(&cmd, args);

    assert_eq!(found_cmd.names[0], "sub");
}

#[test]
fn test_has_and_get() {
    let cmd = dummy_command();
    let args = vec!["--enable=true".to_string(), "-d=false".to_string()];
    let (_, parsed, _) = Args::parse(&cmd, args);

    assert!(parsed.has("--enable"));
    assert!(parsed.has("-d"));
    assert!(!parsed.has("nonexistent"));

    assert_eq!(parsed.get::<bool>("--enable").unwrap(), true);
    assert_eq!(parsed.get::<bool>("-d").unwrap(), false);
}

#[test]
fn test_range_and_iter() {
    let cmd = dummy_command();
    let args = vec![
        "sub".to_string(),
        "1".to_string(),
        "2".to_string(),
        "3".to_string(),
    ];
    let (_, parsed, _) = Args::parse(&cmd, args);

    let range: Vec<i32> = parsed.range(0..3).unwrap();
    assert_eq!(range, vec![1, 2, 3]);

    let strings: Vec<&String> = parsed.range_string(0..3).unwrap();
    assert_eq!(strings, vec!["1", "2", "3"]);

    let collected: Vec<String> = parsed.iter();
    assert_eq!(collected, vec!["1", "2", "3"]);
}

#[test]
fn test_get_or_and_has_or() {
    let cmd = dummy_command();
    let args = vec!["--primary=10".to_string()];
    let (_, parsed, _) = Args::parse(&cmd, args);

    assert!(parsed.has_or("--primary", "--secondary"));
    assert_eq!(
        parsed.get_or::<i32>("--primary", "--secondary").unwrap(),
        10
    );
}

#[test]
fn test_at_and_out_of_bounds() {
    let cmd = dummy_command();
    let args = vec!["sub".to_string(), "value".to_string()];
    let (_, parsed, _) = Args::parse(&cmd, args);

    assert_eq!(parsed.at_string(0).unwrap(), "value");
    assert!(parsed.at::<String>(1).is_none());
}

#[test]
fn test_args_parse_long_option() {
    let cmd = Command::new("app");
    let (_, args, _) = Args::parse(&cmd, vec!["--flag=true".into()]);
    assert!(args.has("--flag"));
    assert_eq!(args.get_string("--flag").unwrap(), "true");
}

#[test]
fn test_args_parse_short_option() {
    let cmd = Command::new("app");
    let (_, args, _) = Args::parse(&cmd, vec!["-f=true".into()]);
    assert!(args.has("-f"));
    assert_eq!(args.get_string("-f").unwrap(), "true");
}

#[test]
fn test_args_positional_arguments() {
    let mut cmd = Command::new("test");
    cmd.command("run"); // add dummy subcommand

    let args = Args::parse_str(&cmd, vec!["run", "input.txt", "output.txt"]).1;

    assert_eq!(args.at_string(0), Some(&"input.txt".to_string()));
    assert_eq!(args.at_string(1), Some(&"output.txt".to_string()));
}

#[test]
fn test_args_get_or_methods() {
    let cmd = Command::new("app");
    let (_, args, _) = Args::parse(&cmd, vec!["--primary=42".into()]);
    assert_eq!(args.get_or::<i32>("--primary", "--backup"), Some(42));
    assert_eq!(args.get_string_or("--primary", "--backup").unwrap(), "42");
}

#[test]
fn test_args_range() {
    let cmd = Command::new("app");
    let (_, args, _) = Args::parse(&cmd, vec!["1".into(), "2".into(), "3".into()]);
    let range: Vec<i32> = args.range(0..3).unwrap();
    assert_eq!(range, vec![1, 2, 3]);
}

#[test]
fn test_long_option_without_value_is_true() {
    let (_, args, _) = Args::parse_str(&Command::new("app"), vec!["--flag"]);
    assert_eq!(args.get_string("--flag").unwrap(), "true");
}

#[test]
fn test_short_cluster_shares_value() {
    let (_, args, _) = Args::parse_str(&Command::new("app"), vec!["-abc=val"]);
    assert_eq!(args.get_string("-a").unwrap(), "val");
    assert_eq!(args.get_string("-b").unwrap(), "val");
    assert_eq!(args.get_string("-c").unwrap(), "val");
    assert_eq!(args.opts.len(), 3);
    assert!(args.pos.is_empty());
}

#[test]
fn test_short_cluster_without_value_is_true() {
    let (_, args, _) = Args::parse_str(&Command::new("app"), vec!["-xy"]);
    assert_eq!(args.get_string("-x").unwrap(), "true");
    assert_eq!(args.get_string("-y").unwrap(), "true");
}

#[test]
fn test_lone_dash_produces_nothing() {
    let (_, args, _) = Args::parse_str(&Command::new("app"), vec!["-"]);
    assert!(args.opts.is_empty());
    assert!(args.pos.is_empty());
}

#[test]
fn test_dashes_split_options_from_positionals() {
    let (_, args, _) = Args::parse_str(
        &Command::new("app"),
        vec!["alpha", "-b", "--gamma=1", "delta"],
    );
    for v in args.iter() {
        assert!(!v.starts_with('-'));
    }
    for (name, _) in args.iter_opt() {
        assert!(name.starts_with('-'));
    }
    assert_eq!(args.pos, vec!["alpha".to_string(), "delta".to_string()]);
}

#[test]
fn test_terminator_sends_everything_to_positionals() {
    let mut cmd = Command::new("root");
    cmd.command("sub");
    let (found, args, _) = Args::parse_str(&cmd, vec!["--", "-x", "sub", "--y=1"]);
    // Subcommand matching never resumes once positional mode has begun.
    assert_eq!(found.names[0], "root");
    assert!(args.opts.is_empty());
    assert_eq!(
        args.pos,
        vec!["-x".to_string(), "sub".to_string(), "--y=1".to_string()]
    );
}

#[test]
fn test_duplicate_option_last_wins() {
    let (_, args, _) = Args::parse_str(&Command::new("app"), vec!["--k=1", "--k=2"]);
    assert_eq!(args.get_string("--k").unwrap(), "2");
    assert_eq!(args.opts.len(), 1);
}

#[test]
fn test_reparsing_is_idempotent() {
    let mut cmd = Command::new("root");
    cmd.command("sub").opt_option("-v, --verbose", "verbosity");
    let tokens = vec!["sub", "-v=3", "pos1", "--", "-raw"];
    let (c1, a1, _) = Args::parse_str(&cmd, tokens.clone());
    let (c2, a2, _) = Args::parse_str(&cmd, tokens);
    assert_eq!(c1.names, c2.names);
    assert_eq!(a1.opts, a2.opts);
    assert_eq!(a1.pos, a2.pos);
}

#[test]
fn test_first_matching_child_wins() {
    let mut root = Command::new("root");
    root.command("a").desc("first");
    let second = {
        let mut c = Command::new("a");
        c.alias("b").desc("second");
        c
    };
    root.add(second);
    let (found, _, _) = Args::parse_str(&root, vec!["a"]);
    assert_eq!(found.desc.as_ref().unwrap(), "first");
    // The alias of the later child still resolves.
    let (found_b, _, _) = Args::parse_str(&root, vec!["b"]);
    assert_eq!(found_b.desc.as_ref().unwrap(), "second");
}

#[test]
fn test_args_new_classifies_without_tree() {
    let args = Args::new(vec!["sub".to_string(), "--flag".to_string()]);
    assert_eq!(args.pos, vec!["sub".to_string()]);
    assert!(args.has("--flag"));

    let args2 = Args::new_str(vec!["x", "-y=2"]);
    assert_eq!(args2.pos, vec!["x".to_string()]);
    assert_eq!(args2.get::<u32>("-y"), Some(2));
}

#[test]
fn test_range_out_of_bounds_message() {
    let args = Args::new_str(vec!["1", "2"]);
    let r: Result<Vec<i32>, String> = args.range(0..5);
    assert_eq!(r.unwrap_err(), "index out of bounds");
    let bad: Result<Vec<i32>, String> = args.range(0..2);
    assert_eq!(bad.unwrap(), vec![1, 2]);
    let unparsable: Result<Vec<i32>, String> = Args::new_str(vec!["one"]).range(0..1);
    assert!(unparsable.is_err());
}

#[test]
fn test_range_empty_in_bounds_succeeds() {
    let args = Args::new_str(vec!["not-a-number"]);
    let r: Result<Vec<i32>, String> = args.range(1..1);
    assert_eq!(r.unwrap(), Vec::<i32>::new());
    let r0: Result<Vec<i32>, String> = Args::new_str(vec![]).range(0..0);
    assert_eq!(r0.unwrap(), Vec::<i32>::new());
}

#[test]
fn test_iter_mut_edits_in_place() {
    let mut args = Args::new_str(vec!["a", "-k=v"]);
    args.iter_mut().push("b".to_string());
    assert_eq!(args.pos, vec!["a".to_string(), "b".to_string()]);
    args.iter_mut_opt().clear();
    assert!(args.opts.is_empty());
}

#[test]
fn test_join_positionals() {
    let args = Args::new_str(vec!["1", "2", "3"]);
    assert_eq!(args.join(" + "), "1 + 2 + 3");
    assert_eq!(Args::new_str(vec![]).join(", "), "");
}

#[test]
fn test_long_option_name_keeps_dashes() {
    let (_, args, _) = Args::parse_str(&Command::new("app"), vec!["--=v"]);
    assert_eq!(args.get_string("--").unwrap(), "v");
}
