use gh_traffic::cli::{init, Cli, CliError, ParsedArg};
use gh_traffic::command::{parse_repo_from_arg, resolve, Command, InputError, Invocation};

fn args(items: &[&str]) -> Vec<String> {
    items.iter().map(|s| s.to_string()).collect()
}

fn bad_input(error: CliError) -> String {
    match error {
        CliError::BadInput(text) => text,
    }
}

#[test]
fn options_have_a_key_and_a_value() {
    assert!(matches!(
        ParsedArg::from_str("--out-dir=data").unwrap(),
        ParsedArg::Option(k, v) if k == "out-dir" && v == "data"
    ));
    assert!(matches!(
        ParsedArg::from_str("--a=b=c").unwrap(),
        ParsedArg::Option(k, v) if k == "a" && v == "b=c"
    ));
    assert!(matches!(
        ParsedArg::from_str("--help").unwrap(),
        ParsedArg::Option(k, v) if k == "help" && v.is_empty()
    ));
    assert!(matches!(
        ParsedArg::from_str("--").unwrap(),
        ParsedArg::Option(k, v) if k.is_empty() && v.is_empty()
    ));
    assert!(matches!(
        ParsedArg::from_str("--=x").unwrap(),
        ParsedArg::Option(k, v) if k.is_empty() && v == "x"
    ));
}

#[test]
fn flags_are_one_character() {
    assert!(matches!(ParsedArg::from_str("-v").unwrap(), ParsedArg::Flag(k) if k == "v"));
    assert!(matches!(ParsedArg::from_str("-=").unwrap(), ParsedArg::Flag(k) if k == "="));
    for text in ["-", "-vv", "-\u{e9}", "-v=1"] {
        let error = ParsedArg::from_str(text).unwrap_err();
        assert_eq!(error.message(), format!("Invalid option format: {}", text));
        assert_eq!(bad_input(error), format!("Invalid option format: {}", text));
    }
}

#[test]
fn everything_else_is_an_argument() {
    assert!(matches!(
        ParsedArg::from_str("traffic").unwrap(),
        ParsedArg::Argument(a) if a == "traffic"
    ));
    assert!(matches!(ParsedArg::from_str("").unwrap(), ParsedArg::Argument(a) if a.is_empty()));
    assert!(matches!(ParsedArg::from_str("a-b").unwrap(), ParsedArg::Argument(a) if a == "a-b"));
}

#[test]
fn init_skips_the_program_and_collects_the_rest() {
    let cli = init(&args(&["prog", "-v", "--out-dir=data", "traffic", "a/b", "--x", "-q", "-v"]))
        .unwrap();
    assert_eq!(cli.commands, vec!["traffic".to_string(), "a/b".to_string()]);
    assert!(cli.has_flag("v"));
    assert!(cli.has_flag("q"));
    assert!(!cli.has_flag("h"));
    assert!(!cli.has_flag("prog"));
    assert_eq!(cli.option("out-dir"), Some(&"data".to_string()));
    assert_eq!(cli.option("x"), Some(&String::new()));
    assert_eq!(cli.option("y"), None);
    assert!(cli.has_option("x"));
    assert!(!cli.has_option("v"));
}

#[test]
fn init_of_nothing_is_empty() {
    for given in [args(&[]), args(&["prog"]), args(&["--looks-like-an-option"])] {
        let cli = init(&given).unwrap();
        assert!(cli.commands.is_empty());
        assert!(cli.flags.is_empty());
        assert!(cli.options.is_empty());
    }
}

#[test]
fn the_last_value_of_an_option_counts() {
    let cli = init(&args(&["prog", "--out-dir=a", "--out-dir=b", "--other=c"])).unwrap();
    assert_eq!(cli.option("out-dir"), Some(&"b".to_string()));
}

#[test]
fn init_reports_the_first_bad_argument() {
    let error = init(&args(&["prog", "ok", "-bad", "-worse"])).unwrap_err();
    assert_eq!(error.message(), "Invalid option format: -bad");
}

#[test]
fn arguments_add_up() {
    let mut cli = Cli::new();
    assert!(!cli.has_flag("v"));
    cli.add(ParsedArg::Flag("v".to_string()));
    cli.add(ParsedArg::Option("k".to_string(), "1".to_string()));
    cli.add(ParsedArg::Argument("repo".to_string()));
    cli.add(ParsedArg::Option("k".to_string(), "2".to_string()));
    assert!(cli.has_flag("v"));
    assert_eq!(cli.option("k"), Some(&"2".to_string()));
    assert_eq!(cli.commands, vec!["repo".to_string()]);
}

#[test]
fn commands_name_a_repository() {
    let command = Command::try_from(&args(&["traffic", "octocat/Hello-World"])).unwrap();
    assert!(matches!(&command, Command::Traffic(id) if id.owner == "octocat" && id.repo == "Hello-World"));
    assert_eq!(command.dir_name(), "traffic");
    assert_eq!(command.repo().to_slug(), "octocat/Hello-World");
    let command = Command::try_from(&args(&["clones", "a/b", "ignored"])).unwrap();
    assert!(matches!(&command, Command::Clones(id) if id.owner == "a" && id.repo == "b"));
    assert_eq!(command.dir_name(), "clones");
    let command = Command::try_from(&args(&["repo", "a/b"])).unwrap();
    assert!(matches!(&command, Command::Repo(id) if id.owner == "a" && id.repo == "b"));
    assert_eq!(command.dir_name(), "repo");
}

#[test]
fn commands_are_refused() {
    let error = Command::try_from(&args(&[])).unwrap_err();
    assert_eq!(error.message(), "No command provided.");
    assert!(matches!(error, InputError::Cli(_)));
    let error = Command::try_from(&args(&["stars", "a/b"])).unwrap_err();
    assert_eq!(error.message(), "Command stars does not exist.");
    let error = Command::try_from(&args(&["stars"])).unwrap_err();
    assert_eq!(error.message(), "Command stars does not exist.");
    let error = Command::try_from(&args(&["traffic"])).unwrap_err();
    assert_eq!(error.message(), "No repository provided.");
    let error = Command::try_from(&args(&["repo", "nobody"])).unwrap_err();
    assert_eq!(error.message(), "Failed to parse GitHub repository \"nobody\".");
    assert!(matches!(error, InputError::Repo(e) if e.input == "nobody"));
}

#[test]
fn repository_argument() {
    let id = parse_repo_from_arg(Some(&"a/b".to_string())).unwrap();
    assert_eq!((id.owner.as_str(), id.repo.as_str()), ("a", "b"));
    assert_eq!(parse_repo_from_arg(None).unwrap_err().message(), "No repository provided.");
    assert!(matches!(
        parse_repo_from_arg(Some(&"ab".to_string())).unwrap_err(),
        InputError::Repo(_)
    ));
}

#[test]
fn help_goes_first() {
    for given in [
        args(&["prog", "-h"]),
        args(&["prog", "--help"]),
        args(&["prog", "-v", "-h"]),
        args(&["prog", "--version", "--help=1", "nonsense"]),
    ] {
        assert!(matches!(resolve(&init(&given).unwrap()).unwrap(), Invocation::Help));
    }
}

#[test]
fn version_goes_second() {
    for given in [args(&["prog", "-v"]), args(&["prog", "--version", "nonsense"])] {
        assert!(matches!(resolve(&init(&given).unwrap()).unwrap(), Invocation::Version));
    }
}

#[test]
fn a_run_needs_an_output_directory_and_a_command() {
    let cli = init(&args(&["prog", "traffic", "a/b"])).unwrap();
    assert_eq!(resolve(&cli).unwrap_err().message(), "Missing --out-dir option.");
    let cli = init(&args(&["prog", "--out-dir=data"])).unwrap();
    assert_eq!(resolve(&cli).unwrap_err().message(), "No command provided.");
    let cli = init(&args(&["prog", "--out-dir=data", "clones", "a/b"])).unwrap();
    assert!(matches!(
        resolve(&cli).unwrap(),
        Invocation::Run { out_dir, command: Command::Clones(id) }
            if out_dir == "data" && id.owner == "a" && id.repo == "b"
    ));
}
