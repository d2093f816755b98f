use ratlog::cli::{parse_args, CliAction};

fn args(items: &[&str]) -> Vec<String> {
    items.iter().map(|s| s.to_string()).collect()
}

#[test]
fn no_arguments_run_the_sample() {
    assert!(matches!(parse_args(&args(&["ratlog"])), CliAction::Run(None)));
    assert!(matches!(parse_args(&args(&[])), CliAction::Run(None)));
}

#[test]
fn a_path_runs_that_file() {
    match parse_args(&args(&["ratlog", "/var/log/app.log"])) {
        CliAction::Run(Some(path)) => assert_eq!(path, "/var/log/app.log"),
        other => panic!("unexpected {:?}", other),
    }
}

#[test]
fn the_first_positional_argument_decides() {
    match parse_args(&args(&["ratlog", "-x", "--flag", "one.log", "two.log"])) {
        CliAction::Run(Some(path)) => assert_eq!(path, "one.log"),
        other => panic!("unexpected {:?}", other),
    }
    assert!(matches!(parse_args(&args(&["ratlog", "-x", "login", "file"])), CliAction::Login));
    match parse_args(&args(&["ratlog", "file", "login"])) {
        CliAction::Run(Some(path)) => assert_eq!(path, "file"),
        other => panic!("unexpected {:?}", other),
    }
}

#[test]
fn login_is_a_command() {
    assert!(matches!(parse_args(&args(&["ratlog", "login"])), CliAction::Login));
    match parse_args(&args(&["ratlog", "Login"])) {
        CliAction::Run(Some(path)) => assert_eq!(path, "Login"),
        other => panic!("unexpected {:?}", other),
    }
}

#[test]
fn help_wins_over_everything() {
    assert!(matches!(parse_args(&args(&["ratlog", "-h"])), CliAction::Help));
    assert!(matches!(parse_args(&args(&["ratlog", "--help"])), CliAction::Help));
    assert!(matches!(parse_args(&args(&["ratlog", "file", "-V", "--help"])), CliAction::Help));
    assert!(matches!(parse_args(&args(&["ratlog", "login", "-h"])), CliAction::Help));
}

#[test]
fn version_wins_over_commands() {
    assert!(matches!(parse_args(&args(&["ratlog", "-V"])), CliAction::Version));
    assert!(matches!(parse_args(&args(&["ratlog", "--version"])), CliAction::Version));
    assert!(matches!(parse_args(&args(&["ratlog", "login", "--version"])), CliAction::Version));
}

#[test]
fn the_program_name_is_no_argument() {
    assert!(matches!(parse_args(&args(&["-h"])), CliAction::Run(None)));
    assert!(matches!(parse_args(&args(&["--version"])), CliAction::Run(None)));
    assert!(matches!(parse_args(&args(&["login"])), CliAction::Run(None)));
}

#[test]
fn flags_must_match_exactly() {
    assert!(matches!(parse_args(&args(&["ratlog", "-H"])), CliAction::Run(None)));
    assert!(matches!(parse_args(&args(&["ratlog", "-v"])), CliAction::Run(None)));
    assert!(matches!(parse_args(&args(&["ratlog", "--helpme"])), CliAction::Run(None)));
    match parse_args(&args(&["ratlog", "", "x"])) {
        CliAction::Run(Some(path)) => assert_eq!(path, ""),
        other => panic!("unexpected {:?}", other),
    }
}
