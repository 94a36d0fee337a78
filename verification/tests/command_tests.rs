use shell_core::commands::{
    builtin_message, cd_error_message, classify, not_found_message, str_eq, Action,
    Classification, Command, CommandType, ResolveError,
};
use shell_core::numbers::parse_i32;

fn tokens(parts: &[&str]) -> Vec<String> {
    parts.iter().map(|s| s.to_string()).collect()
}

fn resolve(parts: &[&str]) -> Command {
    Command::resolve(&tokens(parts)).unwrap()
}

#[test]
fn parse_i32_accepts_plain_and_signed_numbers() {
    assert_eq!(parse_i32("123"), Some(123));
    assert_eq!(parse_i32("-45"), Some(-45));
    assert_eq!(parse_i32("+7"), Some(7));
    assert_eq!(parse_i32("0"), Some(0));
}

#[test]
fn parse_i32_handles_the_32_bit_limits() {
    assert_eq!(parse_i32("2147483647"), Some(i32::MAX));
    assert_eq!(parse_i32("-2147483648"), Some(i32::MIN));
    assert_eq!(parse_i32("2147483648"), None);
    assert_eq!(parse_i32("-2147483649"), None);
    assert_eq!(parse_i32("99999999999999999999"), None);
}

#[test]
fn parse_i32_rejects_malformed_input() {
    assert_eq!(parse_i32(""), None);
    assert_eq!(parse_i32("-"), None);
    assert_eq!(parse_i32("+"), None);
    assert_eq!(parse_i32("abc"), None);
    assert_eq!(parse_i32("12a"), None);
    assert_eq!(parse_i32(" 12"), None);
}

#[test]
fn resolving_no_tokens_is_the_empty_command_error() {
    assert_eq!(
        Command::resolve(&Vec::new()).unwrap_err(),
        ResolveError::EmptyCommand
    );
}

#[test]
fn exit_with_number_carries_that_status() {
    let cmd = resolve(&["exit", "42"]);
    assert_eq!(cmd.name, "exit");
    assert_eq!(cmd.typ, Classification::Builtin);
    assert!(matches!(cmd.command_type, CommandType::Exit(42)));
}

#[test]
fn exit_with_negative_number_carries_that_status() {
    let cmd = resolve(&["exit", "-3"]);
    assert!(matches!(cmd.command_type, CommandType::Exit(-3)));
    match cmd.dispatch(None, None) {
        Action::Terminate(code) => assert_eq!(code, -3),
        _ => panic!("exit must terminate"),
    }
}

#[test]
fn exit_with_malformed_argument_defaults_to_zero() {
    let cmd = resolve(&["exit", "abc"]);
    assert!(matches!(cmd.command_type, CommandType::Exit(0)));
    let cmd = resolve(&["exit"]);
    assert!(matches!(cmd.command_type, CommandType::Exit(0)));
}

#[test]
fn echo_joins_arguments_with_single_spaces() {
    let cmd = resolve(&["echo", "hello", "world"]);
    assert_eq!(cmd.typ, Classification::Builtin);
    match &cmd.command_type {
        CommandType::Echo { value } => assert_eq!(value, "hello world"),
        _ => panic!("echo must resolve to Echo"),
    }
    match cmd.dispatch(None, None) {
        Action::PrintLine(text) => assert_eq!(text, "hello world"),
        _ => panic!("echo must print"),
    }
}

#[test]
fn pwd_resolves_to_the_working_directory_query() {
    let cmd = resolve(&["pwd"]);
    assert!(matches!(cmd.command_type, CommandType::Pwd));
    assert!(matches!(cmd.dispatch(None, None), Action::PrintWorkingDir));
}

#[test]
fn type_of_a_builtin_reports_a_shell_builtin() {
    let cmd = resolve(&["type", "exit"]);
    assert_eq!(cmd.typ, Classification::Builtin);
    match cmd.dispatch(None, None) {
        Action::PrintLine(text) => assert_eq!(text, "exit is a shell builtin"),
        _ => panic!("type must print"),
    }
}

#[test]
fn type_of_an_unknown_name_reports_not_found() {
    let cmd = resolve(&["type", "nonexistent_cmd_xyz"]);
    match cmd.dispatch(None, None) {
        Action::PrintLine(text) => assert_eq!(text, "nonexistent_cmd_xyz: not found"),
        _ => panic!("type must print"),
    }
}

#[test]
fn type_of_a_found_external_reports_its_path() {
    let cmd = resolve(&["type", "foo"]);
    let found = String::from("/b/foo");
    match cmd.dispatch(None, Some(&found)) {
        Action::PrintLine(text) => assert_eq!(text, "foo is /b/foo"),
        _ => panic!("type must print"),
    }
}

#[test]
fn type_without_an_argument_is_the_empty_command_error() {
    assert_eq!(
        Command::resolve(&tokens(&["type"])).unwrap_err(),
        ResolveError::EmptyCommand
    );
}

#[test]
fn type_nests_recursively() {
    let cmd = resolve(&["type", "type", "echo"]);
    match cmd.dispatch(None, None) {
        Action::PrintLine(text) => assert_eq!(text, "type is a shell builtin"),
        _ => panic!("type must print"),
    }
}

#[test]
fn cd_dispatches_a_directory_change() {
    let cmd = resolve(&["cd", "/nonexistent/path"]);
    match cmd.dispatch(None, None) {
        Action::ChangeDir(path) => assert_eq!(path, "/nonexistent/path"),
        _ => panic!("cd must change directory"),
    }
}

#[test]
fn cd_failure_diagnostic_names_the_path() {
    assert_eq!(
        cd_error_message("/nonexistent/path"),
        "cd: /nonexistent/path: No such file or directory"
    );
}

#[test]
fn cd_tilde_goes_to_the_home_directory() {
    let cmd = resolve(&["cd", "~"]);
    let home = String::from("/home/user");
    match cmd.dispatch(Some(&home), None) {
        Action::ChangeDir(path) => assert_eq!(path, "/home/user"),
        _ => panic!("cd must change directory"),
    }
}

#[test]
fn cd_tilde_prefix_is_substituted() {
    let cmd = resolve(&["cd", "~/src"]);
    let home = String::from("/home/user");
    match cmd.dispatch(Some(&home), None) {
        Action::ChangeDir(path) => assert_eq!(path, "/home/user/src"),
        _ => panic!("cd must change directory"),
    }
}

#[test]
fn cd_tilde_without_home_stays_literal() {
    let cmd = resolve(&["cd", "~"]);
    match cmd.dispatch(None, None) {
        Action::ChangeDir(path) => assert_eq!(path, "~"),
        _ => panic!("cd must change directory"),
    }
}

#[test]
fn unknown_name_resolves_to_an_external_command() {
    let cmd = resolve(&["custom_exe", "a", "b"]);
    assert_eq!(cmd.typ, Classification::Unknown);
    match &cmd.command_type {
        CommandType::Other { name, parameters } => {
            assert_eq!(name, "custom_exe");
            assert_eq!(parameters, &tokens(&["a", "b"]));
        }
        _ => panic!("unknown names must resolve to external commands"),
    }
}

#[test]
fn found_external_runs_with_joined_arguments() {
    let cmd = resolve(&["custom_exe", "a", "b"]);
    let found = String::from("/b/custom_exe");
    match cmd.dispatch(None, Some(&found)) {
        Action::RunProgram { path, arg } => {
            assert_eq!(path, "/b/custom_exe");
            assert_eq!(arg, "a b");
        }
        _ => panic!("a found external must run"),
    }
}

#[test]
fn missing_external_reports_not_found() {
    let cmd = resolve(&["custom_exe"]);
    match cmd.dispatch(None, None) {
        Action::PrintLine(text) => assert_eq!(text, "custom_exe: not found"),
        _ => panic!("a missing external must print"),
    }
}

#[test]
fn lookup_name_asks_only_for_external_targets() {
    assert_eq!(resolve(&["echo", "x"]).lookup_name(), None);
    assert_eq!(resolve(&["type", "pwd"]).lookup_name(), None);
    assert_eq!(
        resolve(&["type", "foo"]).lookup_name().map(String::as_str),
        Some("foo")
    );
    assert_eq!(
        resolve(&["foo", "x"]).lookup_name().map(String::as_str),
        Some("foo")
    );
}

#[test]
fn resolve_line_runs_the_tokenizer_first() {
    let cmd = Command::resolve_line("echo 'a b' c").unwrap();
    match &cmd.command_type {
        CommandType::Echo { value } => assert_eq!(value, "a b c"),
        _ => panic!("echo must resolve to Echo"),
    }
}

#[test]
fn resolve_line_rejects_blank_lines() {
    assert_eq!(
        Command::resolve_line("").unwrap_err(),
        ResolveError::EmptyCommand
    );
    assert_eq!(
        Command::resolve_line("   ").unwrap_err(),
        ResolveError::EmptyCommand
    );
}

#[test]
fn resolve_line_exit_terminates_with_its_status() {
    let cmd = Command::resolve_line("exit 5").unwrap();
    match cmd.dispatch(None, None) {
        Action::Terminate(code) => assert_eq!(code, 5),
        _ => panic!("exit must terminate"),
    }
}

#[test]
fn classify_knows_the_builtin_set() {
    for name in ["exit", "echo", "pwd", "cd", "type"] {
        assert_eq!(classify(name), Classification::Builtin);
    }
    assert_eq!(classify("ls"), Classification::Unknown);
    assert_eq!(classify(""), Classification::Unknown);
}

#[test]
fn str_eq_compares_by_characters() {
    assert!(str_eq("abc", "abc"));
    assert!(!str_eq("abc", "abd"));
    assert!(!str_eq("abc", "ab"));
    assert!(str_eq("", ""));
}

#[test]
fn messages_have_the_documented_shapes() {
    assert_eq!(builtin_message("cd"), "cd is a shell builtin");
    assert_eq!(not_found_message("zz"), "zz: not found");
}
