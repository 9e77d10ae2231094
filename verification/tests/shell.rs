use hsh_core::error::FsError;
use hsh_core::fs::get_cwd_impl;
use hsh_core::shell::{
    cd_report, command_and_args, concat_args, dispatch_command, load_startup_path,
    match_expression, pwd_report, split_at_flags, split_words, startup_path_text, tokenize_input,
    BuiltinAction, Report, TokenizedOutput,
};
use nix::errno::Errno;

fn action_for(command: &str, args: Vec<&str>) -> BuiltinAction {
    match_expression(TokenizedOutput { command, args })
}

#[test]
fn echo_prints_its_arguments_without_separator() {
    assert_eq!(
        action_for("echo", vec!["hello", "world", "!"]),
        BuiltinAction::Print(String::from("helloworld!"))
    );
}

#[test]
fn echo_without_arguments_prints_an_empty_line() {
    assert_eq!(action_for("echo", vec![]), BuiltinAction::Print(String::new()));
}

#[test]
fn exit_says_bye_and_leaves_with_zero() {
    assert_eq!(
        action_for("exit", vec![]),
        BuiltinAction::Exit { farewell: String::from("bye"), status: 0 }
    );
    assert_eq!(
        action_for("exit", vec!["3"]),
        BuiltinAction::Exit { farewell: String::from("bye"), status: 0 }
    );
}

#[test]
fn pwd_prints_the_working_directory() {
    assert_eq!(action_for("pwd", vec![]), BuiltinAction::PrintWorkingDir);
    assert_eq!(action_for("pwd", vec!["x", "y"]), BuiltinAction::PrintWorkingDir);
}

#[test]
fn cd_with_one_argument_changes_the_directory() {
    assert_eq!(action_for("cd", vec!["/tmp"]), BuiltinAction::ChangeDir(String::from("/tmp")));
}

#[test]
fn cd_with_another_number_of_arguments_is_misuse() {
    assert_eq!(action_for("cd", vec![]), BuiltinAction::Usage(String::from("Invalid Length")));
    assert_eq!(
        action_for("cd", vec!["a", "b"]),
        BuiltinAction::Usage(String::from("Invalid Length"))
    );
    assert_eq!(
        action_for("cd", vec!["a", "b", "c"]),
        BuiltinAction::Usage(String::from("Invalid Length"))
    );
}

#[test]
fn other_commands_are_run_as_processes() {
    assert_eq!(action_for("ls", vec!["-la"]), BuiltinAction::Spawn);
    assert_eq!(action_for("", vec![]), BuiltinAction::Spawn);
    assert_eq!(action_for("Echo", vec![]), BuiltinAction::Spawn);
    assert_eq!(action_for("echoo", vec![]), BuiltinAction::Spawn);
    assert_eq!(action_for("ech", vec![]), BuiltinAction::Spawn);
    assert_eq!(action_for("No command passed!", vec![]), BuiltinAction::Spawn);
}

#[test]
fn dispatch_command_is_what_match_expression_does() {
    assert_eq!(
        dispatch_command("echo", &vec!["a", "b"]),
        BuiltinAction::Print(String::from("ab"))
    );
    assert_eq!(dispatch_command("grep", &vec!["a"]), BuiltinAction::Spawn);
}

#[test]
fn arguments_are_joined_in_order() {
    assert_eq!(concat_args(&vec![]), "");
    assert_eq!(concat_args(&vec!["a"]), "a");
    assert_eq!(concat_args(&vec!["a", "", "b c", "d"]), "ab cd");
}

#[test]
fn line_is_split_at_whitespace() {
    let line = String::from("  ls   -la\t/tmp \n");
    let out = tokenize_input(&line);
    assert_eq!(out.command, "ls");
    assert_eq!(out.args, vec!["-la", "/tmp"]);
}

#[test]
fn line_of_one_word_has_no_arguments() {
    let line = String::from("pwd");
    let out = tokenize_input(&line);
    assert_eq!(out.command, "pwd");
    assert!(out.args.is_empty());
}

#[test]
fn empty_line_has_the_placeholder_command() {
    let line = String::new();
    let out = tokenize_input(&line);
    assert_eq!(out.command, "No command passed!");
    assert!(out.args.is_empty());
    let blank = String::from(" \t ");
    let out = tokenize_input(&blank);
    assert_eq!(out.command, "No command passed!");
    assert!(out.args.is_empty());
}

#[test]
fn words_become_command_and_arguments() {
    let out = command_and_args(vec!["grep", "-v", "x"]);
    assert_eq!(out.command, "grep");
    assert_eq!(out.args, vec!["-v", "x"]);
    let none = command_and_args(vec![]);
    assert_eq!(none.command, "No command passed!");
    assert!(none.args.is_empty());
}

#[test]
fn pwd_reports_the_directory_or_the_error() {
    assert_eq!(
        pwd_report(Ok(String::from("/home/me"))),
        Report::Stdout(String::from("/home/me"))
    );
    assert_eq!(
        pwd_report(Err(FsError::DisplayCwdError { errno: Errno::EACCES })),
        Report::Stderr(String::from("Failed to fetch current working directory"))
    );
}

#[test]
fn cd_reports_nothing_or_the_error() {
    assert_eq!(cd_report(Ok(())), Report::Silent);
    assert_eq!(
        cd_report(Err(FsError::ChangeCwdError { errno: Errno::ENOENT })),
        Report::Stderr(String::from("Failed to fetch current working directory"))
    );
    assert_eq!(
        cd_report(Err(FsError::Other(String::from("odd")))),
        Report::Stderr(String::from("Filesystem error: odd"))
    );
}

#[test]
fn startup_path_is_the_directory_or_the_message() {
    assert_eq!(startup_path_text(Ok(String::from("/srv"))), "/srv");
    assert_eq!(
        startup_path_text(Err(FsError::DisplayCwdError { errno: Errno::ENOENT })),
        "Failed to fetch current working directory"
    );
}

#[test]
fn startup_path_is_the_working_directory() {
    assert_eq!(load_startup_path(), get_cwd_impl().unwrap());
}

#[test]
fn items_of_the_shell_are_at_the_root_of_the_crate() {
    let tokens = hsh_core::TokenizedOutput { command: "pwd", args: vec![] };
    assert_eq!(hsh_core::match_expression(tokens), BuiltinAction::PrintWorkingDir);
    assert_eq!(hsh_core::load_startup_path(), load_startup_path());
}

#[test]
fn words_are_the_runs_between_whitespace() {
    assert_eq!(split_words("one two"), vec!["one", "two"]);
    assert_eq!(split_words(" \t one\n\ntwo\r\n"), vec!["one", "two"]);
    assert_eq!(split_words("one"), vec!["one"]);
    assert!(split_words("").is_empty());
    assert!(split_words(" \n ").is_empty());
}

#[test]
fn words_are_parted_by_whitespace_of_any_script() {
    assert_eq!(split_words("a\u{a0}b\u{3000}c\u{2003}d"), vec!["a", "b", "c", "d"]);
    assert_eq!(split_words("caf\u{e9} \u{3b1}\u{3b2}"), vec!["caf\u{e9}", "\u{3b1}\u{3b2}"]);
    assert_eq!(split_words("a\u{200b}b"), vec!["a\u{200b}b"]);
}

#[test]
fn words_are_what_the_standard_library_splits() {
    for line in ["", "a", " a  b ", "x\ty\u{85}z", "\u{1680}p q\u{2028}r", "-la /tmp/x|y>z"] {
        let expected: Vec<&str> = line.split_whitespace().collect();
        assert_eq!(split_words(line), expected);
    }
}

#[test]
fn words_go_by_the_flags_given() {
    let flags = vec![false, true, false, false, true, true, false];
    assert_eq!(split_at_flags("a-bc  d", &flags), vec!["a", "bc", "d"]);
    let none = vec![false; 3];
    assert_eq!(split_at_flags("a b", &none), vec!["a b"]);
    let all = vec![true; 3];
    assert!(split_at_flags("abc", &all).is_empty());
}

#[test]
fn words_need_a_flag_for_each_character() {
    assert!(split_at_flags("abc", &vec![false, false]).is_empty());
    assert!(split_at_flags("\u{e9}", &vec![false, false]).is_empty());
    assert_eq!(split_at_flags("\u{e9}", &vec![false]), vec!["\u{e9}"]);
}
