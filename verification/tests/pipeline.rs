use hsh_core::execute::{execute_tokens, Execution};
use hsh_core::parser::{ASTExpr, ParserError};
use hsh_core::pipeline::{parse_pipeline, substitute_variables};
use hsh_core::piping::perform_piping;
use hsh_core::process::{IoRedirection, ProcessToExec, Redirection};
use hsh_core::shell::BuiltinAction;
use hsh_core::tokenizer::{tokenize_input_intermediate, ReservedWord, ShellTokens};
use hsh_core::variables::{is_valid_name, Evaluation, VariableTable};

fn word(text: &str) -> ShellTokens {
    ShellTokens::Word(String::from(text))
}

fn describe<'a>(stage: &'a ProcessToExec<'a>) -> (&'a str, &'a str, Vec<&'a str>, u16, Option<(IoRedirection, &'a str)>) {
    (
        stage.process_name(),
        stage.process_path(),
        stage.process_args().clone(),
        stage.order(),
        stage.redirection().as_ref().map(|r| (r.kind, r.path.as_str())),
    )
}

fn parsed(line: &str) -> Result<Vec<(String, Vec<String>, u16, Option<(IoRedirection, String)>)>, ParserError> {
    let tokens = tokenize_input_intermediate(line);
    parse_pipeline(&tokens).map(|stages| {
        stages
            .iter()
            .map(|stage| {
                let (name, path, args, order, redirection) = describe(stage);
                assert_eq!(name, path);
                (
                    String::from(name),
                    args.iter().map(|a| String::from(*a)).collect(),
                    order,
                    redirection.map(|(kind, path)| (kind, String::from(path))),
                )
            })
            .collect()
    })
}

fn simple(name: &str, args: &[&str], order: u16) -> (String, Vec<String>, u16, Option<(IoRedirection, String)>) {
    (String::from(name), args.iter().map(|a| String::from(*a)).collect(), order, None)
}

fn redirected(
    name: &str,
    args: &[&str],
    order: u16,
    kind: IoRedirection,
    path: &str,
) -> (String, Vec<String>, u16, Option<(IoRedirection, String)>) {
    (
        String::from(name),
        args.iter().map(|a| String::from(*a)).collect(),
        order,
        Some((kind, String::from(path))),
    )
}

#[test]
fn one_command_is_one_stage() {
    assert_eq!(parsed("ls"), Ok(vec![simple("ls", &[], 0)]));
    assert_eq!(parsed("echo hello world"), Ok(vec![simple("echo", &["hello", "world"], 0)]));
}

#[test]
fn pipes_part_the_line_into_stages() {
    assert_eq!(
        parsed("ls a | grep b c | wc"),
        Ok(vec![simple("ls", &["a"], 0), simple("grep", &["b", "c"], 1), simple("wc", &[], 2)])
    );
    assert_eq!(parsed("a|b"), Ok(vec![simple("a", &[], 0), simple("b", &[], 1)]));
}

#[test]
fn whitespace_around_the_line_is_of_no_account() {
    assert_eq!(parsed("  ls   x  "), Ok(vec![simple("ls", &["x"], 0)]));
}

#[test]
fn greater_than_overwrites_the_file() {
    assert_eq!(
        parsed("ls > out"),
        Ok(vec![redirected("ls", &[], 0, IoRedirection::OverwriteToFile, "out")])
    );
    assert_eq!(
        parsed("ls>out"),
        Ok(vec![redirected("ls", &[], 0, IoRedirection::OverwriteToFile, "out")])
    );
}

#[test]
fn twice_greater_than_appends_to_the_file() {
    assert_eq!(
        parsed("ls a >> out"),
        Ok(vec![redirected("ls", &["a"], 0, IoRedirection::AppendToFile, "out")])
    );
    assert_eq!(
        parsed("ls >>out b"),
        Ok(vec![redirected("ls", &["b"], 0, IoRedirection::AppendToFile, "out")])
    );
}

#[test]
fn less_than_reads_the_file() {
    assert_eq!(
        parsed("grep hello < input"),
        Ok(vec![redirected("grep", &["hello"], 0, IoRedirection::InputFromFile, "input")])
    );
}

#[test]
fn any_stage_may_be_redirected() {
    assert_eq!(
        parsed("cat < in | sort | uniq > out"),
        Ok(vec![
            redirected("cat", &[], 0, IoRedirection::InputFromFile, "in"),
            simple("sort", &[], 1),
            redirected("uniq", &[], 2, IoRedirection::OverwriteToFile, "out"),
        ])
    );
}

#[test]
fn redirection_may_come_before_the_program() {
    assert_eq!(
        parsed("> out ls x"),
        Ok(vec![redirected("ls", &["x"], 0, IoRedirection::OverwriteToFile, "out")])
    );
}

#[test]
fn operator_without_file_is_rejected() {
    assert_eq!(parsed("ls >"), Err(ParserError::UnexpectedInput));
    assert_eq!(parsed("ls > | wc"), Err(ParserError::UnexpectedInput));
    assert_eq!(parsed("ls <"), Err(ParserError::UnexpectedInput));
    assert_eq!(parsed("ls > < in"), Err(ParserError::UnexpectedInput));
    assert_eq!(parsed("ls < > out"), Err(ParserError::UnexpectedInput));
    assert_eq!(parsed("ls << in"), Err(ParserError::UnexpectedInput));
}

#[test]
fn parted_or_tripled_operator_is_rejected() {
    assert_eq!(parsed("ls > > out"), Err(ParserError::UnexpectedInput));
    assert_eq!(parsed("ls >>> out"), Err(ParserError::UnexpectedInput));
    assert_eq!(parsed("ls >> > out"), Err(ParserError::UnexpectedInput));
}

#[test]
fn second_redirection_is_rejected() {
    assert_eq!(parsed("ls > a > b"), Err(ParserError::UnexpectedInput));
    assert_eq!(parsed("ls < a > b"), Err(ParserError::UnexpectedInput));
    assert_eq!(parsed("ls > a >> b"), Err(ParserError::UnexpectedInput));
}

#[test]
fn empty_segment_is_rejected() {
    assert_eq!(parsed("ls | | wc"), Err(ParserError::UnexpectedInput));
    assert_eq!(parsed("ls || wc"), Err(ParserError::UnexpectedInput));
    assert_eq!(parsed("| wc"), Err(ParserError::UnexpectedInput));
    assert_eq!(parsed("ls |"), Err(ParserError::UnexpectedInput));
    assert_eq!(parsed("ls | "), Err(ParserError::UnexpectedInput));
    assert_eq!(parsed("> out | wc"), Err(ParserError::UnexpectedInput));
}

#[test]
fn empty_line_is_rejected() {
    assert_eq!(parsed(""), Err(ParserError::UnexpectedInput));
    assert_eq!(parsed("   "), Err(ParserError::UnexpectedInput));
}

#[test]
fn other_tokens_are_rejected() {
    assert_eq!(parsed("echo (a)"), Err(ParserError::UnexpectedInput));
    assert_eq!(parsed("echo 'a'"), Err(ParserError::UnexpectedInput));
    assert_eq!(parsed("echo \"a\""), Err(ParserError::UnexpectedInput));
    assert_eq!(parsed("a=b"), Err(ParserError::UnexpectedInput));
    assert_eq!(parsed("ls # all"), Err(ParserError::UnexpectedInput));
    assert_eq!(parsed("echo $x"), Err(ParserError::UnexpectedInput));
    let tokens = vec![word("a"), ShellTokens::Escape];
    assert!(parse_pipeline(&tokens).is_err());
    let tokens = vec![word("a"), ShellTokens::ReservedWord(ReservedWord::If)];
    assert!(parse_pipeline(&tokens).is_err());
}

#[test]
fn empty_word_is_rejected() {
    let tokens = vec![word("")];
    assert!(parse_pipeline(&tokens).is_err());
    let tokens = vec![word("ls"), ShellTokens::Whitespace, word("")];
    assert!(parse_pipeline(&tokens).is_err());
}

#[test]
fn what_parses_can_be_run() {
    let tokens = tokenize_input_intermediate("cat < in | sort | uniq >> out");
    let stages = parse_pipeline(&tokens).unwrap();
    let piping = perform_piping(stages).unwrap();
    assert_eq!(piping.stage_count(), 3);
}

#[test]
fn line_with_a_builtin_is_run_by_the_shell() {
    let tokens = tokenize_input_intermediate("pwd");
    match execute_tokens(&tokens) {
        Ok(Execution::Builtin(action)) => assert_eq!(action, BuiltinAction::PrintWorkingDir),
        _ => panic!("pwd was not run by the shell"),
    }
    let tokens = tokenize_input_intermediate("cd a b");
    match execute_tokens(&tokens) {
        Ok(Execution::Builtin(action)) => {
            assert_eq!(action, BuiltinAction::Usage(String::from("Invalid Length")))
        }
        _ => panic!("cd was not run by the shell"),
    }
    let tokens = tokenize_input_intermediate("echo a b");
    match execute_tokens(&tokens) {
        Ok(Execution::Builtin(action)) => assert_eq!(action, BuiltinAction::Print(String::from("ab"))),
        _ => panic!("echo was not run by the shell"),
    }
}

#[test]
fn line_with_other_commands_is_run_as_processes() {
    let tokens = tokenize_input_intermediate("ls | wc");
    match execute_tokens(&tokens) {
        Ok(Execution::Processes(piping)) => assert_eq!(piping.stage_count(), 2),
        _ => panic!("the line was not handed to the machine"),
    }
    let tokens = tokenize_input_intermediate("pwd | wc");
    assert!(matches!(execute_tokens(&tokens), Ok(Execution::Processes(_))));
}

#[test]
fn malformed_line_is_not_run() {
    let tokens = tokenize_input_intermediate("ls | | wc");
    assert!(matches!(execute_tokens(&tokens), Err(ParserError::UnexpectedInput)));
}

#[test]
fn table_binds_and_looks_up() {
    let mut table = VariableTable::new();
    assert_eq!(table.lookup("a"), None);
    assert!(table.define("a", "1"));
    assert!(table.define("b_2", "two words"));
    assert_eq!(table.lookup("a"), Some(String::from("1")));
    assert_eq!(table.lookup("b_2"), Some(String::from("two words")));
    assert_eq!(table.lookup("c"), None);
    assert_eq!(table.lookup(""), None);
}

#[test]
fn later_binding_replaces_the_earlier() {
    let mut table = VariableTable::new();
    assert!(table.define("a", "1"));
    assert!(table.define("b", "x"));
    assert!(table.define("a", "2"));
    assert_eq!(table.lookup("a"), Some(String::from("2")));
    assert_eq!(table.lookup("b"), Some(String::from("x")));
}

#[test]
fn only_names_are_bound() {
    let mut table = VariableTable::new();
    assert!(!table.define("", "1"));
    assert!(!table.define("a b", "1"));
    assert!(!table.define("a=b", "1"));
    assert!(!table.define("\u{e9}", "1"));
    assert_eq!(table.lookup("a b"), None);
    assert!(is_valid_name("A_z09"));
    assert!(!is_valid_name("a-b"));
    assert!(!is_valid_name(""));
}

#[test]
fn evaluation_of_assignments_and_references() {
    let mut table = VariableTable::new();
    assert_eq!(table.evaluate(&ASTExpr::SubstituteVar("x")), Evaluation::Unbound);
    assert_eq!(table.evaluate(&ASTExpr::DefineVar("x", "/bin/ls")), Evaluation::Defined);
    assert_eq!(
        table.evaluate(&ASTExpr::SubstituteVar("x")),
        Evaluation::Expanded(String::from("/bin/ls"))
    );
    assert_eq!(table.evaluate(&ASTExpr::DefineVar("no good", "1")), Evaluation::Rejected);
    assert_eq!(table.evaluate(&ASTExpr::SubstituteVar("no good")), Evaluation::Unbound);
}

#[test]
fn references_give_way_to_values() {
    let mut table = VariableTable::new();
    table.define("cmd", "/bin/ls");
    table.define("dir", "/tmp");
    let tokens = tokenize_input_intermediate("$cmd $dir | wc");
    let resolved = substitute_variables(tokens, &table).unwrap();
    assert_eq!(
        resolved,
        vec![
            word("/bin/ls"),
            ShellTokens::Whitespace,
            word("/tmp"),
            ShellTokens::Whitespace,
            ShellTokens::Pipe,
            ShellTokens::Whitespace,
            word("wc"),
        ]
    );
    let stages = parse_pipeline(&resolved).unwrap();
    assert_eq!(stages[0].process_path(), "/bin/ls");
    assert_eq!(stages[0].process_args(), &vec!["/tmp"]);
}

#[test]
fn line_without_references_stays_as_it_is() {
    let table = VariableTable::new();
    let tokens = tokenize_input_intermediate("a=(b) 'c' \"d\" # < > |");
    let same = tokenize_input_intermediate("a=(b) 'c' \"d\" # < > |");
    assert_eq!(substitute_variables(tokens, &table), Ok(same));
    let odd = vec![ShellTokens::Escape, ShellTokens::ReservedWord(ReservedWord::While)];
    assert_eq!(
        substitute_variables(odd, &table),
        Ok(vec![ShellTokens::Escape, ShellTokens::ReservedWord(ReservedWord::While)])
    );
}

#[test]
fn reference_to_an_unbound_variable_is_rejected() {
    let mut table = VariableTable::new();
    table.define("a", "1");
    let tokens = tokenize_input_intermediate("echo $a $b $a");
    assert_eq!(substitute_variables(tokens, &table), Err(ParserError::UnexpectedInput));
}

#[test]
fn redirection_is_kept_by_the_stage() {
    let tokens = tokenize_input_intermediate("sort < in");
    let stages = parse_pipeline(&tokens).unwrap();
    assert_eq!(
        stages[0].redirection(),
        &Some(Redirection { kind: IoRedirection::InputFromFile, path: String::from("in") })
    );
}
