use hsh_core::chars::{classify_chars, classify_whitespace, collect_chars, same_text};
use hsh_core::tokenizer::{
    handle_comment_line, handle_unreserved_chars, handle_variable, tokenize_cursor,
    tokenize_input_intermediate, tokenize_with_diagnostics, CharCursor, LexError, LexErrorKind,
    ShellTokens,
};

fn word(text: &str) -> ShellTokens {
    ShellTokens::Word(String::from(text))
}

fn variable(text: &str) -> ShellTokens {
    ShellTokens::Variable(String::from(text))
}

#[test]
fn test_basic_tokenization() {
    let tokens = tokenize_input_intermediate("echo hello $abc (d) | grep a");
    assert_eq!(
        tokens,
        vec![
            ShellTokens::Word("echo".into()),
            ShellTokens::Whitespace,
            ShellTokens::Word("hello".into()),
            ShellTokens::Whitespace,
            ShellTokens::Variable(String::from("abc")),
            ShellTokens::Whitespace,
            ShellTokens::ParenthesesOpen,
            ShellTokens::Word(String::from("d")),
            ShellTokens::ParenthesesClose,
            ShellTokens::Whitespace,
            ShellTokens::Pipe,
            ShellTokens::Whitespace,
            ShellTokens::Word(String::from("grep")),
            ShellTokens::Whitespace,
            ShellTokens::Word(String::from("a")),
        ]
    );
}

#[test]
fn empty_line_has_no_tokens() {
    let (tokens, errors) = tokenize_with_diagnostics("");
    assert_eq!(tokens, vec![]);
    assert_eq!(errors, vec![]);
}

#[test]
fn every_single_character_token() {
    let tokens = tokenize_input_intermediate("=|>< '\"()");
    assert_eq!(
        tokens,
        vec![
            ShellTokens::Assignment,
            ShellTokens::Pipe,
            ShellTokens::RedirectAsOutput,
            ShellTokens::RedirectAsInput,
            ShellTokens::Whitespace,
            ShellTokens::SingleQuotes,
            ShellTokens::DoubleQuotes,
            ShellTokens::ParenthesesOpen,
            ShellTokens::ParenthesesClose,
        ]
    );
}

#[test]
fn whitespace_is_not_collapsed() {
    let tokens = tokenize_input_intermediate("a  b");
    assert_eq!(
        tokens,
        vec![word("a"), ShellTokens::Whitespace, ShellTokens::Whitespace, word("b")]
    );
}

#[test]
fn comment_is_empty_and_the_scan_goes_on() {
    let (tokens, errors) = tokenize_with_diagnostics("ls #all");
    assert_eq!(
        tokens,
        vec![
            word("ls"),
            ShellTokens::Whitespace,
            ShellTokens::Comment(String::new()),
            word("all"),
        ]
    );
    assert_eq!(errors, vec![]);
}

#[test]
fn a_line_of_comment_signs_ends() {
    let tokens = tokenize_input_intermediate("###");
    assert_eq!(
        tokens,
        vec![
            ShellTokens::Comment(String::new()),
            ShellTokens::Comment(String::new()),
            ShellTokens::Comment(String::new()),
        ]
    );
}

#[test]
fn unknown_character_is_reported_and_skipped() {
    let (tokens, errors) = tokenize_with_diagnostics("ls -la");
    assert_eq!(tokens, vec![word("ls"), ShellTokens::Whitespace, word("la")]);
    assert_eq!(
        errors,
        vec![LexError { position: 3, character: '-', kind: LexErrorKind::Unrecognized }]
    );
}

#[test]
fn backslash_makes_no_token() {
    let (tokens, errors) = tokenize_with_diagnostics("a\\b");
    assert_eq!(tokens, vec![word("a"), word("b")]);
    assert_eq!(
        errors,
        vec![LexError { position: 1, character: '\\', kind: LexErrorKind::Unrecognized }]
    );
}

#[test]
fn underscore_outside_a_variable_is_no_word_character() {
    let (tokens, errors) = tokenize_with_diagnostics("a_b");
    assert_eq!(tokens, vec![word("a"), word("b")]);
    assert_eq!(
        errors,
        vec![LexError { position: 1, character: '_', kind: LexErrorKind::Unrecognized }]
    );
}

#[test]
fn variable_name_takes_underscores() {
    let (tokens, errors) = tokenize_with_diagnostics("$my_var1 x");
    assert_eq!(tokens, vec![variable("my_var1"), ShellTokens::Whitespace, word("x")]);
    assert_eq!(errors, vec![]);
}

#[test]
fn variable_at_the_end_of_the_line() {
    let (tokens, errors) = tokenize_with_diagnostics("echo $home");
    assert_eq!(tokens, vec![word("echo"), ShellTokens::Whitespace, variable("home")]);
    assert_eq!(errors, vec![]);
}

#[test]
fn variable_stops_at_an_invalid_character() {
    let (tokens, errors) = tokenize_with_diagnostics("$ab-cd e");
    assert_eq!(
        tokens,
        vec![variable("ab"), word("cd"), ShellTokens::Whitespace, word("e")]
    );
    assert_eq!(
        errors,
        vec![LexError { position: 3, character: '-', kind: LexErrorKind::InvalidInVariable }]
    );
}

#[test]
fn lone_sigil_is_an_empty_variable() {
    let (tokens, errors) = tokenize_with_diagnostics("$ a");
    assert_eq!(tokens, vec![variable(""), ShellTokens::Whitespace, word("a")]);
    assert_eq!(errors, vec![]);
}

#[test]
fn words_take_letters_and_digits_of_any_script() {
    let (tokens, errors) = tokenize_with_diagnostics("caf\u{e9}7 \u{3b1}\u{3b2}");
    assert_eq!(
        tokens,
        vec![word("caf\u{e9}7"), ShellTokens::Whitespace, word("\u{3b1}\u{3b2}")]
    );
    assert_eq!(errors, vec![]);
}

#[test]
fn positions_count_characters_not_bytes() {
    let (_, errors) = tokenize_with_diagnostics("\u{e9}\u{e9}-");
    assert_eq!(
        errors,
        vec![LexError { position: 2, character: '-', kind: LexErrorKind::Unrecognized }]
    );
}

#[test]
fn tab_is_no_token() {
    let (tokens, errors) = tokenize_with_diagnostics("a\tb");
    assert_eq!(tokens, vec![word("a"), word("b")]);
    assert_eq!(
        errors,
        vec![LexError { position: 1, character: '\t', kind: LexErrorKind::Unrecognized }]
    );
}

#[test]
fn diagnostics_come_in_line_order() {
    let (_, errors) = tokenize_with_diagnostics("-$a+ .");
    assert_eq!(
        errors,
        vec![
            LexError { position: 0, character: '-', kind: LexErrorKind::Unrecognized },
            LexError { position: 3, character: '+', kind: LexErrorKind::InvalidInVariable },
            LexError { position: 5, character: '.', kind: LexErrorKind::Unrecognized },
        ]
    );
}

#[test]
fn cursor_over_a_line() {
    let mut cursor = CharCursor::new("ab c");
    assert_eq!(cursor.position(), 0);
    assert_eq!(cursor.peek(), Some('a'));
    let text = handle_unreserved_chars(&mut cursor);
    assert_eq!(text, "ab");
    assert_eq!(cursor.position(), 2);
    assert_eq!(cursor.peek(), Some(' '));
    let nothing = handle_unreserved_chars(&mut cursor);
    assert_eq!(nothing, "");
    assert_eq!(cursor.position(), 2);
    cursor.advance();
    cursor.advance();
    assert_eq!(cursor.peek(), None);
    cursor.advance();
    assert_eq!(cursor.position(), 4);
    assert!(cursor.diagnostics().is_empty());
}

#[test]
fn cursor_from_parts_wants_a_flag_for_each_character() {
    assert!(CharCursor::from_parts(vec!['a', 'b'], vec![true]).is_none());
    assert!(CharCursor::from_parts(vec![], vec![]).is_some());
}

#[test]
fn cursor_from_parts_goes_by_the_flags_given() {
    let mut cursor =
        CharCursor::from_parts(vec!['a', '-', 'b', ' ', 'c'], vec![true, true, true, false, false])
            .unwrap();
    let tokens = tokenize_cursor(&mut cursor);
    assert_eq!(tokens, vec![word("a-b"), ShellTokens::Whitespace]);
    assert_eq!(
        cursor.diagnostics(),
        &vec![LexError { position: 4, character: 'c', kind: LexErrorKind::Unrecognized }]
    );
    assert_eq!(cursor.position(), 5);
}

#[test]
fn special_characters_come_before_the_word_flag() {
    let mut cursor = CharCursor::from_parts(vec!['|', '('], vec![true, true]).unwrap();
    let tokens = tokenize_cursor(&mut cursor);
    assert_eq!(tokens, vec![ShellTokens::Pipe, word("(")]);
}

#[test]
fn handle_variable_reads_the_name_behind_the_sigil() {
    let mut cursor = CharCursor::new("$name rest");
    cursor.advance();
    let name = handle_variable(&mut cursor);
    assert_eq!(name, "name");
    assert_eq!(cursor.position(), 5);
    assert!(cursor.diagnostics().is_empty());
}

#[test]
fn handle_variable_reports_what_ends_the_name() {
    let mut cursor = CharCursor::new("$n|x");
    cursor.advance();
    let name = handle_variable(&mut cursor);
    assert_eq!(name, "n");
    assert_eq!(cursor.position(), 3);
    assert_eq!(
        cursor.diagnostics(),
        &vec![LexError { position: 2, character: '|', kind: LexErrorKind::InvalidInVariable }]
    );
}

#[test]
fn handle_comment_line_reads_nothing() {
    let mut cursor = CharCursor::new("#text");
    let text = handle_comment_line(&mut cursor);
    assert_eq!(text, "");
    assert_eq!(cursor.position(), 0);
}

#[test]
fn tokenize_cursor_starts_where_the_cursor_stands() {
    let mut cursor = CharCursor::new("ab cd");
    cursor.advance();
    cursor.advance();
    let tokens = tokenize_cursor(&mut cursor);
    assert_eq!(tokens, vec![ShellTokens::Whitespace, word("cd")]);
    assert_eq!(cursor.peek(), None);
}

#[test]
fn characters_of_a_text() {
    assert_eq!(collect_chars("a\u{e9}$"), vec!['a', '\u{e9}', '$']);
    assert!(collect_chars("").is_empty());
}

#[test]
fn alphanumeric_characters_are_flagged() {
    let chars = vec!['a', 'Z', '7', '\u{e9}', '\u{663}', '_', '-', ' ', '$', '\u{a0}'];
    assert_eq!(
        classify_chars(&chars),
        vec![true, true, true, true, true, false, false, false, false, false]
    );
}

#[test]
fn whitespace_characters_are_flagged() {
    let chars = vec![' ', '\t', '\n', '\u{a0}', '\u{3000}', 'a', '_', '\u{200b}'];
    assert_eq!(
        classify_whitespace(&chars),
        vec![true, true, true, true, true, false, false, false]
    );
}

#[test]
fn texts_are_compared_character_by_character() {
    assert!(same_text("", ""));
    assert!(same_text("abc", "abc"));
    assert!(same_text("\u{e9}t\u{e9}", "\u{e9}t\u{e9}"));
    assert!(!same_text("abc", "abd"));
    assert!(!same_text("abc", "ab"));
    assert!(!same_text("", "a"));
    assert!(!same_text("e\u{301}", "\u{e9}"));
}

#[test]
fn redirection_tokens_are_named_by_their_direction() {
    assert_eq!(tokenize_input_intermediate("<"), vec![ShellTokens::RedirectAsInput]);
    assert_eq!(tokenize_input_intermediate(">"), vec![ShellTokens::RedirectAsOutput]);
    assert_eq!(
        tokenize_input_intermediate(">>"),
        vec![ShellTokens::RedirectAsOutput, ShellTokens::RedirectAsOutput]
    );
}

#[test]
fn handle_variable_steps_over_the_sigil() {
    let mut cursor = CharCursor::new("$a|b");
    let name = handle_variable(&mut cursor);
    assert_eq!(name, "a");
    assert_eq!(cursor.position(), 3);
    assert_eq!(
        cursor.diagnostics(),
        &vec![LexError { position: 2, character: '|', kind: LexErrorKind::InvalidInVariable }]
    );
}

#[test]
fn handle_variable_on_the_sigil_reports_nothing_for_it() {
    let mut cursor = CharCursor::new("$name rest");
    let name = handle_variable(&mut cursor);
    assert_eq!(name, "name");
    assert_eq!(cursor.position(), 5);
    assert!(cursor.diagnostics().is_empty());
    let mut lone = CharCursor::new("$");
    assert_eq!(handle_variable(&mut lone), "");
    assert_eq!(lone.position(), 1);
    assert!(lone.diagnostics().is_empty());
}

#[test]
fn handle_variable_steps_over_one_sigil_only() {
    let mut cursor = CharCursor::new("$$a");
    let name = handle_variable(&mut cursor);
    assert_eq!(name, "");
    assert_eq!(cursor.position(), 2);
    assert_eq!(
        cursor.diagnostics(),
        &vec![LexError { position: 1, character: '$', kind: LexErrorKind::InvalidInVariable }]
    );
}

#[test]
fn handle_variable_away_from_a_sigil_reads_the_name_at_the_cursor() {
    let mut cursor = CharCursor::new("ab_c d");
    let name = handle_variable(&mut cursor);
    assert_eq!(name, "ab_c");
    assert_eq!(cursor.position(), 4);
    let mut end = CharCursor::new("x");
    end.advance();
    assert_eq!(handle_variable(&mut end), "");
    assert_eq!(end.position(), 1);
}
