use hsh_core::parser::{
    class_accepts, classify_line, line_starts_as_assignment, parse_dollar, ASTExpr, CharClass,
    LineKind, ParserError,
};

#[test]
fn assignment_defines_a_variable() {
    assert_eq!(parse_dollar("abc=def"), Ok(("", ASTExpr::DefineVar("abc", "def"))));
}

#[test]
fn assignment_leaves_what_follows_the_value() {
    assert_eq!(
        parse_dollar("path_1=/usr/bin:/bin next"),
        Ok((" next", ASTExpr::DefineVar("path_1", "/usr/bin:/bin")))
    );
}

#[test]
fn value_may_hold_equal_signs() {
    assert_eq!(parse_dollar("a=b=c\td"), Ok(("\td", ASTExpr::DefineVar("a", "b=c"))));
}

#[test]
fn value_may_hold_characters_of_any_script() {
    assert_eq!(
        parse_dollar("x=\u{e9}t\u{e9} y"),
        Ok((" y", ASTExpr::DefineVar("x", "\u{e9}t\u{e9}")))
    );
}

#[test]
fn name_before_a_space_is_a_reference() {
    assert_eq!(parse_dollar("abc def"), Ok((" def", ASTExpr::SubstituteVar("abc"))));
}

#[test]
fn name_before_other_whitespace_is_a_reference() {
    assert_eq!(parse_dollar("abc\tdef"), Ok(("\tdef", ASTExpr::SubstituteVar("abc"))));
    assert_eq!(parse_dollar("abc\n"), Ok(("\n", ASTExpr::SubstituteVar("abc"))));
    assert_eq!(parse_dollar("abc\r\n"), Ok(("\r\n", ASTExpr::SubstituteVar("abc"))));
    assert_eq!(parse_dollar("abc\x0Cx"), Ok(("\x0Cx", ASTExpr::SubstituteVar("abc"))));
}

#[test]
fn name_takes_digits_and_underscores() {
    assert_eq!(parse_dollar("_9a_Z x"), Ok((" x", ASTExpr::SubstituteVar("_9a_Z"))));
}

#[test]
fn other_follower_is_rejected() {
    assert_eq!(parse_dollar("abc-def"), Err(ParserError::UnexpectedInput));
    assert_eq!(parse_dollar("abc|"), Err(ParserError::UnexpectedInput));
    assert_eq!(parse_dollar("abc$x"), Err(ParserError::UnexpectedInput));
}

#[test]
fn letter_outside_ascii_ends_the_name_and_is_rejected() {
    assert_eq!(parse_dollar("ab\u{e9}=x"), Err(ParserError::UnexpectedInput));
}

#[test]
fn bare_name_is_rejected() {
    assert_eq!(parse_dollar("abc"), Err(ParserError::UnexpectedInput));
}

#[test]
fn empty_text_is_rejected() {
    assert_eq!(parse_dollar(""), Err(ParserError::UnexpectedInput));
}

#[test]
fn missing_name_is_rejected() {
    assert_eq!(parse_dollar("=value"), Err(ParserError::UnexpectedInput));
    assert_eq!(parse_dollar(" abc=def"), Err(ParserError::UnexpectedInput));
}

#[test]
fn empty_value_is_rejected() {
    assert_eq!(parse_dollar("abc="), Err(ParserError::UnexpectedInput));
    assert_eq!(parse_dollar("abc= def"), Err(ParserError::UnexpectedInput));
}

#[test]
fn classes_of_characters() {
    for c in ['a', 'z', 'A', 'Z', '0', '9', '_'] {
        assert!(class_accepts(CharClass::Name, c));
    }
    for c in ['=', ' ', '-', '\t', '\u{e9}', '/', '`', '{', '@', '[', ':'] {
        assert!(!class_accepts(CharClass::Name, c));
    }
    for c in [' ', '\t', '\n', '\x0C', '\r'] {
        assert!(!class_accepts(CharClass::Value, c));
    }
    for c in ['a', '=', '/', '\u{e9}', '\x0B', '\u{a0}'] {
        assert!(class_accepts(CharClass::Value, c));
    }
}

#[test]
fn line_of_name_and_value_is_an_assignment() {
    assert_eq!(classify_line("x=1"), LineKind::Assignment("x", "1"));
    assert_eq!(classify_line("path_1=/usr/bin:/bin"), LineKind::Assignment("path_1", "/usr/bin:/bin"));
    assert_eq!(classify_line("a=b=c"), LineKind::Assignment("a", "b=c"));
    assert_eq!(classify_line("a=b|c"), LineKind::Assignment("a", "b|c"));
    assert_eq!(classify_line("x=\u{e9}"), LineKind::Assignment("x", "\u{e9}"));
}

#[test]
fn assignment_that_does_not_fill_the_line_is_malformed() {
    assert_eq!(classify_line("x="), LineKind::Malformed);
    assert_eq!(classify_line("x= 1"), LineKind::Malformed);
    assert_eq!(classify_line("x=1 ls"), LineKind::Malformed);
    assert_eq!(classify_line("x=1 "), LineKind::Malformed);
    assert_eq!(classify_line("x=1\ty=2"), LineKind::Malformed);
}

#[test]
fn other_lines_are_command_lines() {
    assert_eq!(classify_line("ls -la"), LineKind::Command);
    assert_eq!(classify_line("ls"), LineKind::Command);
    assert_eq!(classify_line(""), LineKind::Command);
    assert_eq!(classify_line("=x"), LineKind::Command);
    assert_eq!(classify_line(" x=1"), LineKind::Command);
    assert_eq!(classify_line("$x=1"), LineKind::Command);
    assert_eq!(classify_line("ls | wc"), LineKind::Command);
    assert_eq!(classify_line("a b=c"), LineKind::Command);
    assert_eq!(classify_line("\u{e9}=1"), LineKind::Command);
}

#[test]
fn start_of_an_assignment() {
    assert!(line_starts_as_assignment("x=1"));
    assert!(line_starts_as_assignment("x="));
    assert!(line_starts_as_assignment("_a9= b"));
    assert!(!line_starts_as_assignment("x"));
    assert!(!line_starts_as_assignment("x =1"));
    assert!(!line_starts_as_assignment("=1"));
    assert!(!line_starts_as_assignment(""));
}
