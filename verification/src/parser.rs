//! Recognition of variable assignments and variable references.
//!
//! A text that starts with a name is either `name=value`, which defines a
//! variable, or a name followed by whitespace, which asks for the variable's
//! value. Anything else is a syntax error. A whole line is an assignment, a
//! malformed assignment, or a command line.

use vstd::prelude::*;
use vstd::string::StrSliceExecFns;
use nom::bytes::complete::take_while1;

verus! {

/// AST node values.
#[derive(Debug, PartialEq, Eq)]
pub enum ASTExpr<'a> {
    /// A variable is defined: the first text is its name, the second its value.
    DefineVar(&'a str, &'a str),
    /// The value of the named variable is asked for.
    SubstituteVar(&'a str),
}

/// Why a text was rejected.
#[derive(Debug, PartialEq, Eq)]
pub enum ParserError {
    /// The text does not follow the syntax.
    UnexpectedInput,
}

/// The mathematical value of an [`ASTExpr`].
pub enum Expr {
    DefineVar(Seq<char>, Seq<char>),
    SubstituteVar(Seq<char>),
}

impl<'a> View for ASTExpr<'a> {
    type V = Expr;

    open spec fn view(&self) -> Expr {
        match *self {
            ASTExpr::DefineVar(name, value) => Expr::DefineVar(name@, value@),
            ASTExpr::SubstituteVar(name) => Expr::SubstituteVar(name@),
        }
    }
}

/// The two kinds of character runs that the syntax is made of.
#[derive(Clone, Copy, Debug)]
pub enum CharClass {
    /// ASCII letters, ASCII digits and the underscore: what a name is made of.
    Name,
    /// Everything but ASCII whitespace: what a value is made of.
    Value,
}

/// ASCII letters, ASCII digits and the underscore.
pub open spec fn is_name_char(c: char) -> bool {
    ||| 'a' <= c <= 'z'
    ||| 'A' <= c <= 'Z'
    ||| '0' <= c <= '9'
    ||| c == '_'
}

/// Space, horizontal tab, line feed, form feed and carriage return.
pub open spec fn is_ascii_space(c: char) -> bool {
    c == ' ' || c == '\t' || c == '\n' || c == '\x0C' || c == '\r'
}

/// Whether `c` belongs to `class`.
pub open spec fn in_class(class: CharClass, c: char) -> bool {
    match class {
        CharClass::Name => is_name_char(c),
        CharClass::Value => !is_ascii_space(c),
    }
}

/// Whether `c` belongs to `class`.
pub fn class_accepts(class: CharClass, c: char) -> (b: bool)
    ensures
        b == in_class(class, c),
{
    match class {
        CharClass::Name => (c >= 'a' && c <= 'z') || (c >= 'A' && c <= 'Z') || (c >= '0' && c
            <= '9') || c == '_',
        CharClass::Value => !(c == ' ' || c == '\t' || c == '\n' || c == '\x0C' || c == '\r'),
    }
}

/// How many characters of `s` from index `from` on belong to `class`, up to
/// the first that does not.
pub open spec fn run_len(class: CharClass, s: Seq<char>, from: int) -> nat
    decreases s.len() - from,
{
    if 0 <= from < s.len() && in_class(class, s[from]) {
        1 + run_len(class, s, from + 1)
    } else {
        0
    }
}

/// Whether every character of `s` belongs to `class`.
pub open spec fn all_in_class(class: CharClass, s: Seq<char>) -> bool {
    forall|i: int| 0 <= i < s.len() ==> in_class(class, #[trigger] s[i])
}

/// What parsing a text yields: the node and the text left behind it, or the
/// error.
pub open spec fn spec_parse_dollar(s: Seq<char>) -> Result<(Seq<char>, Expr), ParserError> {
    let n = run_len(CharClass::Name, s, 0) as int;
    if n == 0 {
        Err(ParserError::UnexpectedInput)
    } else if n < s.len() && s[n] == '=' {
        let v = run_len(CharClass::Value, s, n + 1) as int;
        if v == 0 {
            Err(ParserError::UnexpectedInput)
        } else {
            Ok((s.skip(n + 1 + v), Expr::DefineVar(s.take(n), s.subrange(n + 1, n + 1 + v))))
        }
    } else if n < s.len() && is_ascii_space(s[n]) {
        Ok((s.skip(n), Expr::SubstituteVar(s.take(n))))
    } else {
        Err(ParserError::UnexpectedInput)
    }
}

/// Trusted: nom's `Err`, the error of a parser. Nothing is known of a value
/// of it.
#[verifier::external_type_specification]
#[verifier::external_body]
#[verifier::reject_recursive_types(E)]
pub struct ExNomErr<E>(nom::Err<E>);

/// Trusted: nom's `error::Error`, the place and the code of a parser's
/// error. Nothing is known of a value of it.
#[verifier::external_type_specification]
#[verifier::external_body]
#[verifier::reject_recursive_types(I)]
pub struct ExNomError<I>(nom::error::Error<I>);

/// Trusted: nom's `take_while1`, on a text and with membership in `class` as
/// its predicate. It succeeds exactly when the first character of `input`
/// belongs to `class`, and then splits `input` behind the longest run of such
/// characters at its start: the run comes second in the pair, what is left of
/// `input` comes first.
#[verifier::external_body]
fn take_run<'a>(class: CharClass, input: &'a str) -> (r: Result<
    (&'a str, &'a str),
    nom::Err<nom::error::Error<&'a str>>,
>)
    ensures
        r is Ok <==> run_len(class, input@, 0) > 0,
        r matches Ok((rest, run)) ==> {
            &&& run@ == input@.take(run_len(class, input@, 0) as int)
            &&& rest@ == input@.skip(run_len(class, input@, 0) as int)
        },
{
    take_while1(|c: char| class_accepts(class, c))(input)
}

/// A run of characters of one class ends inside the text.
pub proof fn lemma_run_len_bound(class: CharClass, s: Seq<char>, from: int)
    requires
        0 <= from <= s.len(),
    ensures
        from + run_len(class, s, from) <= s.len(),
    decreases s.len() - from,
{
    if from < s.len() && in_class(class, s[from]) {
        lemma_run_len_bound(class, s, from + 1);
    }
}

/// A run is the same whether it is counted in a text from index `from` or in
/// the text that is left when the first `from` characters are dropped.
pub proof fn lemma_run_len_skip(class: CharClass, s: Seq<char>, from: int, i: int)
    requires
        0 <= from <= s.len(),
        0 <= i,
    ensures
        run_len(class, s.skip(from), i) == run_len(class, s, from + i),
    decreases s.len() - from - i,
{
    if from + i < s.len() && in_class(class, s[from + i]) {
        lemma_run_len_skip(class, s, from, i + 1);
    }
}

/// A text that starts with a run of characters of `class`, behind which the
/// text ends or a character outside `class` follows, has exactly that run at
/// its start.
pub proof fn lemma_run_len_exact(class: CharClass, run: Seq<char>, rest: Seq<char>, i: int)
    requires
        all_in_class(class, run),
        rest.len() == 0 || !in_class(class, rest[0]),
        0 <= i <= run.len(),
    ensures
        run_len(class, run + rest, i) == run.len() - i,
    decreases run.len() - i,
{
    let s = run + rest;
    if i < run.len() {
        assert(s[i] == run[i]);
        lemma_run_len_exact(class, run, rest, i + 1);
    } else if rest.len() > 0 {
        assert(s[i] == rest[0]);
    }
}

/// Law of assignments: a non-empty name of ASCII letters, digits and
/// underscores, then `=`, then a non-empty value without ASCII whitespace,
/// then the end of the text or whitespace, parses to the definition of that
/// name with that value; what follows the value is left over.
pub proof fn lemma_assignment_defines(name: Seq<char>, value: Seq<char>, tail: Seq<char>)
    requires
        name.len() > 0,
        all_in_class(CharClass::Name, name),
        value.len() > 0,
        all_in_class(CharClass::Value, value),
        tail.len() == 0 || is_ascii_space(tail[0]),
    ensures
        spec_parse_dollar(name + seq!['='] + value + tail) == Ok::<_, ParserError>(
            (tail, Expr::DefineVar(name, value)),
        ),
{
    let s = name + seq!['='] + value + tail;
    let n = name.len() as int;
    let v = value.len() as int;
    assert(s =~= name + (seq!['='] + value + tail));
    lemma_run_len_exact(CharClass::Name, name, seq!['='] + value + tail, 0);
    assert(s[n] == '=');
    assert(s.skip(n + 1) =~= value + tail);
    lemma_run_len_skip(CharClass::Value, s, n + 1, 0);
    lemma_run_len_exact(CharClass::Value, value, tail, 0);
    assert(s.skip(n + 1 + v) =~= tail);
    assert(s.take(n) =~= name);
    assert(s.subrange(n + 1, n + 1 + v) =~= value);
}

/// Law of references: a non-empty name of ASCII letters, digits and
/// underscores that ASCII whitespace follows parses to the reference to that
/// name; the whitespace and what follows it are left over.
pub proof fn lemma_reference_substitutes(name: Seq<char>, tail: Seq<char>)
    requires
        name.len() > 0,
        all_in_class(CharClass::Name, name),
        tail.len() > 0,
        is_ascii_space(tail[0]),
    ensures
        spec_parse_dollar(name + tail) == Ok::<_, ParserError>((tail, Expr::SubstituteVar(name))),
{
    let s = name + tail;
    let n = name.len() as int;
    lemma_run_len_exact(CharClass::Name, name, tail, 0);
    assert(s[n] == tail[0]);
    assert(s.skip(n) =~= tail);
    assert(s.take(n) =~= name);
}

/// Law of rejection: a name that any character other than `=` and ASCII
/// whitespace follows is a syntax error.
pub proof fn lemma_other_follower_rejected(name: Seq<char>, tail: Seq<char>)
    requires
        all_in_class(CharClass::Name, name),
        tail.len() > 0,
        !is_name_char(tail[0]),
        tail[0] != '=',
        !is_ascii_space(tail[0]),
    ensures
        spec_parse_dollar(name + tail) == Err::<(Seq<char>, Expr), _>(
            ParserError::UnexpectedInput,
        ),
{
    let s = name + tail;
    let n = name.len() as int;
    lemma_run_len_exact(CharClass::Name, name, tail, 0);
    assert(s[n] == tail[0]);
}

/// A text that has no name at its start, or nothing behind the name, is a
/// syntax error.
pub proof fn lemma_bare_name_rejected(name: Seq<char>)
    requires
        all_in_class(CharClass::Name, name),
    ensures
        spec_parse_dollar(name) == Err::<(Seq<char>, Expr), _>(ParserError::UnexpectedInput),
{
    lemma_run_len_exact(CharClass::Name, name, Seq::empty(), 0);
    assert(name + Seq::<char>::empty() =~= name);
}

/// Parses an assignment `name=value` or a reference to a variable, a name
/// followed by whitespace, at the start of `cmd`.
///
/// The name is the longest run of ASCII letters, ASCII digits and underscores
/// and must not be empty. Behind `=` the value is the longest run of
/// characters other than ASCII whitespace and must not be empty; the text left
/// starts behind the value. Behind a name that ASCII whitespace follows the
/// text left starts at that whitespace. Every other text is rejected.
pub fn parse_dollar<'a>(cmd: &'a str) -> (r: Result<(&'a str, ASTExpr<'a>), ParserError>)
    ensures
        match r {
            Ok((rest, expr)) => spec_parse_dollar(cmd@) == Ok::<_, ParserError>((rest@, expr@)),
            Err(e) => spec_parse_dollar(cmd@) == Err::<(Seq<char>, Expr), _>(e),
        },
{
    let (rest, var_name) = match take_run(CharClass::Name, cmd) {
        Ok(pair) => pair,
        Err(_) => {
            return Err(ParserError::UnexpectedInput);
        },
    };
    proof {
        lemma_run_len_bound(CharClass::Name, cmd@, 0);
    }
    if rest.is_empty() {
        return Err(ParserError::UnexpectedInput);
    }
    let next = rest.get_char(0);
    if next == '=' {
        let after = rest.substring_char(1, rest.unicode_len());
        proof {
            let n = run_len(CharClass::Name, cmd@, 0) as int;
            assert(after@ =~= cmd@.skip(n + 1));
            lemma_run_len_skip(CharClass::Value, cmd@, n + 1, 0);
            lemma_run_len_bound(CharClass::Value, cmd@, n + 1);
        }
        match take_run(CharClass::Value, after) {
            Ok((remaining, var_value)) => {
                proof {
                    let n = run_len(CharClass::Name, cmd@, 0) as int;
                    let v = run_len(CharClass::Value, cmd@, n + 1) as int;
                    assert(remaining@ =~= cmd@.skip(n + 1 + v));
                    assert(var_value@ =~= cmd@.subrange(n + 1, n + 1 + v));
                }
                Ok((remaining, ASTExpr::DefineVar(var_name, var_value)))
            },
            Err(_) => Err(ParserError::UnexpectedInput),
        }
    } else if next == ' ' || next == '\t' || next == '\n' || next == '\x0C' || next == '\r' {
        Ok((rest, ASTExpr::SubstituteVar(var_name)))
    } else {
        Err(ParserError::UnexpectedInput)
    }
}

/// What a line of the shell is.
#[derive(Debug, PartialEq, Eq)]
pub enum LineKind<'a> {
    /// An assignment: the first text is the name, the second the value.
    Assignment(&'a str, &'a str),
    /// A line that starts as an assignment does and is none.
    Malformed,
    /// Every other line: a pipeline of commands, to be split into tokens.
    Command,
}

/// The mathematical value of a [`LineKind`].
pub enum LineModel {
    Assignment(Seq<char>, Seq<char>),
    Malformed,
    Command,
}

impl<'a> View for LineKind<'a> {
    type V = LineModel;

    open spec fn view(&self) -> LineModel {
        match *self {
            LineKind::Assignment(name, value) => LineModel::Assignment(name@, value@),
            LineKind::Malformed => LineModel::Malformed,
            LineKind::Command => LineModel::Command,
        }
    }
}

/// Whether a line starts as an assignment does: with a name and `=`.
pub open spec fn starts_as_assignment(line: Seq<char>) -> bool {
    let n = run_len(CharClass::Name, line, 0) as int;
    n > 0 && n < line.len() && line[n] == '='
}

/// What a line is. A line that starts with a name and `=` is meant as an
/// assignment. It is one where the value, a run of characters other than
/// ASCII whitespace that is not empty, fills the rest of the line; else it is
/// malformed. Every other line is a command line.
pub open spec fn spec_classify(line: Seq<char>) -> LineModel {
    if starts_as_assignment(line) {
        let n = run_len(CharClass::Name, line, 0) as int;
        let v = run_len(CharClass::Value, line, n + 1) as int;
        if v > 0 && n + 1 + v == line.len() {
            LineModel::Assignment(line.take(n), line.skip(n + 1))
        } else {
            LineModel::Malformed
        }
    } else {
        LineModel::Command
    }
}

/// Whether `line` starts as an assignment does.
pub fn line_starts_as_assignment(line: &str) -> (starts: bool)
    ensures
        starts == starts_as_assignment(line@),
{
    match take_run(CharClass::Name, line) {
        Ok((rest, _)) => {
            proof {
                lemma_run_len_bound(CharClass::Name, line@, 0);
            }
            !rest.is_empty() && rest.get_char(0) == '='
        },
        Err(_) => false,
    }
}

/// Says what `line` is: see [`spec_classify`]. The name and the value of an
/// assignment are parts of the line.
pub fn classify_line<'a>(line: &'a str) -> (kind: LineKind<'a>)
    ensures
        kind@ == spec_classify(line@),
{
    if !line_starts_as_assignment(line) {
        return LineKind::Command;
    }
    proof {
        let n = run_len(CharClass::Name, line@, 0) as int;
        lemma_run_len_bound(CharClass::Value, line@, n + 1);
    }
    match parse_dollar(line) {
        Ok((rest, ASTExpr::DefineVar(name, value))) => {
            if rest.is_empty() {
                proof {
                    let n = run_len(CharClass::Name, line@, 0) as int;
                    let v = run_len(CharClass::Value, line@, n + 1) as int;
                    assert(line@.subrange(n + 1, n + 1 + v) =~= line@.skip(n + 1));
                }
                LineKind::Assignment(name, value)
            } else {
                LineKind::Malformed
            }
        },
        _ => LineKind::Malformed,
    }
}

/// Law of the assignment line: a line that is a name of ASCII letters, digits
/// and underscores, then `=`, then a value without ASCII whitespace, neither
/// of the two empty, is the assignment of that value to that name.
pub proof fn lemma_assignment_line(name: Seq<char>, value: Seq<char>)
    requires
        name.len() > 0,
        all_in_class(CharClass::Name, name),
        value.len() > 0,
        all_in_class(CharClass::Value, value),
    ensures
        spec_classify(name + seq!['='] + value) == LineModel::Assignment(name, value),
{
    let line = name + seq!['='] + value;
    let n = name.len() as int;
    assert(line =~= name + (seq!['='] + value));
    lemma_run_len_exact(CharClass::Name, name, seq!['='] + value, 0);
    assert(line[n] == '=');
    assert(line.skip(n + 1) =~= value);
    lemma_run_len_skip(CharClass::Value, line, n + 1, 0);
    assert(value + Seq::<char>::empty() =~= value);
    lemma_run_len_exact(CharClass::Value, value, Seq::empty(), 0);
    assert(line.take(n) =~= name);
}

/// Law of the classified line: a line is an assignment exactly when it
/// parses, all of it, as the definition of a variable; then name and value
/// are those of the definition.
pub proof fn lemma_assignment_line_parses(line: Seq<char>, name: Seq<char>, value: Seq<char>)
    ensures
        spec_classify(line) == LineModel::Assignment(name, value) <==> spec_parse_dollar(line)
            == Ok::<_, ParserError>((Seq::<char>::empty(), Expr::DefineVar(name, value))),
{
    let n = run_len(CharClass::Name, line, 0) as int;
    lemma_run_len_bound(CharClass::Name, line, 0);
    if n < line.len() {
        let v = run_len(CharClass::Value, line, n + 1) as int;
        lemma_run_len_bound(CharClass::Value, line, n + 1);
        if n + 1 + v == line.len() {
            assert(line.subrange(n + 1, n + 1 + v) =~= line.skip(n + 1));
            assert(line.skip(n + 1 + v) =~= Seq::<char>::empty());
        } else {
            assert(line.skip(n + 1 + v).len() > 0);
        }
    }
}

} // verus!
