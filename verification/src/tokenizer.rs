//! Lexical analysis: one input line becomes a flat sequence of tokens.
//!
//! The scan goes left to right with one character of lookahead and never
//! backtracks. Characters that fit no token are reported and skipped; they
//! never abort the scan.

use vstd::prelude::*;
use crate::chars::{alphanumeric_flags, classify_chars, collect_chars, string_of};

verus! {

/// Keywords that the shell language sets aside. The scan does not produce
/// them yet: control flow is not part of the language so far.
#[derive(Clone, Copy, Debug, PartialEq, Eq)]
pub enum ReservedWord {
    If,
    Else,
    Elif,
    While,
    For,
}

/// The lexical tokens of a command line.
#[derive(Debug, PartialEq, Eq)]
pub enum ShellTokens {
    /// A run of word characters.
    Word(String),
    /// `|`
    Pipe,
    /// `<`: a file is to be the input of the command.
    RedirectAsInput,
    /// `>`: a file is to take the output of the command.
    RedirectAsOutput,
    /// `"`
    DoubleQuotes,
    /// `'`
    SingleQuotes,
    /// `(`
    ParenthesesOpen,
    /// `)`
    ParenthesesClose,
    /// `#`; the text of the comment is not gathered.
    Comment(String),
    /// `=`
    Assignment,
    /// `\`; never produced by the scan.
    Escape,
    /// `$` and the name that follows it.
    Variable(String),
    /// A keyword.
    ReservedWord(ReservedWord),
    /// One space.
    Whitespace,
}

/// The mathematical value of a token: texts are character sequences.
pub enum Token {
    Word(Seq<char>),
    Pipe,
    RedirectAsInput,
    RedirectAsOutput,
    DoubleQuotes,
    SingleQuotes,
    ParenthesesOpen,
    ParenthesesClose,
    Comment(Seq<char>),
    Assignment,
    Escape,
    Variable(Seq<char>),
    ReservedWord(ReservedWord),
    Whitespace,
}

impl View for ShellTokens {
    type V = Token;

    open spec fn view(&self) -> Token {
        match *self {
            ShellTokens::Word(s) => Token::Word(s@),
            ShellTokens::Pipe => Token::Pipe,
            ShellTokens::RedirectAsInput => Token::RedirectAsInput,
            ShellTokens::RedirectAsOutput => Token::RedirectAsOutput,
            ShellTokens::DoubleQuotes => Token::DoubleQuotes,
            ShellTokens::SingleQuotes => Token::SingleQuotes,
            ShellTokens::ParenthesesOpen => Token::ParenthesesOpen,
            ShellTokens::ParenthesesClose => Token::ParenthesesClose,
            ShellTokens::Comment(s) => Token::Comment(s@),
            ShellTokens::Assignment => Token::Assignment,
            ShellTokens::Escape => Token::Escape,
            ShellTokens::Variable(s) => Token::Variable(s@),
            ShellTokens::ReservedWord(w) => Token::ReservedWord(w),
            ShellTokens::Whitespace => Token::Whitespace,
        }
    }
}

/// The values of a sequence of tokens.
pub open spec fn tokens_view(tokens: Seq<ShellTokens>) -> Seq<Token> {
    tokens.map_values(|t: ShellTokens| t@)
}

/// Where a character was rejected.
#[derive(Clone, Copy, Debug, PartialEq, Eq)]
pub enum LexErrorKind {
    /// The character starts no token.
    Unrecognized,
    /// The character ended a variable name and is neither a space nor part of a name.
    InvalidInVariable,
}

/// A character that the scan reported and skipped.
#[derive(Clone, Copy, Debug, PartialEq, Eq)]
pub struct LexError {
    /// Index of the character in the line, counted in characters.
    pub position: usize,
    /// The character itself.
    pub character: char,
    /// Why it was rejected.
    pub kind: LexErrorKind,
}

/// How many characters from index `from` on are word characters, up to the
/// first that is not.
pub open spec fn word_len(word: Seq<bool>, from: int) -> nat
    decreases word.len() - from,
{
    if 0 <= from < word.len() && word[from] {
        1 + word_len(word, from + 1)
    } else {
        0
    }
}

/// Whether the character at index `i` may stand in a variable name: a word
/// character or an underscore.
pub open spec fn is_name_at(chars: Seq<char>, word: Seq<bool>, i: int) -> bool {
    word[i] || chars[i] == '_'
}

/// How many characters from index `from` on may stand in a variable name, up
/// to the first that may not.
pub open spec fn name_len(chars: Seq<char>, word: Seq<bool>, from: int) -> nat
    decreases chars.len() - from,
{
    if 0 <= from < chars.len() && is_name_at(chars, word, from) {
        1 + name_len(chars, word, from + 1)
    } else {
        0
    }
}

/// What one step of the scan yields.
pub struct Scan {
    /// The token recognised, if any.
    pub token: Option<Token>,
    /// The character reported, if any.
    pub error: Option<LexError>,
    /// How many characters the step consumed; at least one.
    pub width: nat,
}

/// The step that a variable sigil at index `i` starts. The name is the run of
/// name characters behind the sigil. A space or the end of the line ends it
/// silently; any other character ends it, is reported and is skipped.
pub open spec fn variable_step(chars: Seq<char>, word: Seq<bool>, i: int) -> Scan {
    let n = name_len(chars, word, i + 1);
    let end = i + 1 + n;
    let name = chars.subrange(i + 1, end);
    if end < chars.len() && chars[end] != ' ' {
        Scan {
            token: Some(Token::Variable(name)),
            error: Some(
                LexError {
                    position: end as usize,
                    character: chars[end],
                    kind: LexErrorKind::InvalidInVariable,
                },
            ),
            width: n + 2,
        }
    } else {
        Scan { token: Some(Token::Variable(name)), error: None, width: n + 1 }
    }
}

/// The step of the scan at index `i` of a line whose characters are `chars`
/// and whose word characters are flagged in `word`.
pub open spec fn step_at(chars: Seq<char>, word: Seq<bool>, i: int) -> Scan {
    let c = chars[i];
    let single = |t: Token| Scan { token: Some(t), error: None, width: 1 };
    if c == '$' {
        variable_step(chars, word, i)
    } else if c == '=' {
        single(Token::Assignment)
    } else if c == '|' {
        single(Token::Pipe)
    } else if c == '>' {
        single(Token::RedirectAsOutput)
    } else if c == '<' {
        single(Token::RedirectAsInput)
    } else if c == ' ' {
        single(Token::Whitespace)
    } else if c == '\'' {
        single(Token::SingleQuotes)
    } else if word[i] {
        let n = word_len(word, i);
        Scan { token: Some(Token::Word(chars.subrange(i, i + n))), error: None, width: n }
    } else if c == '(' {
        single(Token::ParenthesesOpen)
    } else if c == ')' {
        single(Token::ParenthesesClose)
    } else if c == '"' {
        single(Token::DoubleQuotes)
    } else if c == '#' {
        single(Token::Comment(Seq::empty()))
    } else {
        Scan {
            token: None,
            error: Some(
                LexError { position: i as usize, character: c, kind: LexErrorKind::Unrecognized },
            ),
            width: 1,
        }
    }
}

/// What an optional item adds to a sequence.
pub open spec fn optional<T>(item: Option<T>) -> Seq<T> {
    match item {
        Some(t) => seq![t],
        None => Seq::empty(),
    }
}

/// The tokens of the line from index `i` to its end.
pub open spec fn tokens_from(chars: Seq<char>, word: Seq<bool>, i: int) -> Seq<Token>
    decreases chars.len() - i,
{
    if 0 <= i < chars.len() && word.len() == chars.len() {
        let step = step_at(chars, word, i);
        if 0 < step.width <= chars.len() - i {
            optional(step.token) + tokens_from(chars, word, i + step.width)
        } else {
            Seq::empty()
        }
    } else {
        Seq::empty()
    }
}

/// The characters reported from index `i` to the end of the line.
pub open spec fn errors_from(chars: Seq<char>, word: Seq<bool>, i: int) -> Seq<LexError>
    decreases chars.len() - i,
{
    if 0 <= i < chars.len() && word.len() == chars.len() {
        let step = step_at(chars, word, i);
        if 0 < step.width <= chars.len() - i {
            optional(step.error) + errors_from(chars, word, i + step.width)
        } else {
            Seq::empty()
        }
    } else {
        Seq::empty()
    }
}

/// The tokens of a whole line, word characters being the alphanumeric ones.
pub open spec fn spec_tokenize(line: Seq<char>) -> Seq<Token> {
    tokens_from(line, alphanumeric_flags(line), 0)
}

/// The characters reported in a whole line.
pub open spec fn spec_lex_errors(line: Seq<char>) -> Seq<LexError> {
    errors_from(line, alphanumeric_flags(line), 0)
}

/// Every step consumes at least one character and stays inside the line.
pub proof fn lemma_step_width(chars: Seq<char>, word: Seq<bool>, i: int)
    requires
        0 <= i < chars.len(),
        word.len() == chars.len(),
    ensures
        1 <= step_at(chars, word, i).width,
        i + step_at(chars, word, i).width <= chars.len(),
{
    lemma_word_len_bound(word, i);
    lemma_name_len_bound(chars, word, i + 1);
}

/// A run of word characters ends inside the line.
pub proof fn lemma_word_len_bound(word: Seq<bool>, from: int)
    requires
        0 <= from <= word.len(),
    ensures
        from + word_len(word, from) <= word.len(),
    decreases word.len() - from,
{
    if from < word.len() && word[from] {
        lemma_word_len_bound(word, from + 1);
    }
}

/// A run of name characters ends inside the line.
pub proof fn lemma_name_len_bound(chars: Seq<char>, word: Seq<bool>, from: int)
    requires
        0 <= from <= chars.len(),
    ensures
        from + name_len(chars, word, from) <= chars.len(),
    decreases chars.len() - from,
{
    if from < chars.len() && is_name_at(chars, word, from) {
        lemma_name_len_bound(chars, word, from + 1);
    }
}

/// What the scan can yield: a word is never empty, a comment is always
/// empty, and no token is an escape or a keyword.
pub open spec fn scanned(token: Token) -> bool {
    match token {
        Token::Word(text) => text.len() > 0,
        Token::Comment(text) => text.len() == 0,
        Token::Escape => false,
        Token::ReservedWord(_) => false,
        _ => true,
    }
}

/// Law of the tokens: every token of a line is one that the scan can yield.
pub proof fn lemma_tokens_are_scanned(chars: Seq<char>, word: Seq<bool>, i: int)
    ensures
        forall|k: int|
            0 <= k < tokens_from(chars, word, i).len() ==> scanned(
                #[trigger] tokens_from(chars, word, i)[k],
            ),
    decreases chars.len() - i,
{
    if 0 <= i < chars.len() && word.len() == chars.len() {
        let step = step_at(chars, word, i);
        if 0 < step.width <= chars.len() - i {
            lemma_tokens_are_scanned(chars, word, i + step.width);
            let head = optional(step.token);
            let tail = tokens_from(chars, word, i + step.width);
            assert forall|k: int| 0 <= k < (head + tail).len() implies scanned(
                #[trigger] (head + tail)[k],
            ) by {
                if k < head.len() {
                    assert((head + tail)[k] == step.token->0);
                } else {
                    assert((head + tail)[k] == tail[k - head.len()]);
                }
            }
        }
    }
}

/// A reading position in a line, with what the scan has reported so far.
///
/// Each character carries a flag that says whether it may stand in a word.
pub struct CharCursor {
    chars: Vec<char>,
    word: Vec<bool>,
    pos: usize,
    reported: Vec<LexError>,
}

impl CharCursor {
    /// The characters of the line.
    pub closed spec fn text(&self) -> Seq<char> {
        self.chars@
    }

    /// For each character of the line, whether it may stand in a word.
    pub closed spec fn word_flags(&self) -> Seq<bool> {
        self.word@
    }

    /// Index of the next character to read.
    pub closed spec fn index(&self) -> int {
        self.pos as int
    }

    /// The characters reported so far, oldest first.
    pub closed spec fn errors(&self) -> Seq<LexError> {
        self.reported@
    }

    /// Every character has its flag and the position is inside the line or at its end.
    pub closed spec fn wf(&self) -> bool {
        &&& self.word@.len() == self.chars@.len()
        &&& self.pos <= self.chars@.len()
    }

    /// A cursor at the start of `input`; word characters are the alphanumeric ones.
    pub fn new(input: &str) -> (cursor: CharCursor)
        ensures
            cursor.wf(),
            cursor.text() == input@,
            cursor.word_flags() == alphanumeric_flags(input@),
            cursor.index() == 0,
            cursor.errors() == Seq::<LexError>::empty(),
    {
        let chars = collect_chars(input);
        let word = classify_chars(&chars);
        CharCursor { chars, word, pos: 0, reported: Vec::new() }
    }

    /// A cursor at the start of `chars` with the given word flags, or `None`
    /// when the two differ in length.
    pub fn from_parts(chars: Vec<char>, word: Vec<bool>) -> (cursor: Option<CharCursor>)
        ensures
            cursor is Some <==> chars@.len() == word@.len(),
            cursor matches Some(c) ==> {
                &&& c.wf()
                &&& c.text() == chars@
                &&& c.word_flags() == word@
                &&& c.index() == 0
                &&& c.errors() == Seq::<LexError>::empty()
            },
    {
        if chars.len() == word.len() {
            Some(CharCursor { chars, word, pos: 0, reported: Vec::new() })
        } else {
            None
        }
    }

    /// The next character, without consuming it.
    pub fn peek(&self) -> (next: Option<char>)
        ensures
            next == if self.index() < self.text().len() {
                Some(self.text()[self.index()])
            } else {
                None
            },
    {
        if self.pos < self.chars.len() {
            Some(self.chars[self.pos])
        } else {
            None
        }
    }

    /// Consumes one character, if any is left.
    pub fn advance(&mut self)
        ensures
            old(self).wf() ==> final(self).wf(),
            final(self).text() == old(self).text(),
            final(self).word_flags() == old(self).word_flags(),
            final(self).errors() == old(self).errors(),
            final(self).index() == if old(self).index() < old(self).text().len() {
                old(self).index() + 1
            } else {
                old(self).index()
            },
    {
        if self.pos < self.chars.len() {
            self.pos += 1;
        }
    }

    /// Index of the next character to read.
    pub fn position(&self) -> (p: usize)
        ensures
            p == self.index(),
    {
        self.pos
    }

    /// The characters reported so far, oldest first.
    pub fn diagnostics(&self) -> (d: &Vec<LexError>)
        ensures
            d@ == self.errors(),
    {
        &self.reported
    }
}

/// Reads the run of word characters at the cursor and returns it. The cursor
/// ends on the first character that is no word character.
pub fn handle_unreserved_chars(iter: &mut CharCursor) -> (word: String)
    requires
        old(iter).wf(),
    ensures
        final(iter).wf(),
        final(iter).text() == old(iter).text(),
        final(iter).word_flags() == old(iter).word_flags(),
        final(iter).errors() == old(iter).errors(),
        final(iter).index() == old(iter).index() + word_len(
            old(iter).word_flags(),
            old(iter).index(),
        ),
        word@ == old(iter).text().subrange(old(iter).index(), final(iter).index()),
{
    let start = iter.pos;
    let mut end = start;
    while end < iter.chars.len() && iter.word[end]
        invariant
            iter.wf(),
            *iter == *old(iter),
            start == iter.pos,
            start <= end <= iter.chars.len(),
            end - start + word_len(iter.word@, end as int) == word_len(iter.word@, start as int),
        decreases iter.chars.len() - end,
    {
        end += 1;
    }
    let word = string_of(&iter.chars, start, end);
    iter.pos = end;
    word
}

/// Where the name of the variable at index `at` starts: behind the sigil, if
/// a sigil stands at `at`, else at `at` itself.
pub open spec fn name_start(text: Seq<char>, at: int) -> int {
    if 0 <= at < text.len() && text[at] == '$' {
        at + 1
    } else {
        at
    }
}

/// Reads the variable at the cursor and returns its name. A sigil at the
/// cursor is stepped over; the name is the run of word characters and
/// underscores that follows. A space or the end of the line ends the name
/// and is left unread; any other character ends it, is reported and is
/// consumed.
pub fn handle_variable(iter: &mut CharCursor) -> (name: String)
    requires
        old(iter).wf(),
    ensures
        final(iter).wf(),
        final(iter).text() == old(iter).text(),
        final(iter).word_flags() == old(iter).word_flags(),
        ({
            let text = old(iter).text();
            let start = name_start(text, old(iter).index());
            let end = start + name_len(text, old(iter).word_flags(), start);
            &&& name@ == text.subrange(start, end)
            &&& if end < text.len() && text[end] != ' ' {
                &&& final(iter).index() == end + 1
                &&& final(iter).errors() == old(iter).errors().push(
                    LexError {
                        position: end as usize,
                        character: text[end],
                        kind: LexErrorKind::InvalidInVariable,
                    },
                )
            } else {
                &&& final(iter).index() == end
                &&& final(iter).errors() == old(iter).errors()
            }
        }),
{
    let start = if iter.pos < iter.chars.len() && iter.chars[iter.pos] == '$' {
        iter.pos + 1
    } else {
        iter.pos
    };
    let mut end = start;
    while end < iter.chars.len() && (iter.word[end] || iter.chars[end] == '_')
        invariant
            iter.wf(),
            *iter == *old(iter),
            start == name_start(iter.chars@, iter.pos as int),
            start <= end <= iter.chars.len(),
            end - start + name_len(iter.chars@, iter.word@, end as int) == name_len(
                iter.chars@,
                iter.word@,
                start as int,
            ),
        decreases iter.chars.len() - end,
    {
        end += 1;
    }
    let name = string_of(&iter.chars, start, end);
    if end < iter.chars.len() && iter.chars[end] != ' ' {
        iter.reported.push(
            LexError {
                position: end,
                character: iter.chars[end],
                kind: LexErrorKind::InvalidInVariable,
            },
        );
        iter.pos = end + 1;
    } else {
        iter.pos = end;
    }
    name
}

/// The text of the comment at the cursor. The body of a comment is not
/// gathered: the text is empty and the cursor stays where it is.
pub fn handle_comment_line(iter: &mut CharCursor) -> (commented_line: String)
    ensures
        *final(iter) == *old(iter),
        commented_line@ == Seq::<char>::empty(),
{
    String::new()
}

/// Scans from the cursor to the end of the line and returns the tokens found.
/// The characters that fit no token are added to what the cursor reported.
pub fn tokenize_cursor(iter: &mut CharCursor) -> (tokens: Vec<ShellTokens>)
    requires
        old(iter).wf(),
    ensures
        final(iter).wf(),
        final(iter).text() == old(iter).text(),
        final(iter).word_flags() == old(iter).word_flags(),
        final(iter).index() == final(iter).text().len(),
        tokens_view(tokens@) == tokens_from(
            old(iter).text(),
            old(iter).word_flags(),
            old(iter).index(),
        ),
        final(iter).errors() == old(iter).errors() + errors_from(
            old(iter).text(),
            old(iter).word_flags(),
            old(iter).index(),
        ),
{
    let mut output_tokens: Vec<ShellTokens> = Vec::new();
    while iter.pos < iter.chars.len()
        invariant
            iter.wf(),
            iter.text() == old(iter).text(),
            iter.word_flags() == old(iter).word_flags(),
            old(iter).index() <= iter.index(),
            tokens_view(output_tokens@) + tokens_from(iter.text(), iter.word_flags(), iter.index())
                == tokens_from(old(iter).text(), old(iter).word_flags(), old(iter).index()),
            iter.errors() + errors_from(iter.text(), iter.word_flags(), iter.index()) == old(
                iter,
            ).errors() + errors_from(old(iter).text(), old(iter).word_flags(), old(iter).index()),
        decreases iter.chars.len() - iter.pos,
    {
        let ghost before = *iter;
        let ghost done = output_tokens@;
        proof {
            lemma_step_width(iter.chars@, iter.word@, iter.pos as int);
        }
        let c = iter.chars[iter.pos];
        let token: Option<ShellTokens> = if c == '$' {
            Some(ShellTokens::Variable(handle_variable(iter)))
        } else if c == '=' {
            iter.pos += 1;
            Some(ShellTokens::Assignment)
        } else if c == '|' {
            iter.pos += 1;
            Some(ShellTokens::Pipe)
        } else if c == '>' {
            iter.pos += 1;
            Some(ShellTokens::RedirectAsOutput)
        } else if c == '<' {
            iter.pos += 1;
            Some(ShellTokens::RedirectAsInput)
        } else if c == ' ' {
            iter.pos += 1;
            Some(ShellTokens::Whitespace)
        } else if c == '\'' {
            iter.pos += 1;
            Some(ShellTokens::SingleQuotes)
        } else if iter.word[iter.pos] {
            Some(ShellTokens::Word(handle_unreserved_chars(iter)))
        } else if c == '(' {
            iter.pos += 1;
            Some(ShellTokens::ParenthesesOpen)
        } else if c == ')' {
            iter.pos += 1;
            Some(ShellTokens::ParenthesesClose)
        } else if c == '"' {
            iter.pos += 1;
            Some(ShellTokens::DoubleQuotes)
        } else if c == '#' {
            let text = handle_comment_line(iter);
            iter.pos += 1;
            Some(ShellTokens::Comment(text))
        } else {
            iter.reported.push(
                LexError { position: iter.pos, character: c, kind: LexErrorKind::Unrecognized },
            );
            iter.pos += 1;
            None
        };
        proof {
            let step = step_at(before.text(), before.word_flags(), before.index());
            assert(iter.index() == before.index() + step.width);
            assert(iter.errors() == before.errors() + optional(step.error));
            assert(match token {
                Some(t) => Some(t@),
                None => None,
            } == step.token);
        }
        match token {
            Some(t) => {
                output_tokens.push(t);
                assert(tokens_view(output_tokens@) == tokens_view(done) + seq![t@]);
            },
            None => {},
        }
    }
    output_tokens
}

/// The tokens of `input`, in the order of the line.
pub fn tokenize_input_intermediate(input: &str) -> (tokens: Vec<ShellTokens>)
    ensures
        tokens_view(tokens@) == spec_tokenize(input@),
{
    let mut cursor = CharCursor::new(input);
    tokenize_cursor(&mut cursor)
}

/// The tokens of `input` and the characters that were reported and skipped,
/// each in the order of the line.
pub fn tokenize_with_diagnostics(input: &str) -> (result: (Vec<ShellTokens>, Vec<LexError>))
    ensures
        tokens_view(result.0@) == spec_tokenize(input@),
        result.1@ == spec_lex_errors(input@),
{
    let mut cursor = CharCursor::new(input);
    let tokens = tokenize_cursor(&mut cursor);
    (tokens, cursor.reported)
}

} // verus!
