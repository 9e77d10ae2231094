//! The structure of a command line: tokens become the stages of a pipeline.
//!
//! Pipes part the line into commands. In each command the first word is the
//! program and the words behind it are its arguments; a word behind a
//! redirection operator is the file of the command's redirection. A line that
//! does not follow this shape is rejected as a whole, so that nothing but a
//! complete pipeline is ever run.

use vstd::prelude::*;
use vstd::string::StringExecFns;
use crate::chars::strs_view;
use crate::parser::ParserError;
use crate::piping::{first_fault, pipeline_fault};
use crate::process::{
    redirection_view, stages_view, IoRedirection, ProcessToExec, Redirection, RedirectionModel,
    StageModel,
};
use crate::tokenizer::{tokens_view, ShellTokens, Token};
use crate::variables::VariableTable;

verus! {

/// A pipeline under construction: the stages that are complete, and the
/// parts of the command that is being read.
pub struct Building {
    /// The complete stages, in order.
    pub done: Seq<StageModel>,
    /// The program of the command being read, once its first word was seen.
    pub program: Option<Seq<char>>,
    /// The arguments of the command being read, so far.
    pub args: Seq<Seq<char>>,
    /// The redirection of the command being read, once it was seen.
    pub redirection: Option<RedirectionModel>,
    /// The redirection operator that still waits for its file.
    pub operator: Option<IoRedirection>,
    /// Whether the token just read was a `>` that may yet become `>>`.
    pub fresh: bool,
}

impl Building {
    /// Nothing has been read.
    pub open spec fn start() -> Building {
        Building {
            done: Seq::empty(),
            program: None,
            args: Seq::empty(),
            redirection: None,
            operator: None,
            fresh: false,
        }
    }

    /// The command being read is complete and becomes the next stage. It
    /// must have a program, no operator may wait for its file, and the
    /// position of the stage must fit its order.
    pub open spec fn close_stage(self) -> Result<Building, ParserError> {
        if self.operator is Some || self.program is None || self.done.len() > u16::MAX {
            Err(ParserError::UnexpectedInput)
        } else {
            Ok(
                Building {
                    done: self.done.push(
                        StageModel {
                            name: self.program->0,
                            path: self.program->0,
                            args: self.args,
                            order: self.done.len() as u16,
                            redirection: self.redirection,
                        },
                    ),
                    program: None,
                    args: Seq::empty(),
                    redirection: None,
                    operator: None,
                    fresh: false,
                },
            )
        }
    }

    /// A redirection operator was read. A command has one redirection at
    /// most, and an operator must find its file before the next one comes.
    /// The one exception: a `>` right behind a `>` makes the two the operator
    /// that appends.
    pub open spec fn operator_read(self, kind: IoRedirection) -> Result<Building, ParserError> {
        if self.redirection is Some {
            Err(ParserError::UnexpectedInput)
        } else if self.operator is None {
            Ok(
                Building {
                    operator: Some(kind),
                    fresh: kind == IoRedirection::OverwriteToFile,
                    ..self
                },
            )
        } else if self.fresh && self.operator == Some(IoRedirection::OverwriteToFile) && kind
            == IoRedirection::OverwriteToFile {
            Ok(Building { operator: Some(IoRedirection::AppendToFile), fresh: false, ..self })
        } else {
            Err(ParserError::UnexpectedInput)
        }
    }

    /// A word was read: the file of the operator that waits for one, else the
    /// program of the command if it has none yet, else one more argument.
    /// An empty word is no word.
    pub open spec fn word_read(self, word: Seq<char>) -> Result<Building, ParserError> {
        if word.len() == 0 {
            Err(ParserError::UnexpectedInput)
        } else if self.operator is Some {
            Ok(
                Building {
                    redirection: Some(RedirectionModel { kind: self.operator->0, path: word }),
                    operator: None,
                    fresh: false,
                    ..self
                },
            )
        } else if self.program is None {
            Ok(Building { program: Some(word), fresh: false, ..self })
        } else {
            Ok(Building { args: self.args.push(word), fresh: false, ..self })
        }
    }

    /// One more token was read. Whitespace only parts words and operators. A
    /// pipe completes the command. `>` is the operator that overwrites, `<`
    /// the operator that reads. Every other token is out of place.
    pub open spec fn feed(self, token: Token) -> Result<Building, ParserError> {
        match token {
            Token::Whitespace => Ok(Building { fresh: false, ..self }),
            Token::Word(word) => self.word_read(word),
            Token::Pipe => self.close_stage(),
            Token::RedirectAsOutput => self.operator_read(IoRedirection::OverwriteToFile),
            Token::RedirectAsInput => self.operator_read(IoRedirection::InputFromFile),
            _ => Err(ParserError::UnexpectedInput),
        }
    }

    /// What holds of a pipeline under construction: each complete stage has
    /// a program and carries its position, and so will the next.
    pub open spec fn sound(self) -> bool {
        &&& first_fault(self.done, 0) is None
        &&& self.program matches Some(program) ==> program.len() > 0
    }
}

/// The pipeline that the tokens from index `i` on complete, given what the
/// tokens before them have built.
pub open spec fn parse_from(building: Building, tokens: Seq<Token>, i: int) -> Result<
    Seq<StageModel>,
    ParserError,
>
    decreases tokens.len() - i,
{
    if 0 <= i < tokens.len() {
        match building.feed(tokens[i]) {
            Ok(next) => parse_from(next, tokens, i + 1),
            Err(e) => Err(e),
        }
    } else {
        match building.close_stage() {
            Ok(end) => Ok(end.done),
            Err(e) => Err(e),
        }
    }
}

/// The pipeline that a line of tokens stands for, or the error if it stands
/// for none.
pub open spec fn spec_parse_pipeline(tokens: Seq<Token>) -> Result<Seq<StageModel>, ParserError> {
    parse_from(Building::start(), tokens, 0)
}

/// No stage is faulty up to the end of a list to which a stage without
/// fault was added.
pub proof fn lemma_first_fault_push(stages: Seq<StageModel>, stage: StageModel, from: int)
    requires
        0 <= from <= stages.len(),
        first_fault(stages, from) is None,
        stage.path.len() > 0,
        stage.order == stages.len(),
    ensures
        first_fault(stages.push(stage), from) is None,
    decreases stages.len() - from,
{
    let longer = stages.push(stage);
    if from < stages.len() {
        assert(longer[from] == stages[from]);
        lemma_first_fault_push(stages, stage, from + 1);
    } else {
        assert(longer[from] == stage);
        assert(first_fault(longer, from + 1) is None);
    }
}

/// Reading a token keeps a pipeline under construction sound.
pub proof fn lemma_feed_keeps_sound(building: Building, token: Token)
    requires
        building.sound(),
    ensures
        building.feed(token) matches Ok(next) ==> next.sound(),
        building.close_stage() matches Ok(next) ==> next.sound() && next.done.len() > 0,
{
    if building.close_stage() is Ok {
        let next = building.close_stage()->Ok_0;
        lemma_first_fault_push(building.done, next.done.last(), 0);
    }
}

/// The pipeline that the rest of the tokens completes is without fault, if
/// what was built so far is sound.
pub proof fn lemma_parse_from_sound(building: Building, tokens: Seq<Token>, i: int)
    requires
        building.sound(),
        0 <= i <= tokens.len(),
    ensures
        parse_from(building, tokens, i) matches Ok(stages) ==> pipeline_fault(stages) is None,
    decreases tokens.len() - i,
{
    if i < tokens.len() {
        lemma_feed_keeps_sound(building, tokens[i]);
        if building.feed(tokens[i]) is Ok {
            lemma_parse_from_sound(building.feed(tokens[i])->Ok_0, tokens, i + 1);
        }
    } else {
        lemma_feed_keeps_sound(building, Token::Whitespace);
    }
}

/// Law of the complete pipeline: what a line of tokens parses to is a
/// pipeline without fault. It has at least one stage, and each stage names a
/// program and carries its position as its order.
pub proof fn lemma_parsed_pipeline_is_sound(tokens: Seq<Token>)
    ensures
        spec_parse_pipeline(tokens) matches Ok(stages) ==> pipeline_fault(stages) is None,
{
    lemma_parse_from_sound(Building::start(), tokens, 0);
}

/// Law of the empty segment: a line in which a command is missing before a
/// pipe or before the end of the line, with nothing or only whitespace in its
/// place, is rejected. Two pipes in a row are such a line.
pub proof fn lemma_empty_segment_rejected(
    building: Building,
    blanks: nat,
    tokens: Seq<Token>,
    i: int,
)
    requires
        0 <= i,
        i + blanks <= tokens.len(),
        forall|j: int| i <= j < i + blanks ==> tokens[j] == Token::Whitespace,
        i + blanks == tokens.len() || tokens[i + blanks] == Token::Pipe,
        building.program is None,
    ensures
        parse_from(building, tokens, i) == Err::<Seq<StageModel>, _>(
            ParserError::UnexpectedInput,
        ),
    decreases blanks,
{
    if blanks > 0 {
        lemma_empty_segment_rejected(
            building.feed(tokens[i])->Ok_0,
            (blanks - 1) as nat,
            tokens,
            i + 1,
        );
    }
}

/// Law of the missing file: a line in which a redirection operator finds no
/// file, because a pipe or the end of the line comes first, is rejected.
pub proof fn lemma_operator_without_file_rejected(
    building: Building,
    blanks: nat,
    tokens: Seq<Token>,
    i: int,
)
    requires
        0 <= i,
        i + blanks <= tokens.len(),
        forall|j: int| i <= j < i + blanks ==> tokens[j] == Token::Whitespace,
        i + blanks == tokens.len() || tokens[i + blanks] == Token::Pipe,
        building.operator is Some,
    ensures
        parse_from(building, tokens, i) == Err::<Seq<StageModel>, _>(
            ParserError::UnexpectedInput,
        ),
    decreases blanks,
{
    if blanks > 0 {
        lemma_operator_without_file_rejected(
            building.feed(tokens[i])->Ok_0,
            (blanks - 1) as nat,
            tokens,
            i + 1,
        );
    }
}

/// What reading all of `tokens` makes of a pipeline under construction.
pub open spec fn feed_all(building: Building, tokens: Seq<Token>) -> Result<Building, ParserError>
    decreases tokens.len(),
{
    if tokens.len() == 0 {
        Ok(building)
    } else {
        match building.feed(tokens[0]) {
            Ok(next) => feed_all(next, tokens.drop_first()),
            Err(e) => Err(e),
        }
    }
}

/// The words of a command as tokens, one whitespace between each two.
pub open spec fn spaced_words(words: Seq<Seq<char>>) -> Seq<Token>
    decreases words.len(),
{
    if words.len() == 0 {
        Seq::empty()
    } else if words.len() == 1 {
        seq![Token::Word(words[0])]
    } else {
        spaced_words(words.drop_last()) + seq![Token::Whitespace, Token::Word(words.last())]
    }
}

/// Reading one sequence of tokens and then another is reading the two as one.
pub proof fn lemma_feed_all_concat(building: Building, first: Seq<Token>, second: Seq<Token>)
    ensures
        feed_all(building, first + second) == match feed_all(building, first) {
            Ok(next) => feed_all(next, second),
            Err(e) => Err(e),
        },
    decreases first.len(),
{
    if first.len() == 0 {
        assert(first + second =~= second);
    } else {
        assert((first + second)[0] == first[0]);
        assert((first + second).drop_first() =~= first.drop_first() + second);
        if building.feed(first[0]) is Ok {
            lemma_feed_all_concat(building.feed(first[0])->Ok_0, first.drop_first(), second);
        }
    }
}

/// Parsing from an index on is reading the tokens from there on and then
/// completing the last command.
pub proof fn lemma_parse_from_reads_all(building: Building, tokens: Seq<Token>, i: int)
    requires
        0 <= i <= tokens.len(),
    ensures
        parse_from(building, tokens, i) == match feed_all(building, tokens.skip(i)) {
            Ok(read) => match read.close_stage() {
                Ok(end) => Ok(end.done),
                Err(e) => Err(e),
            },
            Err(e) => Err(e),
        },
    decreases tokens.len() - i,
{
    if i < tokens.len() {
        assert(tokens.skip(i)[0] == tokens[i]);
        assert(tokens.skip(i).drop_first() =~= tokens.skip(i + 1));
        if building.feed(tokens[i]) is Ok {
            lemma_parse_from_reads_all(building.feed(tokens[i])->Ok_0, tokens, i + 1);
        }
    }
}

/// The words of a command, read at the start of a command, give the command
/// its program and its arguments.
pub proof fn lemma_words_fill_command(building: Building, words: Seq<Seq<char>>)
    requires
        words.len() >= 1,
        forall|i: int| 0 <= i < words.len() ==> (#[trigger] words[i]).len() > 0,
        building.program is None,
        building.operator is None,
    ensures
        feed_all(building, spaced_words(words)) == Ok::<_, ParserError>(
            Building {
                program: Some(words[0]),
                args: building.args + words.skip(1),
                fresh: false,
                ..building
            },
        ),
    decreases words.len(),
{
    reveal_with_fuel(feed_all, 3);
    if words.len() == 1 {
        let tokens = spaced_words(words);
        assert(tokens.drop_first() =~= Seq::<Token>::empty());
        assert(words.skip(1) =~= Seq::<Seq<char>>::empty());
        assert(building.args + words.skip(1) =~= building.args);
    } else {
        let front = words.drop_last();
        let tail = seq![Token::Whitespace, Token::Word(words.last())];
        lemma_words_fill_command(building, front);
        lemma_feed_all_concat(building, spaced_words(front), tail);
        let read = feed_all(building, spaced_words(front))->Ok_0;
        assert(read.program == Some(words[0]));
        let spaced = read.feed(Token::Whitespace)->Ok_0;
        assert(tail.drop_first() =~= seq![Token::Word(words.last())]);
        assert(tail.drop_first().drop_first() =~= Seq::<Token>::empty());
        let last = spaced.feed(Token::Word(words.last()))->Ok_0;
        assert(feed_all(read, tail) == Ok::<_, ParserError>(last));
        assert(last.args =~= building.args + words.skip(1)) by {
            assert(words.skip(1) =~= front.skip(1).push(words.last()));
        }
    }
}

/// Law of the simple command: a line of words with one whitespace between
/// each two is a pipeline of one stage. The first word is its program, the
/// words behind it are its arguments, and it has no redirection.
pub proof fn lemma_simple_command(words: Seq<Seq<char>>)
    requires
        words.len() >= 1,
        forall|i: int| 0 <= i < words.len() ==> (#[trigger] words[i]).len() > 0,
    ensures
        spec_parse_pipeline(spaced_words(words)) == Ok::<_, ParserError>(
            seq![
                StageModel {
                    name: words[0],
                    path: words[0],
                    args: words.skip(1),
                    order: 0,
                    redirection: None,
                },
            ],
        ),
{
    let tokens = spaced_words(words);
    lemma_parse_from_reads_all(Building::start(), tokens, 0);
    assert(tokens.skip(0) =~= tokens);
    lemma_words_fill_command(Building::start(), words);
    let read = feed_all(Building::start(), tokens)->Ok_0;
    assert(Seq::<Seq<char>>::empty() + words.skip(1) =~= words.skip(1));
    if words.len() == 1 {
        assert(words.skip(1) =~= Seq::<Seq<char>>::empty());
    }
    assert(read.args =~= words.skip(1));
    let end = read.close_stage()->Ok_0;
    assert(end.done =~= seq![
        StageModel {
            name: words[0],
            path: words[0],
            args: words.skip(1),
            order: 0,
            redirection: None,
        },
    ]);
}

/// Law of the pipe: a line is a pipeline of the given stages exactly when, a
/// pipe added behind it, it has built these stages and waits for the next
/// command. So what follows a pipe is parsed as the stages behind those
/// before it.
pub proof fn lemma_pipe_completes_stage(tokens: Seq<Token>, stages: Seq<StageModel>)
    ensures
        spec_parse_pipeline(tokens) == Ok::<_, ParserError>(stages) <==> feed_all(
            Building::start(),
            tokens + seq![Token::Pipe],
        ) == Ok::<_, ParserError>(Building { done: stages, ..Building::start() }),
{
    reveal_with_fuel(feed_all, 2);
    let start = Building::start();
    lemma_parse_from_reads_all(start, tokens, 0);
    assert(tokens.skip(0) =~= tokens);
    lemma_feed_all_concat(start, tokens, seq![Token::Pipe]);
    assert(seq![Token::Pipe].drop_first() =~= Seq::<Token>::empty());
    if feed_all(start, tokens) is Ok {
        let read = feed_all(start, tokens)->Ok_0;
        assert(feed_all(read, seq![Token::Pipe]) == read.close_stage());
    }
}

/// The stage that a complete command makes.
fn make_stage<'a>(
    program: &'a str,
    args: Vec<&'a str>,
    redirection: Option<Redirection>,
    order: u16,
) -> (stage: ProcessToExec<'a>)
    ensures
        stage@ == (StageModel {
            name: program@,
            path: program@,
            args: strs_view(args@),
            order,
            redirection: redirection_view(redirection),
        }),
{
    let stage = ProcessToExec::new(String::from_str(program), program, args, order);
    match redirection {
        Some(r) => stage.redirected(r),
        None => stage,
    }
}

/// The text of an optional string slice.
pub open spec fn optional_text(text: Option<&str>) -> Option<Seq<char>> {
    match text {
        Some(t) => Some(t@),
        None => None,
    }
}

/// Parses a line of tokens into the stages of a pipeline: see
/// [`spec_parse_pipeline`]. The stages borrow their texts from the tokens.
pub fn parse_pipeline<'a>(tokens: &'a Vec<ShellTokens>) -> (r: Result<
    Vec<ProcessToExec<'a>>,
    ParserError,
>)
    ensures
        match r {
            Ok(stages) => spec_parse_pipeline(tokens_view(tokens@)) == Ok::<_, ParserError>(
                stages_view(stages@),
            ),
            Err(e) => spec_parse_pipeline(tokens_view(tokens@)) == Err::<Seq<StageModel>, _>(e),
        },
{
    let ghost line = tokens_view(tokens@);
    let mut done: Vec<ProcessToExec<'a>> = Vec::new();
    let mut program: Option<&'a str> = None;
    let mut args: Vec<&'a str> = Vec::new();
    let mut redirection: Option<Redirection> = None;
    let mut operator: Option<IoRedirection> = None;
    let mut fresh: bool = false;
    let mut i: usize = 0;
    assert(stages_view(done@) =~= Seq::<StageModel>::empty());
    assert(strs_view(args@) =~= Seq::<Seq<char>>::empty());
    loop
        invariant
            i <= tokens.len(),
            line == tokens_view(tokens@),
            parse_from(
                Building {
                    done: stages_view(done@),
                    program: optional_text(program),
                    args: strs_view(args@),
                    redirection: redirection_view(redirection),
                    operator,
                    fresh,
                },
                line,
                i as int,
            ) == spec_parse_pipeline(line),
        decreases tokens.len() - i,
    {
        let at_end = i >= tokens.len();
        let closes = at_end || matches!(tokens[i], ShellTokens::Pipe);
        if closes {
            if operator.is_some() || done.len() > 65535 {
                return Err(ParserError::UnexpectedInput);
            }
            let name = match program {
                Some(name) => name,
                None => {
                    return Err(ParserError::UnexpectedInput);
                },
            };
            let ghost before = stages_view(done@);
            let stage = make_stage(name, args, redirection, done.len() as u16);
            done.push(stage);
            assert(stages_view(done@) =~= before.push(stage@));
            if at_end {
                return Ok(done);
            }
            program = None;
            args = Vec::new();
            redirection = None;
            fresh = false;
            assert(strs_view(args@) =~= Seq::<Seq<char>>::empty());
        } else {
            assert(line[i as int] == tokens@[i as int]@);
            match &tokens[i] {
                ShellTokens::Whitespace => {
                    fresh = false;
                },
                ShellTokens::Word(word) => {
                    let text: &'a str = word.as_str();
                    if text.is_empty() {
                        return Err(ParserError::UnexpectedInput);
                    }
                    match operator {
                        Some(kind) => {
                            redirection = Some(Redirection { kind, path: String::from_str(text) });
                            operator = None;
                            fresh = false;
                        },
                        None => {
                            if program.is_none() {
                                program = Some(text);
                            } else {
                                let ghost before = strs_view(args@);
                                args.push(text);
                                assert(strs_view(args@) =~= before.push(text@));
                            }
                            fresh = false;
                        },
                    }
                },
                ShellTokens::RedirectAsOutput => {
                    if redirection.is_some() {
                        return Err(ParserError::UnexpectedInput);
                    }
                    match operator {
                        None => {
                            operator = Some(IoRedirection::OverwriteToFile);
                            fresh = true;
                        },
                        Some(IoRedirection::OverwriteToFile) => {
                            if !fresh {
                                return Err(ParserError::UnexpectedInput);
                            }
                            operator = Some(IoRedirection::AppendToFile);
                            fresh = false;
                        },
                        Some(_) => {
                            return Err(ParserError::UnexpectedInput);
                        },
                    }
                },
                ShellTokens::RedirectAsInput => {
                    if redirection.is_some() || operator.is_some() {
                        return Err(ParserError::UnexpectedInput);
                    }
                    operator = Some(IoRedirection::InputFromFile);
                    fresh = false;
                },
                _ => {
                    return Err(ParserError::UnexpectedInput);
                },
            }
        }
        i += 1;
    }
}

/// The tokens of a line in which each reference to a variable has given way
/// to a word that holds the variable's value; the error if a variable that
/// is referred to is not bound.
pub open spec fn spec_substitute(
    tokens: Seq<Token>,
    bindings: Map<Seq<char>, Seq<char>>,
) -> Result<Seq<Token>, ParserError>
    decreases tokens.len(),
{
    if tokens.len() == 0 {
        Ok(Seq::empty())
    } else {
        match spec_substitute(tokens.drop_last(), bindings) {
            Ok(front) => match tokens.last() {
                Token::Variable(name) => if bindings.contains_key(name) {
                    Ok(front.push(Token::Word(bindings[name])))
                } else {
                    Err(ParserError::UnexpectedInput)
                },
                other => Ok(front.push(other)),
            },
            Err(e) => Err(e),
        }
    }
}

/// Once a reference to an unbound variable has been met, the line is
/// rejected however it goes on.
pub proof fn lemma_substitute_error_stays(
    tokens: Seq<Token>,
    bindings: Map<Seq<char>, Seq<char>>,
    n: int,
)
    requires
        0 <= n <= tokens.len(),
        spec_substitute(tokens.take(n), bindings) is Err,
    ensures
        spec_substitute(tokens, bindings) == spec_substitute(tokens.take(n), bindings),
    decreases tokens.len() - n,
{
    if n < tokens.len() {
        assert(tokens.take(n + 1).drop_last() =~= tokens.take(n));
        lemma_substitute_error_stays(tokens, bindings, n + 1);
    } else {
        assert(tokens.take(n) =~= tokens);
    }
}

/// Resolves the references to variables in a line of tokens: see
/// [`spec_substitute`].
pub fn substitute_variables(tokens: Vec<ShellTokens>, variables: &VariableTable) -> (r: Result<
    Vec<ShellTokens>,
    ParserError,
>)
    ensures
        match r {
            Ok(resolved) => spec_substitute(tokens_view(tokens@), variables@) == Ok::<
                _,
                ParserError,
            >(tokens_view(resolved@)),
            Err(e) => spec_substitute(tokens_view(tokens@), variables@) == Err::<Seq<Token>, _>(e),
        },
{
    let ghost line = tokens_view(tokens@);
    let mut resolved: Vec<ShellTokens> = Vec::new();
    let mut i: usize = 0;
    assert(line.take(0) =~= Seq::<Token>::empty());
    assert(tokens_view(resolved@) =~= Seq::<Token>::empty());
    while i < tokens.len()
        invariant
            i <= tokens.len(),
            line == tokens_view(tokens@),
            spec_substitute(line.take(i as int), variables@) == Ok::<_, ParserError>(
                tokens_view(resolved@),
            ),
        decreases tokens.len() - i,
    {
        let ghost before = tokens_view(resolved@);
        proof {
            assert(line.take(i + 1).drop_last() =~= line.take(i as int));
            assert(line.take(i + 1).last() == tokens@[i as int]@);
        }
        let token = match &tokens[i] {
            ShellTokens::Variable(name) => match variables.lookup(name.as_str()) {
                Some(value) => ShellTokens::Word(value),
                None => {
                    proof {
                        lemma_substitute_error_stays(line, variables@, i + 1);
                    }
                    return Err(ParserError::UnexpectedInput);
                },
            },
            ShellTokens::Word(text) => ShellTokens::Word(text.clone()),
            ShellTokens::Comment(text) => ShellTokens::Comment(text.clone()),
            ShellTokens::Pipe => ShellTokens::Pipe,
            ShellTokens::RedirectAsInput => ShellTokens::RedirectAsInput,
            ShellTokens::RedirectAsOutput => ShellTokens::RedirectAsOutput,
            ShellTokens::DoubleQuotes => ShellTokens::DoubleQuotes,
            ShellTokens::SingleQuotes => ShellTokens::SingleQuotes,
            ShellTokens::ParenthesesOpen => ShellTokens::ParenthesesOpen,
            ShellTokens::ParenthesesClose => ShellTokens::ParenthesesClose,
            ShellTokens::Assignment => ShellTokens::Assignment,
            ShellTokens::Escape => ShellTokens::Escape,
            ShellTokens::ReservedWord(word) => ShellTokens::ReservedWord(*word),
            ShellTokens::Whitespace => ShellTokens::Whitespace,
        };
        resolved.push(token);
        assert(tokens_view(resolved@) =~= before.push(token@));
        i += 1;
    }
    assert(line.take(tokens.len() as int) =~= line);
    Ok(resolved)
}

} // verus!
