//! The commands that the shell runs in its own process.
//!
//! `cd`, `pwd`, `echo` and `exit` act on the shell itself, so no process is
//! made for them. The functions here decide what is to be done and what is to
//! be printed; printing and leaving the process are the caller's part.

use vstd::prelude::*;
use vstd::string::StringExecFns;
use vstd::string::StrSliceExecFns;
use crate::chars::{
    classify_whitespace, collect_chars, same_text, strs_view, whitespace_flags,
};
use crate::error::FsError;
use crate::fs::get_cwd_impl;

verus! {

/// A command line split into its command and the arguments of the command.
pub struct TokenizedOutput<'a> {
    pub command: &'a str,
    pub args: Vec<&'a str>,
}

/// What the shell is to do for a command line.
#[derive(Debug, PartialEq, Eq)]
pub enum BuiltinAction {
    /// Print the text on standard output, followed by a line break.
    Print(String),
    /// Print the farewell on standard output and leave with the status.
    Exit { farewell: String, status: i32 },
    /// Fetch the working directory and print it.
    PrintWorkingDir,
    /// Make the path the working directory.
    ChangeDir(String),
    /// The command was misused: print the text on standard error, do nothing else.
    Usage(String),
    /// The command is not one of the shell's own: run it as a process.
    Spawn,
}

/// The mathematical value of a [`BuiltinAction`].
pub enum Builtin {
    Print(Seq<char>),
    Exit { farewell: Seq<char>, status: i32 },
    PrintWorkingDir,
    ChangeDir(Seq<char>),
    Usage(Seq<char>),
    Spawn,
}

impl View for BuiltinAction {
    type V = Builtin;

    open spec fn view(&self) -> Builtin {
        match *self {
            BuiltinAction::Print(text) => Builtin::Print(text@),
            BuiltinAction::Exit { farewell, status } => Builtin::Exit {
                farewell: farewell@,
                status,
            },
            BuiltinAction::PrintWorkingDir => Builtin::PrintWorkingDir,
            BuiltinAction::ChangeDir(path) => Builtin::ChangeDir(path@),
            BuiltinAction::Usage(text) => Builtin::Usage(text@),
            BuiltinAction::Spawn => Builtin::Spawn,
        }
    }
}

/// What a command of the shell's own has to say when it is done.
#[derive(Debug, PartialEq, Eq)]
pub enum Report {
    /// A line for standard output.
    Stdout(String),
    /// A diagnostic for standard error.
    Stderr(String),
    /// Nothing.
    Silent,
}

/// The mathematical value of a [`Report`].
pub enum ReportText {
    Stdout(Seq<char>),
    Stderr(Seq<char>),
    Silent,
}

impl View for Report {
    type V = ReportText;

    open spec fn view(&self) -> ReportText {
        match *self {
            Report::Stdout(text) => ReportText::Stdout(text@),
            Report::Stderr(text) => ReportText::Stderr(text@),
            Report::Silent => ReportText::Silent,
        }
    }
}

/// The texts of `parts` one behind the other, with nothing between them.
pub open spec fn joined(parts: Seq<Seq<char>>) -> Seq<char>
    decreases parts.len(),
{
    if parts.len() == 0 {
        Seq::empty()
    } else {
        joined(parts.drop_last()) + parts.last()
    }
}

/// Whether `command` names a command that the shell runs in its own process.
pub open spec fn is_builtin(command: Seq<char>) -> bool {
    command == "echo"@ || command == "exit"@ || command == "pwd"@ || command == "cd"@
}

/// What the shell does for `command` with `args`.
///
/// `echo` prints its arguments joined without separator. `exit` says `bye`
/// and leaves with status 0. `pwd` prints the working directory, whatever its
/// arguments. `cd` takes exactly one argument, the path to enter; with any
/// other number of arguments it reports `Invalid Length` and changes nothing.
/// Every other command is run as a process.
pub open spec fn dispatch(command: Seq<char>, args: Seq<Seq<char>>) -> Builtin {
    if command == "echo"@ {
        Builtin::Print(joined(args))
    } else if command == "exit"@ {
        Builtin::Exit { farewell: "bye"@, status: 0 }
    } else if command == "pwd"@ {
        Builtin::PrintWorkingDir
    } else if command == "cd"@ {
        if args.len() == 1 {
            Builtin::ChangeDir(args[0])
        } else {
            Builtin::Usage("Invalid Length"@)
        }
    } else {
        Builtin::Spawn
    }
}

/// What `pwd` reports, given what fetching the working directory came to.
pub open spec fn pwd_reports(cwd: Result<String, FsError>) -> ReportText {
    match cwd {
        Ok(path) => ReportText::Stdout(path@),
        Err(e) => ReportText::Stderr(e.message()),
    }
}

/// What `cd` reports, given what changing the working directory came to.
pub open spec fn cd_reports(changed: Result<(), FsError>) -> ReportText {
    match changed {
        Ok(_) => ReportText::Silent,
        Err(e) => ReportText::Stderr(e.message()),
    }
}

/// The arguments joined without separator.
pub fn concat_args(args: &Vec<&str>) -> (text: String)
    ensures
        text@ == joined(strs_view(args@)),
{
    let mut text = String::new();
    let mut i: usize = 0;
    while i < args.len()
        invariant
            i <= args.len(),
            text@ == joined(strs_view(args@).take(i as int)),
        decreases args.len() - i,
    {
        proof {
            let parts = strs_view(args@);
            assert(parts.take(i + 1).drop_last() =~= parts.take(i as int));
            assert(parts.take(i + 1).last() == args@[i as int]@);
        }
        text.append(args[i]);
        i += 1;
    }
    assert(strs_view(args@).take(args.len() as int) =~= strs_view(args@));
    text
}

/// How many characters from index `from` on are no whitespace, up to the
/// first that is; `space` flags the whitespace.
pub open spec fn solid_len(space: Seq<bool>, from: int) -> nat
    decreases space.len() - from,
{
    if 0 <= from < space.len() && !space[from] {
        1 + solid_len(space, from + 1)
    } else {
        0
    }
}

/// The words of a line from index `i` on: the maximal runs of characters
/// that are no whitespace, in order. `space` flags the whitespace.
pub open spec fn words_from(chars: Seq<char>, space: Seq<bool>, i: int) -> Seq<Seq<char>>
    decreases chars.len() - i,
{
    if 0 <= i < chars.len() && space.len() == chars.len() {
        if space[i] {
            words_from(chars, space, i + 1)
        } else {
            let n = solid_len(space, i);
            if 0 < n <= chars.len() - i {
                seq![chars.subrange(i, i + n)] + words_from(chars, space, i + n)
            } else {
                Seq::empty()
            }
        }
    } else {
        Seq::empty()
    }
}

/// The words of a line, whitespace being what Unicode calls so.
pub open spec fn whitespace_words(line: Seq<char>) -> Seq<Seq<char>> {
    words_from(line, whitespace_flags(line), 0)
}

/// A run of characters that are no whitespace ends inside the line.
pub proof fn lemma_solid_len_bound(space: Seq<bool>, from: int)
    requires
        0 <= from <= space.len(),
    ensures
        from + solid_len(space, from) <= space.len(),
    decreases space.len() - from,
{
    if from < space.len() && !space[from] {
        lemma_solid_len_bound(space, from + 1);
    }
}

/// The words of `line`, given for each of its characters whether it is
/// whitespace: see [`words_from`]. Without a flag for each character there
/// are no words.
pub fn split_at_flags<'a>(line: &'a str, space: &Vec<bool>) -> (words: Vec<&'a str>)
    ensures
        strs_view(words@) == words_from(line@, space@, 0),
{
    let mut words: Vec<&'a str> = Vec::new();
    let count = line.unicode_len();
    assert(strs_view(words@) =~= Seq::<Seq<char>>::empty());
    if space.len() != count {
        return words;
    }
    let mut i: usize = 0;
    while i < count
        invariant
            count == line@.len(),
            space@.len() == count,
            i <= count,
            strs_view(words@) + words_from(line@, space@, i as int) == words_from(
                line@,
                space@,
                0,
            ),
        decreases count - i,
    {
        if space[i] {
            i += 1;
        } else {
            let start = i;
            while i < count && !space[i]
                invariant
                    space@.len() == count,
                    start <= i <= count,
                    i - start + solid_len(space@, i as int) == solid_len(space@, start as int),
                decreases count - i,
            {
                i += 1;
            }
            proof {
                lemma_solid_len_bound(space@, start as int);
            }
            let ghost before = strs_view(words@);
            let word = line.substring_char(start, i);
            words.push(word);
            assert(strs_view(words@) =~= before.push(word@));
            assert(before.push(word@) + words_from(line@, space@, i as int) =~= before + (seq![
                word@,
            ] + words_from(line@, space@, i as int)));
        }
    }
    assert(strs_view(words@) + Seq::<Seq<char>>::empty() =~= strs_view(words@));
    words
}

/// The words of `line`: its maximal runs of characters that are no
/// whitespace, in order.
pub fn split_words<'a>(line: &'a str) -> (words: Vec<&'a str>)
    ensures
        strs_view(words@) == whitespace_words(line@),
{
    let chars = collect_chars(line);
    let space = classify_whitespace(&chars);
    split_at_flags(line, &space)
}

/// The command and the arguments that a sequence of words stands for: the
/// first word is the command, the others are its arguments. Where there is no
/// word, the command is the text `No command passed!` and has no arguments.
pub open spec fn spec_command_and_args(words: Seq<Seq<char>>) -> (Seq<char>, Seq<Seq<char>>) {
    if words.len() == 0 {
        ("No command passed!"@, Seq::empty())
    } else {
        (words[0], words.skip(1))
    }
}

/// Splits a sequence of words into the command and its arguments: see
/// [`spec_command_and_args`].
pub fn command_and_args<'a>(words: Vec<&'a str>) -> (out: TokenizedOutput<'a>)
    ensures
        (out.command@, strs_view(out.args@)) == spec_command_and_args(strs_view(words@)),
{
    if words.len() == 0 {
        return TokenizedOutput { command: "No command passed!", args: Vec::new() };
    }
    let command = words[0];
    let mut args: Vec<&'a str> = Vec::new();
    let mut i: usize = 1;
    while i < words.len()
        invariant
            1 <= i <= words.len(),
            strs_view(args@) == strs_view(words@).subrange(1, i as int),
        decreases words.len() - i,
    {
        let ghost before = args@;
        args.push(words[i]);
        assert(strs_view(args@) =~= strs_view(before).push(words@[i as int]@));
        assert(strs_view(args@) =~= strs_view(words@).subrange(1, i + 1));
        i += 1;
    }
    assert(strs_view(words@).subrange(1, words.len() as int) =~= strs_view(words@).skip(1));
    TokenizedOutput { command, args }
}

/// Splits a line at its whitespace into the command and its arguments.
pub fn tokenize_input<'a>(input_line: &'a String) -> (out: TokenizedOutput<'a>)
    ensures
        (out.command@, strs_view(out.args@)) == spec_command_and_args(
            whitespace_words(input_line@),
        ),
{
    command_and_args(split_words(input_line.as_str()))
}

/// Decides what the shell does for `command` with `args`: see [`dispatch`].
pub fn dispatch_command(command: &str, args: &Vec<&str>) -> (action: BuiltinAction)
    ensures
        action@ == dispatch(command@, strs_view(args@)),
{
    if same_text(command, "echo") {
        BuiltinAction::Print(concat_args(args))
    } else if same_text(command, "exit") {
        BuiltinAction::Exit { farewell: String::from_str("bye"), status: 0 }
    } else if same_text(command, "pwd") {
        BuiltinAction::PrintWorkingDir
    } else if same_text(command, "cd") {
        if args.len() == 1 {
            BuiltinAction::ChangeDir(String::from_str(args[0]))
        } else {
            BuiltinAction::Usage(String::from_str("Invalid Length"))
        }
    } else {
        BuiltinAction::Spawn
    }
}

/// Decides what the shell does for a command line: see [`dispatch`].
pub fn match_expression(tokens: TokenizedOutput) -> (action: BuiltinAction)
    ensures
        action@ == dispatch(tokens.command@, strs_view(tokens.args@)),
{
    dispatch_command(tokens.command, &tokens.args)
}

/// What `pwd` reports: the working directory on standard output, or the
/// error's message on standard error.
pub fn pwd_report(cwd: Result<String, FsError>) -> (report: Report)
    ensures
        report@ == pwd_reports(cwd),
{
    match cwd {
        Ok(path) => Report::Stdout(path),
        Err(e) => Report::Stderr(e.to_string()),
    }
}

/// What `cd` reports: nothing when the directory was entered, else the
/// error's message on standard error.
pub fn cd_report(changed: Result<(), FsError>) -> (report: Report)
    ensures
        report@ == cd_reports(changed),
{
    match changed {
        Ok(_) => Report::Silent,
        Err(e) => Report::Stderr(e.to_string()),
    }
}

/// The text that stands for the directory the shell starts in, given what
/// fetching the working directory came to: the path, or the error's message.
pub fn startup_path_text(cwd: Result<String, FsError>) -> (text: String)
    ensures
        text@ == match cwd {
            Ok(path) => path@,
            Err(e) => e.message(),
        },
{
    match cwd {
        Ok(path) => path,
        Err(e) => e.to_string(),
    }
}

/// The directory the shell starts in, as text; where it cannot be fetched,
/// the message of the error. Which of the two it is, and which directory, is
/// the answer of the operating system; [`startup_path_text`] says how the
/// text follows from that answer.
pub fn load_startup_path() -> (text: String) {
    startup_path_text(get_cwd_impl())
}

/// Law of `pwd`: whatever its arguments, `pwd` is run by the shell itself and
/// never as a process, and where the working directory can be fetched, what
/// it prints is that directory.
pub proof fn lemma_pwd_never_spawns(args: Seq<Seq<char>>, path: String)
    ensures
        dispatch("pwd"@, args) == Builtin::PrintWorkingDir,
        dispatch("pwd"@, args) != Builtin::Spawn,
        pwd_reports(Ok(path)) == ReportText::Stdout(path@),
{
    lemma_builtin_names_differ();
}

/// Law of `cd`: with no argument or with more than one, `cd` only reports its
/// misuse; it neither asks for a change of directory nor runs a process.
pub proof fn lemma_cd_usage(args: Seq<Seq<char>>)
    requires
        args.len() != 1,
    ensures
        dispatch("cd"@, args) == Builtin::Usage("Invalid Length"@),
        !(dispatch("cd"@, args) is ChangeDir),
        !(dispatch("cd"@, args) is Spawn),
{
    lemma_builtin_names_differ();
}

/// Law of the fall-through: a command is run as a process exactly when its
/// name is none of the names of the shell's own commands.
pub proof fn lemma_spawn_iff_not_builtin(command: Seq<char>, args: Seq<Seq<char>>)
    ensures
        dispatch(command, args) is Spawn <==> !is_builtin(command),
{
}

/// The names of the shell's own commands are four different texts.
pub proof fn lemma_builtin_names_differ()
    ensures
        "echo"@ != "exit"@,
        "echo"@ != "pwd"@,
        "echo"@ != "cd"@,
        "exit"@ != "pwd"@,
        "exit"@ != "cd"@,
        "pwd"@ != "cd"@,
{
    reveal_strlit("echo");
    reveal_strlit("exit");
    reveal_strlit("pwd");
    reveal_strlit("cd");
    assert("echo"@[1] != "exit"@[1]);
    assert("echo"@.len() != "pwd"@.len());
    assert("echo"@.len() != "cd"@.len());
    assert("exit"@.len() != "pwd"@.len());
    assert("exit"@.len() != "cd"@.len());
    assert("pwd"@.len() != "cd"@.len());
}

} // verus!
