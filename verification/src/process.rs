//! How a command becomes a process: which file is opened and how, what
//! standard input and standard output are wired to, which pipe ends are
//! closed, and which program is started with which arguments.
//!
//! Nothing here touches the operating system. Each function describes what a
//! freshly forked child has to do; the caller carries it out.

use vstd::prelude::*;
use vstd::string::StringExecFns;
use crate::chars::{strings_view, strs_view};

verus! {

/// The ways in which a file can take the place of a standard stream.
#[derive(Clone, Copy, Debug, PartialEq, Eq)]
pub enum IoRedirection {
    /// `<`: the file is read as standard input.
    InputFromFile,
    /// `>`: standard output replaces what the file held.
    OverwriteToFile,
    /// `>>`: standard output is added behind what the file holds.
    AppendToFile,
}

/// How the file of a redirection is opened.
#[derive(Clone, Copy, Debug, PartialEq, Eq)]
pub enum RedirectionFileType {
    ReadOnly,
    WriteOnly,
    Append,
}

/// A redirection: the file and the way it takes the place of a stream.
#[derive(Debug, PartialEq, Eq)]
pub struct Redirection {
    pub kind: IoRedirection,
    pub path: String,
}

/// The mathematical value of a [`Redirection`].
pub struct RedirectionModel {
    pub kind: IoRedirection,
    pub path: Seq<char>,
}

impl View for Redirection {
    type V = RedirectionModel;

    open spec fn view(&self) -> RedirectionModel {
        RedirectionModel { kind: self.kind, path: self.path@ }
    }
}

/// The value of an optional redirection.
pub open spec fn redirection_view(redirection: Option<Redirection>) -> Option<RedirectionModel> {
    match redirection {
        Some(r) => Some(r@),
        None => None,
    }
}

/// One stage of a pipeline.
pub struct ProcessToExec<'a> {
    /// name of running process
    process_name: String,
    /// path of binary of process
    process_path: &'a str,
    /// arguments passed to the command
    process_args: Vec<&'a str>,
    /// The order in which processes are arranged
    order: u16,
    /// the file that takes the place of a standard stream, if any
    redirection: Option<Redirection>,
}

/// The mathematical value of a [`ProcessToExec`].
pub struct StageModel {
    /// The name under which the process runs.
    pub name: Seq<char>,
    /// The path of the program.
    pub path: Seq<char>,
    /// The arguments of the command.
    pub args: Seq<Seq<char>>,
    /// The position of the stage in its pipeline, counted from 0.
    pub order: u16,
    /// The redirection of the stage, if it has one.
    pub redirection: Option<RedirectionModel>,
}

impl<'a> View for ProcessToExec<'a> {
    type V = StageModel;

    closed spec fn view(&self) -> StageModel {
        StageModel {
            name: self.process_name@,
            path: self.process_path@,
            args: strs_view(self.process_args@),
            order: self.order,
            redirection: redirection_view(self.redirection),
        }
    }
}

/// The values of a sequence of stages.
pub open spec fn stages_view(stages: Seq<ProcessToExec>) -> Seq<StageModel> {
    stages.map_values(|stage: ProcessToExec| stage@)
}

impl<'a> ProcessToExec<'a> {
    /// The name under which the process runs.
    pub open spec fn name(&self) -> Seq<char> {
        self@.name
    }

    /// The path of the program.
    pub open spec fn path(&self) -> Seq<char> {
        self@.path
    }

    /// The arguments of the command.
    pub open spec fn args(&self) -> Seq<Seq<char>> {
        self@.args
    }

    /// The position of the stage in its pipeline, counted from 0.
    pub open spec fn stage_index(&self) -> u16 {
        self@.order
    }

    /// The redirection of the stage, if it has one.
    pub open spec fn redirect(&self) -> Option<RedirectionModel> {
        self@.redirection
    }

    /// A stage without redirection.
    pub fn new(
        process_name: String,
        process_path: &'a str,
        process_args: Vec<&'a str>,
        order: u16,
    ) -> (stage: ProcessToExec<'a>)
        ensures
            stage@ == (StageModel {
                name: process_name@,
                path: process_path@,
                args: strs_view(process_args@),
                order,
                redirection: None,
            }),
    {
        ProcessToExec { process_name, process_path, process_args, order, redirection: None }
    }

    /// The same stage with `redirection` in place of the one it had, if any.
    pub fn redirected(self, redirection: Redirection) -> (stage: ProcessToExec<'a>)
        ensures
            stage@ == (StageModel { redirection: Some(redirection@), ..self@ }),
    {
        ProcessToExec {
            process_name: self.process_name,
            process_path: self.process_path,
            process_args: self.process_args,
            order: self.order,
            redirection: Some(redirection),
        }
    }

    /// The name under which the process runs.
    pub fn process_name(&self) -> (name: &str)
        ensures
            name@ == self.name(),
    {
        self.process_name.as_str()
    }

    /// The path of the program.
    pub fn process_path(&self) -> (path: &'a str)
        ensures
            path@ == self.path(),
    {
        self.process_path
    }

    /// The arguments of the command.
    pub fn process_args(&self) -> (args: &Vec<&'a str>)
        ensures
            strs_view(args@) == self.args(),
    {
        &self.process_args
    }

    /// The position of the stage in its pipeline, counted from 0.
    pub fn order(&self) -> (order: u16)
        ensures
            order == self.stage_index(),
    {
        self.order
    }

    /// The redirection of the stage, if it has one.
    pub fn redirection(&self) -> (redirection: &Option<Redirection>)
        ensures
            redirection_view(*redirection) == self.redirect(),
    {
        &self.redirection
    }
}

/// Whether a file is opened for reading or for writing.
#[derive(Clone, Copy, Debug, PartialEq, Eq)]
pub enum Access {
    ReadOnly,
    WriteOnly,
}

/// How a file is opened.
#[derive(Clone, Copy, Debug, PartialEq, Eq)]
pub struct OpenFlags {
    /// Reading or writing.
    pub access: Access,
    /// Make the file if it is not there.
    pub create: bool,
    /// Empty the file on opening it.
    pub truncate: bool,
    /// Write behind what the file holds.
    pub append: bool,
}

/// Who may do what with a file that opening it makes.
#[derive(Clone, Copy, Debug, PartialEq, Eq)]
pub struct FileMode {
    pub owner_read: bool,
    pub owner_write: bool,
}

/// A file to open: where, how, and with what access rights if it is made.
#[derive(Debug, PartialEq, Eq)]
pub struct OpenRequest {
    pub path: String,
    pub flags: OpenFlags,
    pub mode: FileMode,
}

/// How the file of a redirection is opened. A file to read is only read and
/// must exist. A file to write is made if it is not there; writing to it
/// either empties it first or adds behind what it holds.
pub open spec fn open_flags_for(file_type: RedirectionFileType) -> OpenFlags {
    match file_type {
        RedirectionFileType::ReadOnly => OpenFlags {
            access: Access::ReadOnly,
            create: false,
            truncate: false,
            append: false,
        },
        RedirectionFileType::WriteOnly => OpenFlags {
            access: Access::WriteOnly,
            create: true,
            truncate: true,
            append: false,
        },
        RedirectionFileType::Append => OpenFlags {
            access: Access::WriteOnly,
            create: true,
            truncate: false,
            append: true,
        },
    }
}

/// The access rights of the file of a redirection, should opening make it:
/// the owner may read and write a file that is written, nobody else may do
/// anything. Opening a file to read makes none, so no right is named.
pub open spec fn file_mode_for(file_type: RedirectionFileType) -> FileMode {
    match file_type {
        RedirectionFileType::ReadOnly => FileMode { owner_read: false, owner_write: false },
        _ => FileMode { owner_read: true, owner_write: true },
    }
}

/// How the file of each kind of redirection is opened.
pub open spec fn file_type_for(flag: IoRedirection) -> RedirectionFileType {
    match flag {
        IoRedirection::InputFromFile => RedirectionFileType::ReadOnly,
        IoRedirection::OverwriteToFile => RedirectionFileType::WriteOnly,
        IoRedirection::AppendToFile => RedirectionFileType::Append,
    }
}

/// Says how to open the file at `path` for a redirection: see
/// [`open_flags_for`] and [`file_mode_for`].
pub fn open_file_for_redirection(path: &str, redirection_file_type: RedirectionFileType) -> (request:
    OpenRequest)
    ensures
        request.path@ == path@,
        request.flags == open_flags_for(redirection_file_type),
        request.mode == file_mode_for(redirection_file_type),
{
    let (flags, mode) = match redirection_file_type {
        RedirectionFileType::WriteOnly => (
            OpenFlags { access: Access::WriteOnly, create: true, truncate: true, append: false },
            FileMode { owner_read: true, owner_write: true },
        ),
        RedirectionFileType::Append => (
            OpenFlags { access: Access::WriteOnly, create: true, truncate: false, append: true },
            FileMode { owner_read: true, owner_write: true },
        ),
        RedirectionFileType::ReadOnly => (
            OpenFlags { access: Access::ReadOnly, create: false, truncate: false, append: false },
            FileMode { owner_read: false, owner_write: false },
        ),
    };
    OpenRequest { path: String::from_str(path), flags, mode }
}

/// The two ends of a pipe.
#[derive(Clone, Copy, Debug, PartialEq, Eq)]
pub enum PipeSide {
    Read,
    Write,
}

/// One end of one pipe of a pipeline. Pipe `k` links stage `k` to stage `k + 1`.
#[derive(Clone, Copy, Debug, PartialEq, Eq)]
pub struct PipeEnd {
    pub pipe: usize,
    pub side: PipeSide,
}

/// Where the standard input of a child comes from.
#[derive(Debug, PartialEq, Eq)]
pub enum StdinSource {
    /// From where the shell's own comes.
    Inherit,
    /// From the read end of the pipe with this number.
    Pipe(usize),
    /// From the file at this path, opened to read.
    File(String),
}

/// Where the standard output of a child goes.
#[derive(Debug, PartialEq, Eq)]
pub enum StdoutSink {
    /// To where the shell's own goes.
    Inherit,
    /// To the write end of the pipe with this number.
    Pipe(usize),
    /// To the file at this path, behind what it holds or in place of it.
    File { path: String, append: bool },
}

/// What a freshly forked child does before it becomes the program: wire its
/// standard input and output, then close the pipe ends listed, then start
/// `program` with `argv` as its argument vector and an empty environment.
#[derive(Debug, PartialEq, Eq)]
pub struct ChildSetup {
    pub stdin: StdinSource,
    pub stdout: StdoutSink,
    /// The pipe ends that the child inherited, all of which it closes once
    /// its streams are wired.
    pub close: Vec<PipeEnd>,
    /// The program to start.
    pub program: String,
    /// The argument vector: the program, then its arguments.
    pub argv: Vec<String>,
}

/// The mathematical value of a [`StdinSource`].
pub enum StdinModel {
    Inherit,
    Pipe(usize),
    File(Seq<char>),
}

/// The mathematical value of a [`StdoutSink`].
pub enum StdoutModel {
    Inherit,
    Pipe(usize),
    File { path: Seq<char>, append: bool },
}

/// The mathematical value of a [`ChildSetup`].
pub struct ChildSetupModel {
    pub stdin: StdinModel,
    pub stdout: StdoutModel,
    pub close: Seq<PipeEnd>,
    pub program: Seq<char>,
    pub argv: Seq<Seq<char>>,
}

impl View for StdinSource {
    type V = StdinModel;

    open spec fn view(&self) -> StdinModel {
        match *self {
            StdinSource::Inherit => StdinModel::Inherit,
            StdinSource::Pipe(pipe) => StdinModel::Pipe(pipe),
            StdinSource::File(path) => StdinModel::File(path@),
        }
    }
}

impl View for StdoutSink {
    type V = StdoutModel;

    open spec fn view(&self) -> StdoutModel {
        match *self {
            StdoutSink::Inherit => StdoutModel::Inherit,
            StdoutSink::Pipe(pipe) => StdoutModel::Pipe(pipe),
            StdoutSink::File { path, append } => StdoutModel::File { path: path@, append },
        }
    }
}

impl View for ChildSetup {
    type V = ChildSetupModel;

    open spec fn view(&self) -> ChildSetupModel {
        ChildSetupModel {
            stdin: self.stdin@,
            stdout: self.stdout@,
            close: self.close@,
            program: self.program@,
            argv: strings_view(self.argv@),
        }
    }
}

/// The standard input of a stage. A file named by an input redirection comes
/// first. Else a stage that is not the first reads the pipe that the stage
/// before it writes. Else the stage reads what the shell reads.
pub open spec fn stage_stdin(
    prev_pipe: Option<usize>,
    curr_index: usize,
    redirection: Option<RedirectionModel>,
) -> StdinModel {
    if redirection matches Some(r) && r.kind == IoRedirection::InputFromFile {
        StdinModel::File(redirection->0.path)
    } else if curr_index != 0 && prev_pipe is Some {
        StdinModel::Pipe(prev_pipe->0)
    } else {
        StdinModel::Inherit
    }
}

/// The standard output of a stage. A file named by an output redirection
/// comes first. Else a stage that is not the last writes the pipe that the
/// stage behind it reads. Else the stage writes where the shell writes.
pub open spec fn stage_stdout(
    next_pipe: Option<usize>,
    redirection: Option<RedirectionModel>,
) -> StdoutModel {
    if redirection matches Some(r) && r.kind == IoRedirection::OverwriteToFile {
        StdoutModel::File { path: redirection->0.path, append: false }
    } else if redirection matches Some(r) && r.kind == IoRedirection::AppendToFile {
        StdoutModel::File { path: redirection->0.path, append: true }
    } else if next_pipe is Some {
        StdoutModel::Pipe(next_pipe->0)
    } else {
        StdoutModel::Inherit
    }
}

/// The pipe ends that a stage inherits and closes: the read end of the pipe
/// before it, and both ends of the pipe behind it.
pub open spec fn stage_close(prev_pipe: Option<usize>, next_pipe: Option<usize>) -> Seq<PipeEnd> {
    (match prev_pipe {
        Some(pipe) => seq![PipeEnd { pipe, side: PipeSide::Read }],
        None => Seq::empty(),
    }) + (match next_pipe {
        Some(pipe) => seq![
            PipeEnd { pipe, side: PipeSide::Read },
            PipeEnd { pipe, side: PipeSide::Write },
        ],
        None => Seq::empty(),
    })
}

/// What the child of a stage does, given the pipe before the stage and the
/// pipe behind it. The program started is the one at the path of the stage,
/// and its argument vector is that path followed by the arguments.
pub open spec fn stage_setup(
    prev_pipe: Option<usize>,
    next_pipe: Option<usize>,
    curr_index: usize,
    stage: ProcessToExec,
) -> ChildSetupModel {
    ChildSetupModel {
        stdin: stage_stdin(prev_pipe, curr_index, stage.redirect()),
        stdout: stage_stdout(next_pipe, stage.redirect()),
        close: stage_close(prev_pipe, next_pipe),
        program: stage.path(),
        argv: seq![stage.path()] + stage.args(),
    }
}

/// What the child of a command with one redirection does: the file takes the
/// place of the stream that the redirection names, the other stream stays
/// the shell's, and `command` is started with itself and `args` as its
/// argument vector.
pub open spec fn redirect_setup(
    file_path: Seq<char>,
    flag: IoRedirection,
    command: Seq<char>,
    args: Seq<Seq<char>>,
) -> ChildSetupModel {
    let redirection = Some(RedirectionModel { kind: flag, path: file_path });
    ChildSetupModel {
        stdin: stage_stdin(None, 0, redirection),
        stdout: stage_stdout(None, redirection),
        close: Seq::empty(),
        program: command,
        argv: seq![command] + args,
    }
}

/// The argument vector of a program: the program, then its arguments.
pub fn argument_vector(program: &str, args: &[&str]) -> (argv: Vec<String>)
    ensures
        strings_view(argv@) == seq![program@] + strs_view(args@),
{
    let mut argv: Vec<String> = Vec::new();
    argv.push(String::from_str(program));
    assert(strings_view(argv@) =~= seq![program@]);
    let mut i: usize = 0;
    while i < args.len()
        invariant
            i <= args.len(),
            strings_view(argv@) == seq![program@] + strs_view(args@).take(i as int),
        decreases args.len() - i,
    {
        let ghost before = argv@;
        argv.push(String::from_str(args[i]));
        assert(strings_view(argv@) =~= strings_view(before).push(args@[i as int]@));
        assert(strs_view(args@).take(i + 1) =~= strs_view(args@).take(i as int).push(
            args@[i as int]@,
        ));
        assert(strings_view(argv@) =~= seq![program@] + strs_view(args@).take(i + 1));
        i += 1;
    }
    assert(strs_view(args@).take(args.len() as int) =~= strs_view(args@));
    argv
}

/// The wiring of standard input of a stage: see [`stage_stdin`].
pub fn stdin_of(prev_pipe: Option<usize>, curr_index: usize, redirection: &Option<Redirection>) -> (source:
    StdinSource)
    ensures
        source@ == stage_stdin(prev_pipe, curr_index, redirection_view(*redirection)),
{
    match redirection {
        Some(Redirection { kind: IoRedirection::InputFromFile, path }) => StdinSource::File(
            path.clone(),
        ),
        _ => match prev_pipe {
            Some(pipe) => if curr_index != 0 {
                StdinSource::Pipe(pipe)
            } else {
                StdinSource::Inherit
            },
            None => StdinSource::Inherit,
        },
    }
}

/// The wiring of standard output of a stage: see [`stage_stdout`].
pub fn stdout_of(next_pipe: Option<usize>, redirection: &Option<Redirection>) -> (sink: StdoutSink)
    ensures
        sink@ == stage_stdout(next_pipe, redirection_view(*redirection)),
{
    match redirection {
        Some(Redirection { kind: IoRedirection::OverwriteToFile, path }) => StdoutSink::File {
            path: path.clone(),
            append: false,
        },
        Some(Redirection { kind: IoRedirection::AppendToFile, path }) => StdoutSink::File {
            path: path.clone(),
            append: true,
        },
        _ => match next_pipe {
            Some(pipe) => StdoutSink::Pipe(pipe),
            None => StdoutSink::Inherit,
        },
    }
}

/// Says what the child that runs the program at `path` alone does: it keeps
/// the shell's streams, closes nothing, and starts the program with its own
/// path as the only argument.
pub fn spawn_new_process(path: &str) -> (setup: ChildSetup)
    ensures
        setup@ == (ChildSetupModel {
            stdin: StdinModel::Inherit,
            stdout: StdoutModel::Inherit,
            close: Seq::empty(),
            program: path@,
            argv: seq![path@],
        }),
{
    let mut argv: Vec<String> = Vec::new();
    argv.push(String::from_str(path));
    assert(strings_view(argv@) =~= seq![path@]);
    ChildSetup {
        stdin: StdinSource::Inherit,
        stdout: StdoutSink::Inherit,
        close: Vec::new(),
        program: String::from_str(path),
        argv,
    }
}

/// Says what the child of stage `curr_index` does, given the number of the
/// pipe that the stage before it writes and the number of the pipe that the
/// stage behind it reads: see [`stage_setup`].
pub fn spawn_and_pipe(
    prev_pipe: Option<usize>,
    next_pipe: Option<usize>,
    curr_index: usize,
    curr_process_item: &ProcessToExec,
) -> (setup: ChildSetup)
    ensures
        setup@ == stage_setup(prev_pipe, next_pipe, curr_index, *curr_process_item),
{
    let mut close: Vec<PipeEnd> = Vec::new();
    if let Some(pipe) = prev_pipe {
        close.push(PipeEnd { pipe, side: PipeSide::Read });
    }
    if let Some(pipe) = next_pipe {
        close.push(PipeEnd { pipe, side: PipeSide::Read });
        close.push(PipeEnd { pipe, side: PipeSide::Write });
    }
    assert(close@ =~= stage_close(prev_pipe, next_pipe));
    ChildSetup {
        stdin: stdin_of(prev_pipe, curr_index, &curr_process_item.redirection),
        stdout: stdout_of(next_pipe, &curr_process_item.redirection),
        close,
        program: String::from_str(curr_process_item.process_path),
        argv: argument_vector(
            curr_process_item.process_path,
            curr_process_item.process_args.as_slice(),
        ),
    }
}

/// Says what the child of `command` does when the file at `file_path` takes
/// the place of one of its streams: see [`redirect_setup`]. How the file is
/// opened says [`open_file_for_redirection`] for the type that
/// [`file_type_for`] gives.
pub fn redirect_process(file_path: &str, flag: IoRedirection, command: &str, args: &[&str]) -> (setup:
    ChildSetup)
    ensures
        setup@ == redirect_setup(file_path@, flag, command@, strs_view(args@)),
{
    let redirection = Some(Redirection { kind: flag, path: String::from_str(file_path) });
    ChildSetup {
        stdin: stdin_of(None, 0, &redirection),
        stdout: stdout_of(None, &redirection),
        close: Vec::new(),
        program: String::from_str(command),
        argv: argument_vector(command, args),
    }
}

/// The file that a child opens to have it as its standard input, and the way
/// it opens it: the file of the source, to read; none where the source is no
/// file.
pub open spec fn stdin_file(source: StdinModel) -> Option<(Seq<char>, RedirectionFileType)> {
    match source {
        StdinModel::File(path) => Some((path, RedirectionFileType::ReadOnly)),
        _ => None,
    }
}

/// The file that a child opens to have it as its standard output, and the
/// way it opens it: the file of the sink, to append to or to write anew; none
/// where the sink is no file.
pub open spec fn stdout_file(sink: StdoutModel) -> Option<(Seq<char>, RedirectionFileType)> {
    match sink {
        StdoutModel::File { path, append } => Some(
            (
                path,
                if append {
                    RedirectionFileType::Append
                } else {
                    RedirectionFileType::WriteOnly
                },
            ),
        ),
        _ => None,
    }
}

/// Whether `request` asks for the file of `file`, opened in the way of
/// `file`; where `file` is none, whether nothing is asked for.
pub open spec fn requests(
    request: Option<OpenRequest>,
    file: Option<(Seq<char>, RedirectionFileType)>,
) -> bool {
    match file {
        Some((path, file_type)) => {
            &&& request matches Some(r)
            &&& r.path@ == path
            &&& r.flags == open_flags_for(file_type)
            &&& r.mode == file_mode_for(file_type)
        },
        None => request is None,
    }
}

/// Says which file a child opens to have it as its standard input, if any,
/// and how: see [`stdin_file`].
pub fn stdin_request(source: &StdinSource) -> (request: Option<OpenRequest>)
    ensures
        requests(request, stdin_file(source@)),
{
    match source {
        StdinSource::File(path) => Some(
            open_file_for_redirection(path.as_str(), RedirectionFileType::ReadOnly),
        ),
        _ => None,
    }
}

/// Says which file a child opens to have it as its standard output, if any,
/// and how: see [`stdout_file`].
pub fn stdout_request(sink: &StdoutSink) -> (request: Option<OpenRequest>)
    ensures
        requests(request, stdout_file(sink@)),
{
    match sink {
        StdoutSink::File { path, append } => {
            let file_type = if *append {
                RedirectionFileType::Append
            } else {
                RedirectionFileType::WriteOnly
            };
            Some(open_file_for_redirection(path.as_str(), file_type))
        },
        _ => None,
    }
}

/// Law of the argument vector: whatever child the library describes, its
/// argument vector begins with the program that is started, and the
/// arguments follow in their order.
pub proof fn lemma_vector_starts_with_program(
    prev_pipe: Option<usize>,
    next_pipe: Option<usize>,
    curr_index: usize,
    stage: ProcessToExec,
    file_path: Seq<char>,
    flag: IoRedirection,
    command: Seq<char>,
    args: Seq<Seq<char>>,
)
    ensures
        ({
            let setup = stage_setup(prev_pipe, next_pipe, curr_index, stage);
            &&& setup.argv.len() == 1 + stage.args().len()
            &&& setup.argv[0] == setup.program
            &&& setup.argv.skip(1) == stage.args()
        }),
        ({
            let setup = redirect_setup(file_path, flag, command, args);
            &&& setup.argv.len() == 1 + args.len()
            &&& setup.argv[0] == setup.program
            &&& setup.argv.skip(1) == args
        }),
{
    assert((seq![stage.path()] + stage.args()).skip(1) =~= stage.args());
    assert((seq![command] + args).skip(1) =~= args);
}

/// The type of file that a kind of redirection opens.
pub fn redirection_file_type(flag: IoRedirection) -> (file_type: RedirectionFileType)
    ensures
        file_type == file_type_for(flag),
{
    match flag {
        IoRedirection::InputFromFile => RedirectionFileType::ReadOnly,
        IoRedirection::OverwriteToFile => RedirectionFileType::WriteOnly,
        IoRedirection::AppendToFile => RedirectionFileType::Append,
    }
}

} // verus!
