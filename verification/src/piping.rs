//! The orchestration of a pipeline, as a machine that the caller drives.
//!
//! The machine says which action comes next: create a pipe, fork a stage,
//! close a pipe end in the shell, or wait for a child. The caller performs
//! the action and records its outcome, and the machine moves on. It keeps
//! track of every pipe end that is open in the shell and of every child that
//! has not been waited for, so that when it finishes none is left, whether
//! the pipeline ran through or a pipe or a fork failed on the way.

use vstd::prelude::*;
use nix::errno::Errno;
use crate::process::{
    spawn_and_pipe, stage_close, stage_setup, stage_stdin, stage_stdout, stages_view, ChildSetup,
    IoRedirection, PipeEnd, PipeSide, ProcessToExec, StageModel, StdinModel, StdoutModel,
};

verus! {

/// The status recorded for a child whose own status could not be had.
pub const SYNTHETIC_STATUS: i32 = 127;

/// The status of a child, given the code it exited with, if it exited of
/// itself: that code, else [`SYNTHETIC_STATUS`].
pub fn exit_status(code: Option<i32>) -> (status: i32)
    ensures
        status == match code {
            Some(c) => c,
            None => SYNTHETIC_STATUS,
        },
{
    match code {
        Some(c) => c,
        None => SYNTHETIC_STATUS,
    }
}

/// Why the stages handed in are no pipeline.
#[derive(Clone, Copy, Debug, PartialEq, Eq)]
pub enum PipelineError {
    /// There is no stage.
    Empty,
    /// The stage at this position names no program.
    MissingProgram { stage: usize },
    /// The stage at this position does not carry its position as its order.
    OutOfOrder { stage: usize },
}

/// Why the spawning of a pipeline stopped early.
#[derive(Clone, Copy, Debug, PartialEq, Eq)]
pub enum SpawnError {
    /// The pipe behind this stage could not be created.
    PipeFailed { stage: usize, errno: Errno },
    /// This stage could not be forked.
    ForkFailed { stage: usize, errno: Errno },
}

/// A child of the shell: the process that runs one stage of a pipeline. It
/// comes into being when the stage is forked and is done with once it has
/// been waited for.
#[derive(Clone, Copy, Debug, PartialEq, Eq)]
pub struct ProcessHandle {
    pub pid: i32,
    pub stage_index: usize,
}

/// How far a stage has come.
#[derive(Clone, Copy, Debug, PartialEq, Eq)]
pub enum StageState {
    /// The stage has not been forked.
    Created,
    /// The stage has been forked and its child has not been waited for.
    Spawned,
    /// The child of the stage has been waited for.
    Reaped,
}

/// The next step of the orchestration.
pub enum Step {
    /// Close this pipe end in the shell.
    Close { end: PipeEnd },
    /// Create the pipe with this number.
    CreatePipe { pipe: usize },
    /// Fork this stage.
    Spawn { stage: usize },
    /// Wait for the child of this stage.
    Wait { stage: usize },
    /// Nothing is left to do.
    Finish,
}

/// The state of the orchestration of one pipeline.
#[verifier::ext_equal]
pub struct PipingState {
    /// How many stages the pipeline has.
    pub stage_count: nat,
    /// How many stages have been forked: the stages before this number.
    pub spawned: nat,
    /// How many children have been waited for: those of the stages before this number.
    pub reaped: nat,
    /// How many pipes have been created: the pipes before this number.
    pub pipes: nat,
    /// The pipe ends that are open in the shell.
    pub open: Seq<PipeEnd>,
    /// Why spawning stopped early, if it did.
    pub failure: Option<SpawnError>,
    /// The process ids of the children, in stage order.
    pub pids: Seq<i32>,
    /// The statuses of the children waited for, in stage order.
    pub statuses: Seq<i32>,
}

/// Whether `open` holds the given end of the pipe with the given number.
pub open spec fn holds(open: Seq<PipeEnd>, pipe: int, side: PipeSide) -> bool {
    exists|i: int| 0 <= i < open.len() && (#[trigger] open[i]).pipe == pipe && open[i].side == side
}

/// The pipe that the stage before stage `stage` writes, if there is one.
pub open spec fn pipe_before(stage: nat) -> Option<usize> {
    if stage >= 1 {
        Some((stage - 1) as usize)
    } else {
        None
    }
}

/// The pipe that the stage behind stage `stage` reads, if there is one.
pub open spec fn pipe_behind(stage: nat, stage_count: nat) -> Option<usize> {
    if stage + 1 < stage_count {
        Some(stage as usize)
    } else {
        None
    }
}

impl PipingState {
    /// The state before anything has been done.
    pub open spec fn initial(stage_count: nat) -> PipingState {
        PipingState {
            stage_count,
            spawned: 0,
            reaped: 0,
            pipes: 0,
            open: Seq::empty(),
            failure: None,
            pids: Seq::empty(),
            statuses: Seq::empty(),
        }
    }

    /// How far the stage at position `stage` has come.
    pub open spec fn stage_state(self, stage: int) -> StageState {
        if stage < self.reaped {
            StageState::Reaped
        } else if stage < self.spawned {
            StageState::Spawned
        } else {
            StageState::Created
        }
    }

    /// Whether more stages are to be forked.
    pub open spec fn spawning(self) -> bool {
        self.failure is None && self.spawned < self.stage_count
    }

    /// Whether the shell still needs `end`: while stages are to be forked,
    /// the next stage inherits the read end of the pipe before it and both
    /// ends of the pipe behind it. No other end is of use to anybody.
    pub open spec fn needed(self, end: PipeEnd) -> bool {
        self.spawning() && ((end.side == PipeSide::Read && end.pipe + 1 == self.spawned)
            || end.pipe == self.spawned)
    }

    /// The index in `open`, from `from` on, of the first end that the shell
    /// does not need, or the length of `open` if it needs them all.
    pub open spec fn first_unneeded(self, from: int) -> int
        decreases self.open.len() - from,
    {
        if 0 <= from < self.open.len() && self.needed(self.open[from]) {
            self.first_unneeded(from + 1)
        } else {
            from
        }
    }

    /// The step that comes next. Ends that are not needed are closed first.
    /// Then comes the next stage: the pipe behind it, unless it is the last,
    /// then its fork. When no stage is left to fork, the children are waited
    /// for in stage order.
    pub open spec fn pending(self) -> Step {
        let k = self.first_unneeded(0);
        if 0 <= k < self.open.len() {
            Step::Close { end: self.open[k] }
        } else if self.spawning() {
            if self.spawned + 1 < self.stage_count && self.pipes == self.spawned {
                Step::CreatePipe { pipe: self.spawned as usize }
            } else {
                Step::Spawn { stage: self.spawned as usize }
            }
        } else if self.reaped < self.spawned {
            Step::Wait { stage: self.reaped as usize }
        } else {
            Step::Finish
        }
    }

    /// Whether nothing is left to do.
    pub open spec fn finished(self) -> bool {
        self.pending() is Finish
    }

    /// The state after the pending step was performed with `outcome`.
    ///
    /// A close removes the end, whatever the outcome. A pipe that was created
    /// adds its two ends; a stage that was forked adds its process id, which
    /// the outcome carries. A pipe or a fork that failed stops the spawning
    /// for good. A wait adds the status that the outcome carries, or
    /// [`SYNTHETIC_STATUS`] if the wait itself failed.
    pub open spec fn record(self, outcome: Result<i32, Errno>) -> PipingState {
        match self.pending() {
            Step::Close { end } => PipingState {
                open: self.open.remove(self.first_unneeded(0)),
                ..self
            },
            Step::CreatePipe { pipe } => match outcome {
                Ok(_) => PipingState {
                    pipes: self.pipes + 1,
                    open: self.open.push(PipeEnd { pipe, side: PipeSide::Read }).push(
                        PipeEnd { pipe, side: PipeSide::Write },
                    ),
                    ..self
                },
                Err(errno) => PipingState {
                    failure: Some(SpawnError::PipeFailed { stage: pipe, errno }),
                    ..self
                },
            },
            Step::Spawn { stage } => match outcome {
                Ok(pid) => PipingState {
                    spawned: self.spawned + 1,
                    pids: self.pids.push(pid),
                    ..self
                },
                Err(errno) => PipingState {
                    failure: Some(SpawnError::ForkFailed { stage, errno }),
                    ..self
                },
            },
            Step::Wait { stage } => PipingState {
                reaped: self.reaped + 1,
                statuses: self.statuses.push(
                    match outcome {
                        Ok(status) => status,
                        Err(_) => SYNTHETIC_STATUS,
                    },
                ),
                ..self
            },
            Step::Finish => self,
        }
    }

    /// An upper bound on the number of steps that are left.
    pub open spec fn remaining(self) -> nat {
        let to_spawn = if self.spawning() {
            3 * (self.stage_count - 1 - self.pipes) + 2 * (self.stage_count - self.spawned)
        } else {
            0
        };
        (self.open.len() + (self.spawned - self.reaped) + to_spawn) as nat
    }

    /// What holds of every state that the machine reaches.
    pub open spec fn wf(self) -> bool {
        &&& 1 <= self.stage_count <= usize::MAX
        &&& self.reaped <= self.spawned <= self.stage_count
        &&& self.pids.len() == self.spawned
        &&& self.statuses.len() == self.reaped
        &&& self.pipes + 1 <= self.stage_count
        &&& self.pipes <= self.spawned + 1
        &&& self.spawned <= self.pipes + 1
        &&& self.spawned < self.stage_count ==> self.spawned <= self.pipes
        &&& self.open.no_duplicates()
        &&& forall|i: int| 0 <= i < self.open.len() ==> (#[trigger] self.open[i]).pipe < self.pipes
        &&& self.spawning() && self.spawned >= 1 ==> holds(
            self.open,
            self.spawned - 1,
            PipeSide::Read,
        )
        &&& self.spawning() && self.pipes == self.spawned + 1 ==> holds(
            self.open,
            self.spawned as int,
            PipeSide::Read,
        ) && holds(self.open, self.spawned as int, PipeSide::Write)
    }
}

/// What the caller is to do next. It performs the action and hands its
/// outcome to [`Piping::record`].
#[derive(Debug, PartialEq, Eq)]
pub enum Action {
    /// Close this pipe end in the shell.
    Close { end: PipeEnd },
    /// Create the pipe with this number and keep both its ends.
    CreatePipe { pipe: usize },
    /// Fork; the child does what `setup` says and becomes this stage.
    Spawn { stage: usize, setup: ChildSetup },
    /// Wait for this child.
    Wait { child: ProcessHandle },
    /// Nothing is left to do.
    Finish,
}

impl Action {
    /// The step that the action carries out.
    pub open spec fn step(&self) -> Step {
        match *self {
            Action::Close { end } => Step::Close { end },
            Action::CreatePipe { pipe } => Step::CreatePipe { pipe },
            Action::Spawn { stage, .. } => Step::Spawn { stage },
            Action::Wait { child } => Step::Wait { stage: child.stage_index },
            Action::Finish => Step::Finish,
        }
    }
}

/// What is wrong with the stage at `position`, if anything: it names no
/// program, or its order is not its position.
pub open spec fn stage_fault(stage: StageModel, position: int) -> Option<PipelineError> {
    if stage.path.len() == 0 {
        Some(PipelineError::MissingProgram { stage: position as usize })
    } else if stage.order != position {
        Some(PipelineError::OutOfOrder { stage: position as usize })
    } else {
        None
    }
}

/// The fault of the first faulty stage from position `from` on, if any.
pub open spec fn first_fault(stages: Seq<StageModel>, from: int) -> Option<PipelineError>
    decreases stages.len() - from,
{
    if 0 <= from < stages.len() {
        match stage_fault(stages[from], from) {
            Some(fault) => Some(fault),
            None => first_fault(stages, from + 1),
        }
    } else {
        None
    }
}

/// Why `stages` are no pipeline, if they are none: a pipeline has at least
/// one stage, and each stage names a program and carries its position.
pub open spec fn pipeline_fault(stages: Seq<StageModel>) -> Option<PipelineError> {
    if stages.len() == 0 {
        Some(PipelineError::Empty)
    } else {
        first_fault(stages, 0)
    }
}

/// The orchestration of one pipeline: its stages and how far it has come.
pub struct Piping<'a> {
    stages: Vec<ProcessToExec<'a>>,
    /// How many pipes have been created.
    pipes: usize,
    /// The pipe ends that are open in the shell.
    open: Vec<PipeEnd>,
    /// Why spawning stopped early, if it did.
    failure: Option<SpawnError>,
    /// The process ids of the stages forked, in stage order.
    pids: Vec<i32>,
    /// The statuses of the children waited for, in stage order.
    statuses: Vec<i32>,
}

impl<'a> View for Piping<'a> {
    type V = PipingState;

    closed spec fn view(&self) -> PipingState {
        PipingState {
            stage_count: self.stages@.len(),
            spawned: self.pids@.len(),
            reaped: self.statuses@.len(),
            pipes: self.pipes as nat,
            open: self.open@,
            failure: self.failure,
            pids: self.pids@,
            statuses: self.statuses@,
        }
    }
}

impl<'a> Piping<'a> {
    /// The stages of the pipeline.
    pub closed spec fn stages(&self) -> Seq<ProcessToExec<'a>> {
        self.stages@
    }

    /// The state is one that the machine reaches.
    pub open spec fn wf(&self) -> bool {
        self@.wf()
    }

    /// Index in the list of open ends of the first end that the shell does
    /// not need, or the length of the list.
    fn find_unneeded(&self) -> (k: usize)
        ensures
            k == self@.first_unneeded(0),
            k <= self@.open.len(),
    {
        let spawned = self.pids.len();
        let spawning = self.failure.is_none() && spawned < self.stages.len();
        let mut k: usize = 0;
        while k < self.open.len()
            invariant
                spawned == self@.spawned,
                spawning == self@.spawning(),
                k <= self.open.len(),
                self@.first_unneeded(k as int) == self@.first_unneeded(0),
            decreases self.open.len() - k,
        {
            let end = self.open[k];
            let before = matches!(end.side, PipeSide::Read) && end.pipe < spawned && end.pipe + 1
                == spawned;
            if !(spawning && (before || end.pipe == spawned)) {
                return k;
            }
            k += 1;
        }
        k
    }

    /// What the caller is to do next: see [`PipingState::pending`]. A fork
    /// comes with what the child is to do, which is what [`stage_setup`] says
    /// for the stage and the pipes on either side of it; a wait comes with
    /// the child that was recorded for the stage.
    pub fn next_action(&self) -> (action: Action)
        ensures
            action.step() == self@.pending(),
            action matches Action::Spawn { stage, setup } ==> setup@ == stage_setup(
                pipe_before(stage as nat),
                pipe_behind(stage as nat, self@.stage_count),
                stage,
                self.stages()[stage as int],
            ),
            action matches Action::Wait { child } ==> child.pid == self@.pids[child.stage_index as int],
    {
        let k = self.find_unneeded();
        let count = self.stages.len();
        let reaped = self.statuses.len();
        if k < self.open.len() {
            Action::Close { end: self.open[k] }
        } else if self.failure.is_none() && self.pids.len() < count {
            let stage = self.pids.len();
            if stage + 1 < count && self.pipes == stage {
                Action::CreatePipe { pipe: stage }
            } else {
                let prev_pipe = if stage >= 1 {
                    Some(stage - 1)
                } else {
                    None
                };
                let next_pipe = if stage + 1 < count {
                    Some(stage)
                } else {
                    None
                };
                Action::Spawn {
                    stage,
                    setup: spawn_and_pipe(prev_pipe, next_pipe, stage, &self.stages[stage]),
                }
            }
        } else if reaped < self.pids.len() {
            Action::Wait { child: ProcessHandle { pid: self.pids[reaped], stage_index: reaped } }
        } else {
            Action::Finish
        }
    }

    /// Takes note of how the action that [`Piping::next_action`] asked for
    /// went, and moves on: see [`PipingState::record`]. For a fork that
    /// succeeded the outcome carries the process id of the child, for a wait
    /// that succeeded the status of the child.
    pub fn record(&mut self, outcome: Result<i32, Errno>)
        ensures
            final(self)@ == old(self)@.record(outcome),
            final(self).stages() == old(self).stages(),
            old(self).wf() ==> final(self).wf(),
    {
        proof {
            if self.wf() {
                lemma_record_preserves_wf(self@, outcome);
            }
        }
        let k = self.find_unneeded();
        let count = self.stages.len();
        if k < self.open.len() {
            self.open.remove(k);
        } else if self.failure.is_none() && self.pids.len() < count {
            let stage = self.pids.len();
            if stage + 1 < count && self.pipes == stage {
                match outcome {
                    Ok(_) => {
                        self.pipes = self.pipes + 1;
                        self.open.push(PipeEnd { pipe: stage, side: PipeSide::Read });
                        self.open.push(PipeEnd { pipe: stage, side: PipeSide::Write });
                    },
                    Err(errno) => {
                        self.failure = Some(SpawnError::PipeFailed { stage, errno });
                    },
                }
            } else {
                match outcome {
                    Ok(pid) => {
                        self.pids.push(pid);
                    },
                    Err(errno) => {
                        self.failure = Some(SpawnError::ForkFailed { stage, errno });
                    },
                }
            }
        } else if self.statuses.len() < self.pids.len() {
            let status = match outcome {
                Ok(status) => status,
                Err(_) => SYNTHETIC_STATUS,
            };
            self.statuses.push(status);
        }
        assert(self@ =~= old(self)@.record(outcome));
    }

    /// Whether nothing is left to do.
    pub fn is_finished(&self) -> (done: bool)
        ensures
            done == self@.finished(),
    {
        let k = self.find_unneeded();
        k >= self.open.len() && !(self.failure.is_none() && self.pids.len() < self.stages.len())
            && self.statuses.len() >= self.pids.len()
    }

    /// The statuses of the children waited for so far, in stage order.
    pub fn statuses(&self) -> (statuses: &Vec<i32>)
        ensures
            statuses@ == self@.statuses,
    {
        &self.statuses
    }

    /// Why spawning stopped early, if it did.
    pub fn failure(&self) -> (failure: Option<SpawnError>)
        ensures
            failure == self@.failure,
    {
        self.failure
    }

    /// The pipe ends that are open in the shell.
    pub fn open_ends(&self) -> (open: &Vec<PipeEnd>)
        ensures
            open@ == self@.open,
    {
        &self.open
    }

    /// How many stages have been forked.
    pub fn spawned(&self) -> (spawned: usize)
        ensures
            spawned == self@.spawned,
    {
        self.pids.len()
    }

    /// How many children have been waited for.
    pub fn reaped(&self) -> (reaped: usize)
        ensures
            reaped == self@.reaped,
    {
        self.statuses.len()
    }

    /// How far the stage at position `stage` has come.
    pub fn stage_state(&self, stage: usize) -> (state: StageState)
        ensures
            state == self@.stage_state(stage as int),
    {
        if stage < self.statuses.len() {
            StageState::Reaped
        } else if stage < self.pids.len() {
            StageState::Spawned
        } else {
            StageState::Created
        }
    }

    /// How many stages the pipeline has.
    pub fn stage_count(&self) -> (count: usize)
        ensures
            count == self@.stage_count,
    {
        self.stages.len()
    }
}

/// Starts the orchestration of a pipeline. The stages are refused if they are
/// no pipeline, with the fault that [`pipeline_fault`] names; else the
/// machine stands at its beginning, with nothing forked and nothing open.
pub fn perform_piping<'a>(process_list: Vec<ProcessToExec<'a>>) -> (r: Result<
    Piping<'a>,
    PipelineError,
>)
    ensures
        match r {
            Ok(piping) => {
                &&& pipeline_fault(stages_view(process_list@)) is None
                &&& piping.wf()
                &&& piping.stages() == process_list@
                &&& piping@ == PipingState::initial(process_list@.len())
            },
            Err(fault) => pipeline_fault(stages_view(process_list@)) == Some(fault),
        },
{
    if process_list.len() == 0 {
        return Err(PipelineError::Empty);
    }
    let mut i: usize = 0;
    while i < process_list.len()
        invariant
            i <= process_list.len(),
            first_fault(stages_view(process_list@), i as int) == first_fault(
                stages_view(process_list@),
                0,
            ),
        decreases process_list.len() - i,
    {
        if process_list[i].process_path().is_empty() {
            return Err(PipelineError::MissingProgram { stage: i });
        }
        if process_list[i].order() as usize != i {
            return Err(PipelineError::OutOfOrder { stage: i });
        }
        i += 1;
    }
    let piping = Piping {
        stages: process_list,
        pipes: 0,
        open: Vec::new(),
        failure: None,
        pids: Vec::new(),
        statuses: Vec::new(),
    };
    assert(piping@ =~= PipingState::initial(process_list@.len()));
    Ok(piping)
}

/// The search for an end that is not needed stays inside the list, passes
/// only needed ends, and stops on one that is not needed.
pub proof fn lemma_first_unneeded(s: PipingState, from: int)
    requires
        0 <= from <= s.open.len(),
    ensures
        from <= s.first_unneeded(from) <= s.open.len(),
        forall|i: int| from <= i < s.first_unneeded(from) ==> s.needed(#[trigger] s.open[i]),
        s.first_unneeded(from) < s.open.len() ==> !s.needed(s.open[s.first_unneeded(from)]),
    decreases s.open.len() - from,
{
    if from < s.open.len() && s.needed(s.open[from]) {
        lemma_first_unneeded(s, from + 1);
    }
}

/// An end other than the one removed is still held after the removal.
pub proof fn lemma_remove_keeps(open: Seq<PipeEnd>, k: int, pipe: int, side: PipeSide)
    requires
        0 <= k < open.len(),
        holds(open, pipe, side),
        !(open[k].pipe == pipe && open[k].side == side),
    ensures
        holds(open.remove(k), pipe, side),
{
    let i = choose|i: int| 0 <= i < open.len() && (#[trigger] open[i]).pipe == pipe && open[i].side == side;
    let j = if i < k {
        i
    } else {
        i - 1
    };
    assert(open.remove(k)[j] == open[i]);
}

/// Law of the invariant: recording an outcome leads from a well-formed state
/// to a well-formed state.
pub proof fn lemma_record_preserves_wf(s: PipingState, outcome: Result<i32, Errno>)
    requires
        s.wf(),
    ensures
        s.record(outcome).wf(),
{
    let t = s.record(outcome);
    lemma_first_unneeded(s, 0);
    match s.pending() {
        Step::Close { end } => {
            let k = s.first_unneeded(0);
            assert(t.open == s.open.remove(k));
            assert forall|i: int, j: int| 0 <= i < j < t.open.len() implies t.open[i]
                != t.open[j] by {
                let a = if i < k {
                    i
                } else {
                    i + 1
                };
                let b = if j < k {
                    j
                } else {
                    j + 1
                };
                assert(t.open[i] == s.open[a]);
                assert(t.open[j] == s.open[b]);
            }
            assert forall|i: int| 0 <= i < t.open.len() implies (#[trigger] t.open[i]).pipe
                < t.pipes by {
                let a = if i < k {
                    i
                } else {
                    i + 1
                };
                assert(t.open[i] == s.open[a]);
            }
            if t.spawning() && t.spawned >= 1 {
                lemma_remove_keeps(s.open, k, s.spawned - 1, PipeSide::Read);
            }
            if t.spawning() && t.pipes == t.spawned + 1 {
                lemma_remove_keeps(s.open, k, s.spawned as int, PipeSide::Read);
                lemma_remove_keeps(s.open, k, s.spawned as int, PipeSide::Write);
            }
        },
        Step::CreatePipe { pipe } => {
            match outcome {
                Ok(_) => {
                    let read = PipeEnd { pipe, side: PipeSide::Read };
                    let write = PipeEnd { pipe, side: PipeSide::Write };
                    let n = s.open.len() as int;
                    assert(t.open == s.open.push(read).push(write));
                    assert(t.open[n] == read);
                    assert(t.open[n + 1] == write);
                    assert forall|i: int| 0 <= i < n implies t.open[i] == s.open[i] by {}
                    if s.spawned >= 1 {
                        let i = choose|i: int|
                            0 <= i < s.open.len() && (#[trigger] s.open[i]).pipe == s.spawned - 1
                                && s.open[i].side == PipeSide::Read;
                        assert(t.open[i] == s.open[i]);
                    }
                },
                Err(_) => {},
            }
        },
        Step::Spawn { stage } => {
            match outcome {
                Ok(_) => {
                    if t.spawning() {
                        assert(s.pipes == s.spawned + 1);
                    }
                },
                Err(_) => {},
            }
        },
        Step::Wait { stage } => {},
        Step::Finish => {},
    }
}

/// Law of the stages: a stage only moves forward. Once forked it stays
/// forked until it is waited for, and once waited for it stays so; a stage is
/// never waited for before it was forked.
pub proof fn lemma_stages_move_forward(s: PipingState, outcome: Result<i32, Errno>, stage: int)
    requires
        s.wf(),
    ensures
        s.stage_state(stage) is Reaped ==> s.record(outcome).stage_state(stage) is Reaped,
        s.stage_state(stage) is Spawned ==> !(s.record(outcome).stage_state(stage) is Created),
        s.stage_state(stage) is Created ==> !(s.record(outcome).stage_state(stage) is Reaped),
{
    lemma_first_unneeded(s, 0);
}

/// Law of progress: while the machine has not finished, every outcome
/// recorded brings it nearer to the end. So the orchestration of a pipeline
/// always completes, in no more steps than [`PipingState::remaining`] says.
pub proof fn lemma_record_makes_progress(s: PipingState, outcome: Result<i32, Errno>)
    requires
        s.wf(),
        !s.finished(),
    ensures
        s.record(outcome).remaining() < s.remaining(),
{
    lemma_first_unneeded(s, 0);
}

/// Law of the clean end: when the machine has finished, no pipe end is open
/// in the shell any more and every child that was forked has been waited
/// for, with one status each. Unless a pipe or a fork failed, every stage of
/// the pipeline was forked.
pub proof fn lemma_finished_is_clean(s: PipingState)
    requires
        s.wf(),
        s.finished(),
    ensures
        s.open.len() == 0,
        s.reaped == s.spawned,
        s.statuses.len() == s.spawned,
        s.failure is None ==> s.spawned == s.stage_count,
{
    lemma_first_unneeded(s, 0);
    if s.open.len() > 0 {
        assert(s.needed(s.open[0]));
    }
}

/// Law of the connection: of two stages that follow each other, the first
/// writes the pipe that the second reads, unless a redirection of the stage
/// itself takes the place of that stream.
pub proof fn lemma_adjacent_stages_share_a_pipe(
    stage_count: nat,
    stage: nat,
    first: StageModel,
    second: StageModel,
)
    requires
        stage + 1 < stage_count <= usize::MAX,
    ensures
        !(first.redirection matches Some(r) && r.kind != IoRedirection::InputFromFile)
            ==> stage_stdout(pipe_behind(stage, stage_count), first.redirection)
            == StdoutModel::Pipe(stage as usize),
        !(second.redirection matches Some(r) && r.kind == IoRedirection::InputFromFile)
            ==> stage_stdin(pipe_before(stage + 1), (stage + 1) as usize, second.redirection)
            == StdinModel::Pipe(stage as usize),
{
}

/// Law of the fork: when a stage is forked, the pipe ends open in the shell
/// are exactly those that the child is told to close, so that the child
/// keeps no end but its own standard streams.
pub proof fn lemma_child_closes_what_is_open(s: PipingState)
    requires
        s.wf(),
        s.pending() is Spawn,
    ensures
        forall|end: PipeEnd|
            s.open.contains(end) <==> stage_close(
                pipe_before(s.spawned),
                pipe_behind(s.spawned, s.stage_count),
            ).contains(end),
{
    lemma_first_unneeded(s, 0);
    let close = stage_close(pipe_before(s.spawned), pipe_behind(s.spawned, s.stage_count));
    assert forall|end: PipeEnd| s.open.contains(end) implies close.contains(end) by {
        let i = choose|i: int| 0 <= i < s.open.len() && s.open[i] == end;
        assert(s.needed(s.open[i]));
        if end.side == PipeSide::Read && end.pipe + 1 == s.spawned {
            assert(close[0] == end);
        } else {
            assert(end.pipe == s.spawned);
            assert(s.pipes == s.spawned + 1);
            let base = if s.spawned >= 1 {
                1int
            } else {
                0int
            };
            if end.side == PipeSide::Read {
                assert(close[base] == end);
            } else {
                assert(close[base + 1] == end);
            }
        }
    }
    assert forall|end: PipeEnd| close.contains(end) implies s.open.contains(end) by {
        let i = choose|i: int| 0 <= i < close.len() && close[i] == end;
        let j = choose|j: int|
            0 <= j < s.open.len() && (#[trigger] s.open[j]).pipe == end.pipe && s.open[j].side
                == end.side;
        assert(s.open[j] == end);
    }
}

/// The state that a run of outcomes leads to: each outcome in turn is
/// recorded for the step that is pending when its turn comes.
pub open spec fn run(s: PipingState, outcomes: Seq<Result<i32, Errno>>) -> PipingState
    decreases outcomes.len(),
{
    if outcomes.len() == 0 {
        s
    } else {
        run(s.record(outcomes[0]), outcomes.drop_first())
    }
}

/// Law of completion: from any state that the machine reaches, a run of at
/// least as many outcomes as [`PipingState::remaining`] says ends in a state
/// that is finished, whatever the outcomes are.
pub proof fn lemma_run_completes(s: PipingState, outcomes: Seq<Result<i32, Errno>>)
    requires
        s.wf(),
        outcomes.len() >= s.remaining(),
    ensures
        run(s, outcomes).wf(),
        run(s, outcomes).finished(),
    decreases outcomes.len(),
{
    if outcomes.len() == 0 {
        lemma_first_unneeded(s, 0);
        if s.open.len() > 0 {
            assert(s.open.len() <= s.remaining());
        }
    } else {
        lemma_record_preserves_wf(s, outcomes[0]);
        if !s.finished() {
            lemma_record_makes_progress(s, outcomes[0]);
        }
        lemma_run_completes(s.record(outcomes[0]), outcomes.drop_first());
    }
}

/// Law of the pipeline that leaves nothing behind: run to its end, with
/// whatever outcomes, the orchestration of a pipeline of any length leaves no
/// pipe end open in the shell and no child that was forked unwaited. Where no
/// pipe and no fork failed, every stage has been forked and waited for: both
/// stages of a pipeline of two, for one.
pub proof fn lemma_pipeline_ends_clean(stage_count: nat, outcomes: Seq<Result<i32, Errno>>)
    requires
        1 <= stage_count <= usize::MAX,
        outcomes.len() >= PipingState::initial(stage_count).remaining(),
    ensures
        ({
            let end = run(PipingState::initial(stage_count), outcomes);
            &&& end.finished()
            &&& end.open.len() == 0
            &&& end.reaped == end.spawned
            &&& end.statuses.len() == end.spawned
            &&& end.failure is None ==> end.reaped == stage_count
        }),
{
    let start = PipingState::initial(stage_count);
    lemma_run_completes(start, outcomes);
    lemma_finished_is_clean(run(start, outcomes));
    lemma_run_keeps_stage_count(start, outcomes);
}

/// A run changes nothing about the number of stages.
pub proof fn lemma_run_keeps_stage_count(s: PipingState, outcomes: Seq<Result<i32, Errno>>)
    ensures
        run(s, outcomes).stage_count == s.stage_count,
    decreases outcomes.len(),
{
    if outcomes.len() > 0 {
        lemma_run_keeps_stage_count(s.record(outcomes[0]), outcomes.drop_first());
    }
}

} // verus!
