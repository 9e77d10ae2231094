//! The choice between running a command in the shell and running a pipeline
//! of processes.

use vstd::prelude::*;
use crate::parser::ParserError;
use crate::pipeline::{lemma_parsed_pipeline_is_sound, parse_pipeline, spec_parse_pipeline};
use crate::piping::{perform_piping, pipeline_fault, PipelineError, Piping, PipingState};
use crate::process::{stages_view, ProcessToExec, StageModel};
use crate::shell::{dispatch, dispatch_command, lemma_builtin_names_differ, Builtin, BuiltinAction};
use crate::tokenizer::{tokens_view, ShellTokens};

verus! {

/// How a pipeline is run.
pub enum Execution<'a> {
    /// By the shell itself, with no process made.
    Builtin(BuiltinAction),
    /// As processes, one for each stage, which the machine orchestrates.
    Processes(Piping<'a>),
}

/// Whether the shell runs the pipeline itself: it does so for a pipeline of
/// one stage whose name is that of one of the shell's own commands. A
/// pipeline of several stages is always run as processes.
pub open spec fn runs_in_shell(stages: Seq<StageModel>) -> bool {
    stages.len() == 1 && !(dispatch(stages[0].name, stages[0].args) is Spawn)
}

/// Whether `execution` is the way to run a pipeline of the given stages: the
/// command that the shell runs itself where it does so, else the machine at
/// its beginning, for stages that form a pipeline.
pub open spec fn executes(execution: Execution, stages: Seq<ProcessToExec>) -> bool {
    match execution {
        Execution::Builtin(action) => {
            &&& runs_in_shell(stages_view(stages))
            &&& action@ == dispatch(stages[0]@.name, stages[0]@.args)
        },
        Execution::Processes(piping) => {
            &&& !runs_in_shell(stages_view(stages))
            &&& pipeline_fault(stages_view(stages)) is None
            &&& piping.wf()
            &&& piping.stages() == stages
            &&& piping@ == PipingState::initial(stages.len())
        },
    }
}

/// Decides how `pipeline` is run.
///
/// A single stage that names one of the shell's own commands is run by the
/// shell: the result is what that command does, and no process is made.
/// Every other pipeline is checked and then handed to the machine that
/// orchestrates its processes; stages that form no pipeline are an error.
pub fn execute<'a>(pipeline: Vec<ProcessToExec<'a>>) -> (r: Result<Execution<'a>, PipelineError>)
    ensures
        match r {
            Ok(execution) => executes(execution, pipeline@),
            Err(fault) => !runs_in_shell(stages_view(pipeline@)) && pipeline_fault(
                stages_view(pipeline@),
            ) == Some(fault),
        },
{
    if pipeline.len() == 1 {
        let action = dispatch_command(pipeline[0].process_name(), pipeline[0].process_args());
        match action {
            BuiltinAction::Spawn => {},
            _ => {
                return Ok(Execution::Builtin(action));
            },
        }
    }
    match perform_piping(pipeline) {
        Ok(piping) => Ok(Execution::Processes(piping)),
        Err(fault) => Err(fault),
    }
}

/// Parses a line of tokens and decides how the pipeline it stands for is
/// run. The line is rejected exactly when it stands for no pipeline; what a
/// line parses to can always be run.
pub fn execute_tokens<'a>(tokens: &'a Vec<ShellTokens>) -> (r: Result<Execution<'a>, ParserError>)
    ensures
        match r {
            Ok(execution) => exists|stages: Seq<ProcessToExec>|
                spec_parse_pipeline(tokens_view(tokens@)) == Ok::<_, ParserError>(
                    stages_view(stages),
                ) && #[trigger] executes(execution, stages),
            Err(e) => spec_parse_pipeline(tokens_view(tokens@)) == Err::<Seq<StageModel>, _>(e),
        },
{
    let stages = match parse_pipeline(tokens) {
        Ok(stages) => stages,
        Err(e) => {
            return Err(e);
        },
    };
    proof {
        lemma_parsed_pipeline_is_sound(tokens_view(tokens@));
    }
    let ghost parsed = stages@;
    match execute(stages) {
        Ok(execution) => {
            assert(executes(execution, parsed));
            Ok(execution)
        },
        // What a line parses to is without fault, so it is never refused.
        Err(_) => Err(ParserError::UnexpectedInput),
    }
}

/// Law of the single `pwd`: a pipeline whose only stage is named `pwd` is run
/// by the shell itself, as the command that prints the working directory; no
/// process is made for it.
pub proof fn lemma_single_pwd_runs_in_shell(stages: Seq<StageModel>)
    requires
        stages.len() == 1,
        stages[0].name == "pwd"@,
    ensures
        runs_in_shell(stages),
        dispatch(stages[0].name, stages[0].args) == Builtin::PrintWorkingDir,
{
    lemma_builtin_names_differ();
}

/// Law of the single `cd`: a pipeline whose only stage is named `cd` and has
/// no argument, or more than one, is run by the shell itself and comes to
/// nothing but the report of its misuse.
pub proof fn lemma_single_cd_misused(stages: Seq<StageModel>)
    requires
        stages.len() == 1,
        stages[0].name == "cd"@,
        stages[0].args.len() != 1,
    ensures
        runs_in_shell(stages),
        dispatch(stages[0].name, stages[0].args) == Builtin::Usage("Invalid Length"@),
{
    lemma_builtin_names_differ();
}

} // verus!
