//! The order of the stages of one run.
//!
//! A run looks for the staged file first. Where it is there, nothing is fetched
//! or expanded again. Every stage must end well before the next begins, and the
//! first failure ends the run.

use crate::archive::ExtractError;
use crate::fetch::failure_message;
use crate::fetch::failure_text;
use crate::fetch::FetchError;
use crate::fetch::FetchRequest;
use crate::frame::ProjectionError;
use crate::frame::ReadError;
use crate::schema::ValidationReport;
use vstd::prelude::*;

verus! {

/// Why a run failed.
#[derive(Debug, PartialEq, Eq)]
pub enum PipelineError {
    /// The archive could not be fetched: the kind of failure, and the message
    /// that names the object and bucket or the local file involved.
    RemoteFetch(FetchError, String),
    /// A local file could not be read, created or written.
    LocalIO(String),
    /// The archive could not be expanded.
    Archive(ExtractError),
    /// The table could not be reduced to the desired columns.
    Projection(ProjectionError),
    /// The reduced table could not be encoded.
    Serialization(String),
}

/// Where a run stands.
#[derive(Debug, PartialEq, Eq)]
pub enum PipelineState {
    /// It is to be seen whether the staged file is there.
    CheckStaged,
    /// The archive is being fetched.
    Fetching,
    /// The archive is being expanded.
    Extracting,
    /// The table's header is held against the expected schema. What this
    /// finds is advice: it ends the stage well whatever it is.
    Validating,
    /// The table is reduced to the desired columns.
    Projecting,
    /// The reduced table is written out.
    Writing,
    /// The run is over and the output is written.
    Done,
    /// The run is over and has failed.
    Failed(PipelineError),
}

/// What the caller reports.
#[derive(Debug, PartialEq, Eq)]
pub enum PipelineEvent {
    /// The staged file is there.
    StagedFound,
    /// The staged file is not there.
    StagedMissing,
    /// The stage at hand ended well.
    StageDone,
    /// The stage at hand failed.
    StageFailed(PipelineError),
}

/// What the caller does next.
#[derive(Clone, Copy, Debug, PartialEq, Eq, Structural)]
pub enum PipelineAction {
    /// See whether the staged file is there.
    ProbeStaged,
    /// Fetch the archive.
    Fetch,
    /// Expand the archive.
    Extract,
    /// Hold the table's header against the expected schema.
    Validate,
    /// Reduce the table to the desired columns.
    Project,
    /// Write the reduced table out.
    Write,
    /// End the process with status zero.
    ExitOk,
    /// Show the error and end the process with a status other than zero.
    ExitFailed,
}

/// Whether a run in `state` is over.
pub open spec fn is_over(state: PipelineState) -> bool {
    state is Done || state is Failed
}

/// The state that follows `state` on `event`. A failure ends the run from any
/// state in which it is not over. An event that the state does not wait for
/// leaves it as it is.
pub open spec fn pipeline_next(state: PipelineState, event: PipelineEvent) -> PipelineState {
    match (state, event) {
        (PipelineState::Done, _) => state,
        (PipelineState::Failed(_), _) => state,
        (_, PipelineEvent::StageFailed(error)) => PipelineState::Failed(error),
        (PipelineState::CheckStaged, PipelineEvent::StagedFound) => PipelineState::Validating,
        (PipelineState::CheckStaged, PipelineEvent::StagedMissing) => PipelineState::Fetching,
        (PipelineState::Fetching, PipelineEvent::StageDone) => PipelineState::Extracting,
        (PipelineState::Extracting, PipelineEvent::StageDone) => PipelineState::Validating,
        (PipelineState::Validating, PipelineEvent::StageDone) => PipelineState::Projecting,
        (PipelineState::Projecting, PipelineEvent::StageDone) => PipelineState::Writing,
        (PipelineState::Writing, PipelineEvent::StageDone) => PipelineState::Done,
        _ => state,
    }
}

/// What the caller does in `state`.
pub open spec fn pipeline_duty(state: PipelineState) -> PipelineAction {
    match state {
        PipelineState::CheckStaged => PipelineAction::ProbeStaged,
        PipelineState::Fetching => PipelineAction::Fetch,
        PipelineState::Extracting => PipelineAction::Extract,
        PipelineState::Validating => PipelineAction::Validate,
        PipelineState::Projecting => PipelineAction::Project,
        PipelineState::Writing => PipelineAction::Write,
        PipelineState::Done => PipelineAction::ExitOk,
        PipelineState::Failed(_) => PipelineAction::ExitFailed,
    }
}

/// The state in which every run begins.
pub fn pipeline_start() -> (state: PipelineState)
    ensures
        state is CheckStaged,
{
    PipelineState::CheckStaged
}

/// Takes `event` in `state` and gives the state that follows.
pub fn pipeline_step(state: PipelineState, event: PipelineEvent) -> (next: PipelineState)
    ensures
        next == pipeline_next(state, event),
{
    match (state, event) {
        (PipelineState::Done, _) => PipelineState::Done,
        (PipelineState::Failed(error), _) => PipelineState::Failed(error),
        (_, PipelineEvent::StageFailed(error)) => PipelineState::Failed(error),
        (PipelineState::CheckStaged, PipelineEvent::StagedFound) => PipelineState::Validating,
        (PipelineState::CheckStaged, PipelineEvent::StagedMissing) => PipelineState::Fetching,
        (PipelineState::Fetching, PipelineEvent::StageDone) => PipelineState::Extracting,
        (PipelineState::Extracting, PipelineEvent::StageDone) => PipelineState::Validating,
        (PipelineState::Validating, PipelineEvent::StageDone) => PipelineState::Projecting,
        (PipelineState::Projecting, PipelineEvent::StageDone) => PipelineState::Writing,
        (PipelineState::Writing, PipelineEvent::StageDone) => PipelineState::Done,
        (state, _) => state,
    }
}

/// What the caller does in `state`.
pub fn pipeline_action(state: &PipelineState) -> (action: PipelineAction)
    ensures
        action == pipeline_duty(*state),
{
    match state {
        PipelineState::CheckStaged => PipelineAction::ProbeStaged,
        PipelineState::Fetching => PipelineAction::Fetch,
        PipelineState::Extracting => PipelineAction::Extract,
        PipelineState::Validating => PipelineAction::Validate,
        PipelineState::Projecting => PipelineAction::Project,
        PipelineState::Writing => PipelineAction::Write,
        PipelineState::Done => PipelineAction::ExitOk,
        PipelineState::Failed(_) => PipelineAction::ExitFailed,
    }
}

/// The status with which the process ends in `state`: zero after a run that
/// is done, one after a run that failed, none while the run goes on.
pub fn exit_status(state: &PipelineState) -> (status: Option<u8>)
    ensures
        status == match *state {
            PipelineState::Done => Some(0u8),
            PipelineState::Failed(_) => Some(1u8),
            _ => None,
        },
{
    match state {
        PipelineState::Done => Some(0),
        PipelineState::Failed(_) => Some(1),
        _ => None,
    }
}

/// What is reported of a fetch of `request`. It ended well whatever the
/// number of bytes, none included. A failure is reported with its kind and
/// with the message that names what was involved.
pub fn after_fetch(request: &FetchRequest, outcome: Result<usize, FetchError>) -> (event:
    PipelineEvent)
    ensures
        match outcome {
            Ok(_) => event is StageDone,
            Err(error) => event matches PipelineEvent::StageFailed(
                PipelineError::RemoteFetch(kind, message),
            ) && kind == error && message@ == failure_text(*request, error),
        },
{
    match outcome {
        Ok(_) => PipelineEvent::StageDone,
        Err(error) => PipelineEvent::StageFailed(
            PipelineError::RemoteFetch(error, failure_message(request, error)),
        ),
    }
}

/// What is reported of a validation. A report is advice: the stage ended well
/// whatever the report holds. Only a table that could not be read fails it.
pub fn after_validation(outcome: Result<ValidationReport, ReadError>) -> (event: PipelineEvent)
    ensures
        event == match outcome {
            Ok(_) => PipelineEvent::StageDone,
            Err(error) => PipelineEvent::StageFailed(PipelineError::LocalIO(error.message)),
        },
{
    match outcome {
        Ok(_) => PipelineEvent::StageDone,
        Err(error) => PipelineEvent::StageFailed(PipelineError::LocalIO(error.message)),
    }
}

/// The state reached from `state` by `events` in turn.
pub open spec fn pipeline_run(state: PipelineState, events: Seq<PipelineEvent>) -> PipelineState
    decreases events.len(),
{
    if events.len() == 0 {
        state
    } else {
        pipeline_next(pipeline_run(state, events.drop_last()), events.last())
    }
}

/// Whether the archive is fetched or expanded in `state`.
pub open spec fn touches_archive(state: PipelineState) -> bool {
    state is Fetching || state is Extracting
}

/// The archive is fetched only after the staged file was looked for and not
/// found, and expanded only after it was fetched.
pub proof fn lemma_archive_stages_need_missing_file(state: PipelineState, event: PipelineEvent)
    ensures
        pipeline_next(state, event) is Fetching && !(state is Fetching) ==> state is CheckStaged
            && event is StagedMissing,
        pipeline_next(state, event) is Extracting && !(state is Extracting) ==> state is Fetching
            && event is StageDone,
{
}

/// Once the staged file was found, the run never fetches or expands the
/// archive, whatever is reported afterwards.
pub proof fn lemma_staged_run_fetches_nothing(events: Seq<PipelineEvent>)
    ensures
        !touches_archive(pipeline_run(PipelineState::Validating, events)),
        !(pipeline_run(PipelineState::Validating, events) is CheckStaged),
        pipeline_run(PipelineState::CheckStaged, seq![PipelineEvent::StagedFound] + events)
            == pipeline_run(PipelineState::Validating, events),
    decreases events.len(),
{
    let found = seq![PipelineEvent::StagedFound];
    if events.len() == 0 {
        assert(found + events =~= found);
        assert(found.drop_last() =~= Seq::<PipelineEvent>::empty());
        assert(pipeline_run(PipelineState::CheckStaged, Seq::<PipelineEvent>::empty())
            == PipelineState::CheckStaged);
    } else {
        lemma_staged_run_fetches_nothing(events.drop_last());
        assert((found + events).drop_last() =~= found + events.drop_last());
        assert((found + events).last() == events.last());
    }
}

/// A run becomes done only when the writing ends well.
pub proof fn lemma_done_follows_writing(state: PipelineState, event: PipelineEvent)
    requires
        pipeline_next(state, event) is Done,
        !(state is Done),
    ensures
        state is Writing,
        event is StageDone,
{
}

/// A failure ends a run that is not over, with the error that was reported;
/// and a run that is over stays as it is.
pub proof fn lemma_first_failure_ends_run(
    state: PipelineState,
    error: PipelineError,
    event: PipelineEvent,
)
    ensures
        !is_over(state) ==> pipeline_next(state, PipelineEvent::StageFailed(error))
            == PipelineState::Failed(error),
        is_over(state) ==> pipeline_next(state, event) == state,
{
}

} // verus!
