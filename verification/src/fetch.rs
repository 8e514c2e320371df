//! The course of one transfer of a remote object into a local file.
//!
//! The caller creates the file, asks the object store and moves the bytes; after
//! each of these it reports what happened, and is told here what comes next.

use vstd::prelude::*;
use vstd::string::StringExecFns;

verus! {

/// What to fetch, and where to.
#[derive(Debug, PartialEq, Eq)]
pub struct FetchRequest {
    /// The bucket that holds the object.
    pub bucket: String,
    /// The key of the object in its bucket.
    pub key: String,
    /// The path of the local file that receives the bytes.
    pub destination: String,
}

/// Why a transfer failed.
#[derive(Clone, Copy, Debug, PartialEq, Eq, Structural)]
pub enum FetchError {
    /// The store has no such object.
    NotFound,
    /// The store refuses access to the object.
    AccessDenied,
    /// The request or the stream of bytes broke off.
    TransferInterrupted,
    /// The local file could not be created or written.
    LocalIOError,
}

/// How far a transfer has come.
#[derive(Clone, Copy, Debug, PartialEq, Eq, Structural)]
pub enum FetchState {
    /// Nothing is done yet: the local file is to be created.
    Start,
    /// The local file stands: the object is to be asked for.
    Requesting,
    /// The object's bytes are coming in; `written` of them are in the file.
    Receiving { written: usize },
    /// The object is in the file, all `written` bytes of it.
    Done { written: usize },
    /// The transfer failed. What was written before stays in the file.
    Failed { error: FetchError },
}

/// What the caller reports.
#[derive(Clone, Copy, Debug, PartialEq, Eq, Structural)]
pub enum FetchEvent {
    /// The local file was created.
    FileCreated,
    /// The local file could not be created.
    FileRefused,
    /// The store answered with the object's stream.
    ObjectOpened,
    /// The store has no such object.
    ObjectMissing,
    /// The store refuses access to the object.
    ObjectDenied,
    /// The request failed otherwise.
    RequestFailed,
    /// A chunk of `len` bytes came in and was written to the file.
    ChunkStored { len: usize },
    /// The stream ended.
    EndOfStream,
    /// The stream broke off.
    StreamBroken,
    /// A chunk came in and could not be written to the file.
    StoreFailed,
}

/// What the caller does next.
#[derive(Clone, Copy, Debug, PartialEq, Eq, Structural)]
pub enum FetchAction {
    /// Create the local file, emptying one that exists.
    CreateFile,
    /// Ask the store for the object.
    RequestObject,
    /// Take the next chunk from the stream and write it to the file.
    MoveChunk,
    /// Report the transfer as done, with the number of bytes written.
    Report { bytes: usize },
    /// Report the failure. Nothing is tried again.
    GiveUp { error: FetchError },
}

/// The state that follows `state` on `event`. An event that the state does
/// not wait for leaves it as it is; so does any event after the end.
pub open spec fn fetch_next(state: FetchState, event: FetchEvent) -> FetchState {
    match (state, event) {
        (FetchState::Start, FetchEvent::FileCreated) => FetchState::Requesting,
        (FetchState::Start, FetchEvent::FileRefused) => FetchState::Failed {
            error: FetchError::LocalIOError,
        },
        (FetchState::Requesting, FetchEvent::ObjectOpened) => FetchState::Receiving { written: 0 },
        (FetchState::Requesting, FetchEvent::ObjectMissing) => FetchState::Failed {
            error: FetchError::NotFound,
        },
        (FetchState::Requesting, FetchEvent::ObjectDenied) => FetchState::Failed {
            error: FetchError::AccessDenied,
        },
        (FetchState::Requesting, FetchEvent::RequestFailed) => FetchState::Failed {
            error: FetchError::TransferInterrupted,
        },
        (FetchState::Receiving { written }, FetchEvent::ChunkStored { len }) => {
            FetchState::Receiving { written: (written + len) as usize }
        },
        (FetchState::Receiving { written }, FetchEvent::EndOfStream) => FetchState::Done {
            written,
        },
        (FetchState::Receiving { .. }, FetchEvent::StreamBroken) => FetchState::Failed {
            error: FetchError::TransferInterrupted,
        },
        (FetchState::Receiving { .. }, FetchEvent::StoreFailed) => FetchState::Failed {
            error: FetchError::LocalIOError,
        },
        _ => state,
    }
}

/// Whether the count of bytes stays within the machine's range when `event`
/// comes in `state`.
pub open spec fn count_fits(state: FetchState, event: FetchEvent) -> bool {
    match (state, event) {
        (FetchState::Receiving { written }, FetchEvent::ChunkStored { len }) => written + len
            <= usize::MAX,
        _ => true,
    }
}

/// What the caller does in `state`.
pub open spec fn fetch_duty(state: FetchState) -> FetchAction {
    match state {
        FetchState::Start => FetchAction::CreateFile,
        FetchState::Requesting => FetchAction::RequestObject,
        FetchState::Receiving { .. } => FetchAction::MoveChunk,
        FetchState::Done { written } => FetchAction::Report { bytes: written },
        FetchState::Failed { error } => FetchAction::GiveUp { error },
    }
}

/// Takes `event` in `state`: the state that follows, and what the caller does
/// next.
pub fn fetch_step(state: FetchState, event: FetchEvent) -> (r: (FetchState, FetchAction))
    requires
        count_fits(state, event),
    ensures
        r.0 == fetch_next(state, event),
        r.1 == fetch_duty(r.0),
{
    let next = match (state, event) {
        (FetchState::Start, FetchEvent::FileCreated) => FetchState::Requesting,
        (FetchState::Start, FetchEvent::FileRefused) => FetchState::Failed {
            error: FetchError::LocalIOError,
        },
        (FetchState::Requesting, FetchEvent::ObjectOpened) => FetchState::Receiving { written: 0 },
        (FetchState::Requesting, FetchEvent::ObjectMissing) => FetchState::Failed {
            error: FetchError::NotFound,
        },
        (FetchState::Requesting, FetchEvent::ObjectDenied) => FetchState::Failed {
            error: FetchError::AccessDenied,
        },
        (FetchState::Requesting, FetchEvent::RequestFailed) => FetchState::Failed {
            error: FetchError::TransferInterrupted,
        },
        (FetchState::Receiving { written }, FetchEvent::ChunkStored { len }) => {
            FetchState::Receiving { written: written + len }
        },
        (FetchState::Receiving { written }, FetchEvent::EndOfStream) => FetchState::Done {
            written,
        },
        (FetchState::Receiving { .. }, FetchEvent::StreamBroken) => FetchState::Failed {
            error: FetchError::TransferInterrupted,
        },
        (FetchState::Receiving { .. }, FetchEvent::StoreFailed) => FetchState::Failed {
            error: FetchError::LocalIOError,
        },
        _ => state,
    };
    (next, fetch_action(next))
}

/// What the caller does in `state`.
pub fn fetch_action(state: FetchState) -> (action: FetchAction)
    ensures
        action == fetch_duty(state),
{
    match state {
        FetchState::Start => FetchAction::CreateFile,
        FetchState::Requesting => FetchAction::RequestObject,
        FetchState::Receiving { .. } => FetchAction::MoveChunk,
        FetchState::Done { written } => FetchAction::Report { bytes: written },
        FetchState::Failed { error } => FetchAction::GiveUp { error },
    }
}

/// The event for a request that the store answered with this HTTP status
/// instead of the object: 404 is a missing object, 401 and 403 are a refusal,
/// anything else a failed request.
pub fn refusal_event(status: u16) -> (event: FetchEvent)
    ensures
        event == if status == 404 {
            FetchEvent::ObjectMissing
        } else if status == 401 || status == 403 {
            FetchEvent::ObjectDenied
        } else {
            FetchEvent::RequestFailed
        },
{
    if status == 404 {
        FetchEvent::ObjectMissing
    } else if status == 401 || status == 403 {
        FetchEvent::ObjectDenied
    } else {
        FetchEvent::RequestFailed
    }
}

/// What the operator is told of a transfer of `request` that failed with
/// `error`: what went wrong, and the object and bucket or the local file that
/// it went wrong with.
pub open spec fn failure_text(request: FetchRequest, error: FetchError) -> Seq<char> {
    match error {
        FetchError::NotFound => "Failed to get object from S3: no object "@ + request.key@
            + " in bucket "@ + request.bucket@,
        FetchError::AccessDenied => "Failed to get object from S3: access denied to object "@
            + request.key@ + " in bucket "@ + request.bucket@,
        FetchError::TransferInterrupted => "Failed to read bytes from object stream: object "@
            + request.key@ + " in bucket "@ + request.bucket@,
        FetchError::LocalIOError => "Failed to write to file at "@ + request.destination@,
    }
}

/// The operator's message for a transfer of `request` that failed with
/// `error`.
pub fn failure_message(request: &FetchRequest, error: FetchError) -> (message: String)
    ensures
        message@ == failure_text(*request, error),
{
    match error {
        FetchError::NotFound => "Failed to get object from S3: no object ".to_owned().concat(
            request.key.as_str(),
        ).concat(" in bucket ").concat(request.bucket.as_str()),
        FetchError::AccessDenied => "Failed to get object from S3: access denied to object ".to_owned().concat(
            request.key.as_str(),
        ).concat(" in bucket ").concat(request.bucket.as_str()),
        FetchError::TransferInterrupted => "Failed to read bytes from object stream: object ".to_owned().concat(
            request.key.as_str(),
        ).concat(" in bucket ").concat(request.bucket.as_str()),
        FetchError::LocalIOError => "Failed to write to file at ".to_owned().concat(
            request.destination.as_str(),
        ),
    }
}

/// The state reached from `state` by `events` in turn.
pub open spec fn fetch_run(state: FetchState, events: Seq<FetchEvent>) -> FetchState
    decreases events.len(),
{
    if events.len() == 0 {
        state
    } else {
        fetch_next(fetch_run(state, events.drop_last()), events.last())
    }
}

/// The sum of the lengths.
pub open spec fn total_len(chunks: Seq<usize>) -> nat
    decreases chunks.len(),
{
    if chunks.len() == 0 {
        0
    } else {
        total_len(chunks.drop_last()) + chunks.last() as nat
    }
}

/// The events of a transfer that goes well and brings these chunks.
pub open spec fn clean_transfer(chunks: Seq<usize>) -> Seq<FetchEvent> {
    seq![FetchEvent::FileCreated, FetchEvent::ObjectOpened] + chunks.map_values(
        |len: usize| FetchEvent::ChunkStored { len },
    ) + seq![FetchEvent::EndOfStream]
}

proof fn lemma_receiving_adds_up(chunks: Seq<usize>)
    requires
        total_len(chunks) <= usize::MAX,
    ensures
        fetch_run(
            FetchState::Start,
            seq![FetchEvent::FileCreated, FetchEvent::ObjectOpened] + chunks.map_values(
                |len: usize| FetchEvent::ChunkStored { len },
            ),
        ) == (FetchState::Receiving { written: total_len(chunks) as usize }),
    decreases chunks.len(),
{
    let stored = |len: usize| FetchEvent::ChunkStored { len };
    let opening = seq![FetchEvent::FileCreated, FetchEvent::ObjectOpened];
    let events = opening + chunks.map_values(stored);
    if chunks.len() == 0 {
        assert(events =~= opening);
        assert(opening.drop_last() =~= seq![FetchEvent::FileCreated]);
        assert(seq![FetchEvent::FileCreated].drop_last() =~= Seq::<FetchEvent>::empty());
        assert(fetch_run(FetchState::Start, Seq::<FetchEvent>::empty()) == FetchState::Start);
        assert(fetch_run(FetchState::Start, seq![FetchEvent::FileCreated])
            == FetchState::Requesting);
    } else {
        let front = chunks.drop_last();
        lemma_receiving_adds_up(front);
        assert(events.drop_last() =~= opening + front.map_values(stored));
        assert(events.last() == stored(chunks.last()));
    }
}

/// A transfer that goes well ends as done, with the sum of the chunks'
/// lengths as its count of bytes; no chunks give a count of zero.
pub proof fn lemma_clean_transfer_counts_every_byte(chunks: Seq<usize>)
    requires
        total_len(chunks) <= usize::MAX,
    ensures
        fetch_run(FetchState::Start, clean_transfer(chunks)) == (FetchState::Done {
            written: total_len(chunks) as usize,
        }),
{
    lemma_receiving_adds_up(chunks);
    let events = clean_transfer(chunks);
    assert(events.drop_last() =~= seq![FetchEvent::FileCreated, FetchEvent::ObjectOpened]
        + chunks.map_values(|len: usize| FetchEvent::ChunkStored { len }));
    assert(events.last() == FetchEvent::EndOfStream);
}

/// A transfer that is done or has failed stays so: nothing is tried again.
pub proof fn lemma_fetch_end_is_final(state: FetchState, event: FetchEvent)
    requires
        state is Done || state is Failed,
    ensures
        fetch_next(state, event) == state,
{
}

/// A transfer ends as done only from receiving, on the end of the stream, and
/// then with the count it had.
pub proof fn lemma_done_only_at_end_of_stream(state: FetchState, event: FetchEvent)
    requires
        fetch_next(state, event) is Done,
        !(state is Done),
    ensures
        state is Receiving,
        event is EndOfStream,
        fetch_next(state, event)->Done_written == state->Receiving_written,
{
}

} // verus!
