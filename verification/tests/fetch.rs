use sensor_ingest::fetch::failure_message;
use sensor_ingest::fetch::fetch_action;
use sensor_ingest::fetch::fetch_step;
use sensor_ingest::fetch::refusal_event;
use sensor_ingest::fetch::FetchAction;
use sensor_ingest::fetch::FetchError;
use sensor_ingest::fetch::FetchEvent;
use sensor_ingest::fetch::FetchRequest;
use sensor_ingest::fetch::FetchState;

fn run(events: &[FetchEvent]) -> (FetchState, FetchAction) {
    let mut state = FetchState::Start;
    let mut action = fetch_action(state);
    for event in events {
        let (next, duty) = fetch_step(state, *event);
        state = next;
        action = duty;
    }
    (state, action)
}

#[test]
fn a_transfer_starts_by_creating_the_file() {
    assert_eq!(fetch_action(FetchState::Start), FetchAction::CreateFile);
    assert_eq!(
        fetch_step(FetchState::Start, FetchEvent::FileCreated),
        (FetchState::Requesting, FetchAction::RequestObject)
    );
}

#[test]
fn a_clean_transfer_counts_every_byte() {
    let (state, action) = run(&[
        FetchEvent::FileCreated,
        FetchEvent::ObjectOpened,
        FetchEvent::ChunkStored { len: 4096 },
        FetchEvent::ChunkStored { len: 4096 },
        FetchEvent::ChunkStored { len: 17 },
        FetchEvent::EndOfStream,
    ]);
    assert_eq!(state, FetchState::Done { written: 8209 });
    assert_eq!(action, FetchAction::Report { bytes: 8209 });
}

#[test]
fn an_empty_object_is_done_with_zero_bytes() {
    let (state, action) =
        run(&[FetchEvent::FileCreated, FetchEvent::ObjectOpened, FetchEvent::EndOfStream]);
    assert_eq!(state, FetchState::Done { written: 0 });
    assert_eq!(action, FetchAction::Report { bytes: 0 });
}

#[test]
fn chunks_are_moved_one_by_one() {
    let (state, action) = run(&[
        FetchEvent::FileCreated,
        FetchEvent::ObjectOpened,
        FetchEvent::ChunkStored { len: 10 },
    ]);
    assert_eq!(state, FetchState::Receiving { written: 10 });
    assert_eq!(action, FetchAction::MoveChunk);
}

#[test]
fn each_failure_has_its_error() {
    assert_eq!(
        run(&[FetchEvent::FileRefused]).0,
        FetchState::Failed { error: FetchError::LocalIOError }
    );
    assert_eq!(
        run(&[FetchEvent::FileCreated, FetchEvent::ObjectMissing]).0,
        FetchState::Failed { error: FetchError::NotFound }
    );
    assert_eq!(
        run(&[FetchEvent::FileCreated, FetchEvent::ObjectDenied]).0,
        FetchState::Failed { error: FetchError::AccessDenied }
    );
    assert_eq!(
        run(&[FetchEvent::FileCreated, FetchEvent::RequestFailed]).0,
        FetchState::Failed { error: FetchError::TransferInterrupted }
    );
    assert_eq!(
        run(&[
            FetchEvent::FileCreated,
            FetchEvent::ObjectOpened,
            FetchEvent::ChunkStored { len: 5 },
            FetchEvent::StreamBroken
        ]),
        (
            FetchState::Failed { error: FetchError::TransferInterrupted },
            FetchAction::GiveUp { error: FetchError::TransferInterrupted }
        )
    );
    assert_eq!(
        run(&[FetchEvent::FileCreated, FetchEvent::ObjectOpened, FetchEvent::StoreFailed]).0,
        FetchState::Failed { error: FetchError::LocalIOError }
    );
}

#[test]
fn nothing_is_tried_again_after_the_end() {
    let failed = FetchState::Failed { error: FetchError::NotFound };
    assert_eq!(fetch_step(failed, FetchEvent::ObjectOpened).0, failed);
    assert_eq!(fetch_step(failed, FetchEvent::ChunkStored { len: 9 }).0, failed);
    let done = FetchState::Done { written: 3 };
    assert_eq!(fetch_step(done, FetchEvent::ChunkStored { len: 9 }).0, done);
    assert_eq!(fetch_step(done, FetchEvent::StreamBroken).0, done);
}

#[test]
fn a_fetch_event_out_of_turn_changes_nothing() {
    assert_eq!(
        fetch_step(FetchState::Start, FetchEvent::ChunkStored { len: 9 }),
        (FetchState::Start, FetchAction::CreateFile)
    );
    assert_eq!(
        fetch_step(FetchState::Requesting, FetchEvent::EndOfStream).0,
        FetchState::Requesting
    );
    assert_eq!(
        fetch_step(FetchState::Receiving { written: 1 }, FetchEvent::FileCreated).0,
        FetchState::Receiving { written: 1 }
    );
}

#[test]
fn refusals_are_told_apart_by_status() {
    assert_eq!(refusal_event(404), FetchEvent::ObjectMissing);
    assert_eq!(refusal_event(403), FetchEvent::ObjectDenied);
    assert_eq!(refusal_event(401), FetchEvent::ObjectDenied);
    assert_eq!(refusal_event(500), FetchEvent::RequestFailed);
    assert_eq!(refusal_event(200), FetchEvent::RequestFailed);
}

#[test]
fn a_request_names_bucket_key_and_destination() {
    let request = FetchRequest {
        bucket: "sensors".to_string(),
        key: "2024/data.zip".to_string(),
        destination: "data/zip/data.zip".to_string(),
    };
    assert_eq!(request.bucket, "sensors");
    assert_eq!(request.key, "2024/data.zip");
    assert_eq!(request.destination, "data/zip/data.zip");
}

#[test]
fn a_failure_names_what_it_went_wrong_with() {
    let request = FetchRequest {
        bucket: "sensors".to_string(),
        key: "2024/data.zip".to_string(),
        destination: "data/zip/data.zip".to_string(),
    };
    assert_eq!(
        failure_message(&request, FetchError::NotFound),
        "Failed to get object from S3: no object 2024/data.zip in bucket sensors"
    );
    assert_eq!(
        failure_message(&request, FetchError::AccessDenied),
        "Failed to get object from S3: access denied to object 2024/data.zip in bucket sensors"
    );
    assert_eq!(
        failure_message(&request, FetchError::TransferInterrupted),
        "Failed to read bytes from object stream: object 2024/data.zip in bucket sensors"
    );
    assert_eq!(
        failure_message(&request, FetchError::LocalIOError),
        "Failed to write to file at data/zip/data.zip"
    );
}
