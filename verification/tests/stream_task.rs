use bson::{Document, Timestamp};
use ddp_router::recovery::{Failure, FailureKind};
use ddp_router::stream_task::{Polled, StreamAction, StreamInput, StreamStep, StreamTask};
use ddp_router::watcher::{ChangeEvent, Event, OperationType};
use mongodb::change_stream::event::{ChangeStreamEvent, ResumeToken};
use mongodb::options::ChangeStreamOptions;

fn token(data: &str) -> ResumeToken {
    let mut id = Document::new();
    id.insert("_data", data);
    let mut event = Document::new();
    event.insert("_id", id);
    event.insert("operationType", "invalidate");
    bson::from_document::<ChangeStreamEvent<Document>>(event)
        .unwrap()
        .id
}

fn time(time: u32) -> Timestamp {
    Timestamp { time, increment: 0 }
}

fn document(id: i32) -> Document {
    let mut document = Document::new();
    document.insert("_id", id);
    document
}

fn change(operation_type: OperationType, id: i32) -> Polled {
    Polled::Change(ChangeEvent {
        operation_type,
        document_key: Some(document(id)),
        full_document: Some(document(id)),
    })
}

fn failure(kind: FailureKind, text: &str) -> Failure {
    Failure {
        kind,
        text: text.to_owned(),
    }
}

fn history_lost() -> FailureKind {
    FailureKind::Command {
        code: 286,
        code_name: "ChangeStreamHistoryLost".to_owned(),
        message: String::new(),
    }
}

fn advance(task: &mut StreamTask, input: StreamInput) -> StreamStep {
    assert!(task.accepts(&input));
    task.advance(input)
}

fn opening(step: StreamStep) -> ChangeStreamOptions {
    assert_eq!(step.ready, None);
    assert_eq!(step.broadcast, None);
    match step.action {
        StreamAction::Open(options) => options,
        _ => panic!("the stream is to be opened"),
    }
}

fn quietly_captures(step: StreamStep) {
    assert_eq!(step.ready, None);
    assert_eq!(step.broadcast, None);
    assert!(matches!(step.action, StreamAction::CaptureOperationTime));
}

/// A task whose first stream, opened at time 1, is followed.
fn following() -> StreamTask {
    let mut task = StreamTask::new(None);
    advance(&mut task, StreamInput::Begin);
    advance(&mut task, StreamInput::OperationTime(Some(time(1))));
    advance(&mut task, StreamInput::Opened);
    task
}

#[test]
fn first_stream_starts_at_the_reported_time() {
    let mut task = StreamTask::new(None);
    quietly_captures(advance(&mut task, StreamInput::Begin));
    let options = opening(advance(&mut task, StreamInput::OperationTime(Some(time(1)))));
    assert_eq!(options.start_at_operation_time, Some(time(1)));
    let step = advance(&mut task, StreamInput::Opened);
    assert_eq!(step.ready, Some(Ok(time(1))));
    assert_eq!(step.broadcast, None);
    assert!(matches!(step.action, StreamAction::Poll));
}

#[test]
fn failed_start_ends_the_task() {
    let mut task = StreamTask::new(None);
    advance(&mut task, StreamInput::Begin);
    let step = advance(
        &mut task,
        StreamInput::Failed(failure(history_lost(), "no server")),
    );
    assert_eq!(step.ready, Some(Err("no server".to_owned())));
    assert_eq!(step.broadcast, None);
    assert!(matches!(step.action, StreamAction::Stop(reason) if reason == "no server"));
    assert!(!task.accepts(&StreamInput::Begin));
    assert!(!task.accepts(&StreamInput::Opened));
}

#[test]
fn first_stream_that_cannot_be_opened_ends_the_task() {
    let mut task = StreamTask::new(None);
    advance(&mut task, StreamInput::Begin);
    advance(&mut task, StreamInput::OperationTime(Some(time(1))));
    let step = advance(
        &mut task,
        StreamInput::Failed(failure(FailureKind::Other, "not a replica set")),
    );
    assert_eq!(step.ready, Some(Err("not a replica set".to_owned())));
    assert!(matches!(step.action, StreamAction::Stop(reason) if reason == "not a replica set"));
}

#[test]
fn server_without_an_operation_time_is_a_failed_start() {
    let mut task = StreamTask::new(None);
    advance(&mut task, StreamInput::Begin);
    let step = advance(&mut task, StreamInput::OperationTime(None));
    let text = "MongoDB session did not report an operation time";
    assert_eq!(step.ready, Some(Err(text.to_owned())));
    assert!(matches!(step.action, StreamAction::Stop(reason) if reason == text));
}

#[test]
fn changes_are_passed_on_in_order() {
    let mut task = following();
    let mut heard = Vec::new();
    for (index, operation) in [
        OperationType::Insert,
        OperationType::Rename,
        OperationType::Update,
        OperationType::Delete,
        OperationType::Drop,
    ]
    .into_iter()
    .enumerate()
    {
        let step = advance(
            &mut task,
            StreamInput::Polled(change(operation, index as i32), Some(token("A"))),
        );
        assert_eq!(step.ready, None);
        assert!(matches!(step.action, StreamAction::Poll));
        heard.extend(step.broadcast);
    }
    assert_eq!(
        heard,
        vec![
            Event::Insert(document(0)),
            Event::Update(document(2)),
            Event::Delete(document(3)),
            Event::Clear
        ]
    );
}

#[test]
fn quiet_stream_is_polled_again() {
    let mut task = following();
    let step = advance(&mut task, StreamInput::Polled(Polled::Quiet(true), None));
    assert_eq!(step.broadcast, None);
    assert!(matches!(step.action, StreamAction::Poll));
}

#[test]
fn ended_stream_picks_up_at_its_token() {
    let mut task = following();
    advance(
        &mut task,
        StreamInput::Polled(change(OperationType::Insert, 1), Some(token("A"))),
    );
    let options = opening(advance(
        &mut task,
        StreamInput::Polled(Polled::Quiet(false), Some(token("B"))),
    ));
    assert_eq!(options.resume_after, Some(token("B")));
    assert_eq!(options.start_after, None);
    assert_eq!(options.start_at_operation_time, None);
    let step = advance(&mut task, StreamInput::Opened);
    assert_eq!(step.ready, None);
    assert_eq!(step.broadcast, None);
    assert!(matches!(step.action, StreamAction::Poll));
}

#[test]
fn stream_that_never_moved_picks_up_at_its_start() {
    let mut task = following();
    let options = opening(advance(
        &mut task,
        StreamInput::Polled(Polled::Failed(FailureKind::Other), None),
    ));
    assert_eq!(options.start_at_operation_time, Some(time(1)));
    let step = advance(&mut task, StreamInput::Opened);
    assert_eq!(step.broadcast, None);
}

#[test]
fn lost_stream_is_opened_afresh_and_announced() {
    let mut task = following();
    quietly_captures(advance(
        &mut task,
        StreamInput::Polled(Polled::Failed(history_lost()), Some(token("A"))),
    ));
    let options = opening(advance(&mut task, StreamInput::OperationTime(Some(time(9)))));
    assert_eq!(options.start_at_operation_time, Some(time(9)));
    assert_eq!(options.resume_after, None);
    let step = advance(&mut task, StreamInput::Opened);
    assert_eq!(step.ready, None);
    assert_eq!(step.broadcast, Some(Event::Resync(Some(time(9)))));
}

#[test]
fn invalidated_stream_starts_after_the_invalidation() {
    let mut task = following();
    let options = opening(advance(
        &mut task,
        StreamInput::Polled(change(OperationType::Invalidate, 1), Some(token("A"))),
    ));
    assert_eq!(options.start_after, Some(token("A")));
    assert_eq!(options.resume_after, None);
    let step = advance(&mut task, StreamInput::Opened);
    assert_eq!(step.broadcast, Some(Event::Resync(None)));
}

#[test]
fn invalidated_stream_without_a_token_is_opened_afresh() {
    let mut task = following();
    quietly_captures(advance(
        &mut task,
        StreamInput::Polled(change(OperationType::Invalidate, 1), None),
    ));
    opening(advance(&mut task, StreamInput::OperationTime(Some(time(2)))));
    let step = advance(&mut task, StreamInput::Opened);
    assert_eq!(step.broadcast, Some(Event::Resync(Some(time(2)))));
}

#[test]
fn failed_reopening_is_tried_again_where_it_was() {
    let mut task = following();
    advance(
        &mut task,
        StreamInput::Polled(Polled::Quiet(false), Some(token("A"))),
    );
    let step = advance(
        &mut task,
        StreamInput::Failed(failure(FailureKind::Other, "refused")),
    );
    assert_eq!(step.ready, None);
    assert_eq!(step.broadcast, None);
    assert!(matches!(step.action, StreamAction::Sleep(500)));
    let options = opening(advance(&mut task, StreamInput::Begin));
    assert_eq!(options.resume_after, Some(token("A")));
}

#[test]
fn reopening_that_cannot_resume_is_tried_again_afresh() {
    let mut task = following();
    advance(
        &mut task,
        StreamInput::Polled(Polled::Quiet(false), Some(token("A"))),
    );
    let step = advance(
        &mut task,
        StreamInput::Failed(failure(history_lost(), "history lost")),
    );
    assert!(matches!(step.action, StreamAction::Sleep(500)));
    quietly_captures(advance(&mut task, StreamInput::Begin));
    let step = advance(
        &mut task,
        StreamInput::Failed(failure(FailureKind::Other, "refused")),
    );
    assert!(matches!(step.action, StreamAction::Sleep(500)));
    quietly_captures(advance(&mut task, StreamInput::Begin));
    opening(advance(&mut task, StreamInput::OperationTime(Some(time(4)))));
    let step = advance(&mut task, StreamInput::Opened);
    assert_eq!(step.broadcast, Some(Event::Resync(Some(time(4)))));
}

#[test]
fn pending_resync_survives_a_failed_reopening() {
    let mut task = following();
    advance(
        &mut task,
        StreamInput::Polled(change(OperationType::Invalidate, 1), Some(token("A"))),
    );
    advance(
        &mut task,
        StreamInput::Failed(failure(FailureKind::Other, "refused")),
    );
    let options = opening(advance(&mut task, StreamInput::Begin));
    assert_eq!(options.start_after, Some(token("A")));
    let step = advance(&mut task, StreamInput::Opened);
    assert_eq!(step.broadcast, Some(Event::Resync(None)));
}

#[test]
fn task_takes_only_what_it_waits_for() {
    let mut task = StreamTask::new(None);
    assert!(!task.accepts(&StreamInput::Opened));
    assert!(!task.accepts(&StreamInput::OperationTime(None)));
    advance(&mut task, StreamInput::Begin);
    assert!(!task.accepts(&StreamInput::Begin));
    assert!(!task.accepts(&StreamInput::Polled(Polled::Quiet(true), None)));
}
