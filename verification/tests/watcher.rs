use bson::{Document, Timestamp};
use ddp_router::stream_task::{StreamAction, StreamInput};
use ddp_router::watcher::{
    await_ready, classify_change_event, projected_fields, watched_operations, BufferedChange,
    ChangeEvent, Event, OperationType, Watcher,
};
use mongodb::options::FullDocumentType;
use tokio::sync::oneshot;

fn document(id: i32) -> Document {
    let mut document = Document::new();
    document.insert("_id", id);
    document
}

fn time(time: u32) -> Timestamp {
    Timestamp { time, increment: 1 }
}

#[test]
fn await_ready_returns_success() {
    let (sender, receiver) = oneshot::channel::<Result<Timestamp, String>>();
    let timestamp = Timestamp {
        time: 1,
        increment: 2,
    };
    sender.send(Ok(timestamp)).unwrap();

    assert_eq!(await_ready(receiver.blocking_recv().ok()).unwrap(), timestamp);
}

#[test]
fn await_ready_returns_startup_error() {
    let (sender, receiver) = oneshot::channel::<Result<Timestamp, String>>();
    sender.send(Err("startup failed".to_owned())).unwrap();

    let error = await_ready(receiver.blocking_recv().ok()).unwrap_err();
    assert_eq!(error, "startup failed");
}

#[test]
fn await_ready_detects_dropped_signal() {
    let (sender, receiver) = oneshot::channel::<Result<Timestamp, String>>();
    drop(sender);

    let error = await_ready(receiver.blocking_recv().ok()).unwrap_err();
    assert_eq!(
        error,
        "change stream startup task terminated before reporting readiness"
    );
}

fn classify(
    operation_type: OperationType,
    document_key: Option<Document>,
    full_document: Option<Document>,
) -> Option<Event> {
    match classify_change_event(ChangeEvent {
        operation_type,
        document_key,
        full_document,
    }) {
        BufferedChange::Event(event) => Some(event),
        BufferedChange::Invalidate => panic!("unexpected invalidation"),
        BufferedChange::Ignore => None,
    }
}

#[test]
fn changes_become_events() {
    let key = Some(document(1));
    let full = Some(document(2));
    assert_eq!(
        classify(OperationType::Delete, key.clone(), full.clone()),
        Some(Event::Delete(document(1)))
    );
    assert_eq!(
        classify(OperationType::Insert, key.clone(), full.clone()),
        Some(Event::Insert(document(2)))
    );
    assert_eq!(
        classify(OperationType::Replace, key.clone(), full.clone()),
        Some(Event::Update(document(2)))
    );
    assert_eq!(
        classify(OperationType::Update, key.clone(), full),
        Some(Event::Update(document(2)))
    );
    assert_eq!(classify(OperationType::Drop, None, None), Some(Event::Clear));
    assert_eq!(
        classify(OperationType::DropDatabase, key, None),
        Some(Event::Clear)
    );
}

#[test]
fn changes_without_their_document_are_ignored() {
    let some = Some(document(1));
    assert_eq!(classify(OperationType::Delete, None, some.clone()), None);
    assert_eq!(classify(OperationType::Insert, some.clone(), None), None);
    assert_eq!(classify(OperationType::Replace, some.clone(), None), None);
    assert_eq!(classify(OperationType::Update, some.clone(), None), None);
    assert_eq!(classify(OperationType::Rename, some.clone(), some.clone()), None);
    assert_eq!(classify(OperationType::Other, some.clone(), some), None);
}

#[test]
fn invalidation_ends_the_stream() {
    assert!(matches!(
        classify_change_event(ChangeEvent {
            operation_type: OperationType::Invalidate,
            document_key: None,
            full_document: None,
        }),
        BufferedChange::Invalidate
    ));
}

#[test]
fn server_is_asked_for_what_is_handled() {
    assert_eq!(
        watched_operations(),
        vec!["delete", "drop", "dropDatabase", "insert", "invalidate", "replace", "update"]
    );
    assert_eq!(
        projected_fields(),
        vec!["_id", "documentKey", "fullDocument", "ns", "operationType"]
    );
}

#[test]
fn cursors_of_a_collection_share_its_stream() {
    let mut watcher: Watcher<u32> = Watcher::new(None);
    let users = "users".to_owned();
    let items = "items".to_owned();
    assert_eq!(watcher.watch(&items), None);

    let first = watcher.started(items.clone(), 7, "first", Some(Ok(time(3)))).unwrap();
    assert_eq!(first.receiver, "first");
    assert_eq!(first.start_at_operation_time, Some(time(3)));
    assert_eq!(watcher.watch(&items), Some(&7));
    assert_eq!(watcher.watch(&users), None);

    watcher.started(users.clone(), 8, "other", Some(Ok(time(4)))).unwrap();
    assert_eq!(watcher.watch(&items), Some(&7));
    assert_eq!(watcher.watch(&users), Some(&8));

    let second = Watcher::<u32>::join("second");
    assert_eq!(second.receiver, "second");
    assert_eq!(second.start_at_operation_time, None);
}

#[test]
fn later_stream_of_a_collection_takes_the_place_of_the_earlier() {
    let mut watcher: Watcher<u32> = Watcher::new(None);
    let items = "items".to_owned();
    watcher.started(items.clone(), 7, (), Some(Ok(time(3)))).unwrap();
    watcher.started(items.clone(), 9, (), Some(Ok(time(4)))).unwrap();
    assert_eq!(watcher.watch(&items), Some(&9));
}

#[test]
fn collection_whose_stream_does_not_start_is_not_watched() {
    let mut watcher: Watcher<u32> = Watcher::new(None);
    let items = "items".to_owned();
    let refused = watcher.started(items.clone(), 7, (), Some(Err("not a replica set".to_owned())));
    assert_eq!(refused.err(), Some("not a replica set".to_owned()));
    assert_eq!(watcher.watch(&items), None);

    let lost = watcher.started(items.clone(), 7, (), None);
    assert_eq!(
        lost.err(),
        Some("change stream startup task terminated before reporting readiness".to_owned())
    );
    assert_eq!(watcher.watch(&items), None);
}

#[test]
fn streams_carry_documents_as_the_watcher_was_told() {
    let watcher: Watcher<u32> = Watcher::new(Some(FullDocumentType::UpdateLookup));
    let mut task = watcher.start();
    task.advance(StreamInput::Begin);
    let step = task.advance(StreamInput::OperationTime(Some(time(5))));
    match step.action {
        StreamAction::Open(options) => {
            assert!(matches!(options.full_document, Some(FullDocumentType::UpdateLookup)));
            assert_eq!(options.start_at_operation_time, Some(time(5)));
        }
        _ => panic!("the stream is to be opened"),
    }
}
