use bson::{Document, Timestamp};
use ddp_router::checkpoint::{StreamCheckpoint, StreamCheckpointState};
use mongodb::change_stream::event::{ChangeStreamEvent, ResumeToken};
use mongodb::options::FullDocumentType;

fn sample_resume_token() -> ResumeToken {
    let mut id = Document::new();
    id.insert("_data", "825F45B7E3000000012B022C0100296E5A1004B7F5159C0F7646F4A7ED8D65B18B4D12463C5F6964006460F45D2B53D8C8A88BBA2E0004");
    let mut key = Document::new();
    key.insert("_id", 1);
    let mut namespace = Document::new();
    namespace.insert("db", "test");
    namespace.insert("coll", "items");
    let mut event = Document::new();
    event.insert("_id", id);
    event.insert("operationType", "insert");
    event.insert("fullDocument", key.clone());
    event.insert("documentKey", key);
    event.insert("ns", namespace);
    bson::from_document::<ChangeStreamEvent<Document>>(event)
        .unwrap()
        .id
}

fn sample_time() -> Timestamp {
    Timestamp {
        time: 7,
        increment: 3,
    }
}

#[test]
fn checkpoint_state_promotes_operation_time_to_resume_token() {
    let mut checkpoint_state = StreamCheckpointState::default();
    checkpoint_state.set_checkpoint(StreamCheckpoint::OperationTime(Timestamp {
        time: 1,
        increment: 1,
    }));

    checkpoint_state.update_resume_token(Some(sample_resume_token()));

    assert!(matches!(
        checkpoint_state.checkpoint(),
        Some(StreamCheckpoint::ResumeAfter(_))
    ));
}

#[test]
fn checkpoint_state_marks_invalidation_with_start_after() {
    let mut checkpoint_state = StreamCheckpointState::default();

    assert!(checkpoint_state.mark_invalidated(Some(sample_resume_token())));
    assert!(matches!(
        checkpoint_state.checkpoint(),
        Some(StreamCheckpoint::StartAfter(_))
    ));
}

#[test]
fn checkpoint_state_starts_without_a_place() {
    assert_eq!(StreamCheckpointState::default().checkpoint(), None);
}

#[test]
fn checkpoint_state_stays_without_a_token() {
    let checkpoint = StreamCheckpoint::OperationTime(sample_time());
    let mut checkpoint_state = StreamCheckpointState::default();
    checkpoint_state.set_checkpoint(checkpoint.clone());

    checkpoint_state.update_resume_token(None);
    assert_eq!(checkpoint_state.checkpoint(), Some(checkpoint.clone()));
    assert!(!checkpoint_state.mark_invalidated(None));
    assert_eq!(checkpoint_state.checkpoint(), Some(checkpoint));
}

#[test]
fn operation_time_opens_a_stream_there() {
    let options = StreamCheckpoint::OperationTime(sample_time())
        .into_options(Some(FullDocumentType::UpdateLookup));
    assert_eq!(options.start_at_operation_time, Some(sample_time()));
    assert_eq!(options.resume_after, None);
    assert_eq!(options.start_after, None);
    assert!(matches!(options.full_document, Some(FullDocumentType::UpdateLookup)));
}

#[test]
fn resume_token_resumes_a_stream() {
    let options = StreamCheckpoint::ResumeAfter(sample_resume_token()).into_options(None);
    assert_eq!(options.start_at_operation_time, None);
    assert_eq!(options.resume_after, Some(sample_resume_token()));
    assert_eq!(options.start_after, None);
    assert!(options.full_document.is_none());
    assert_eq!(options.batch_size, None);
}

#[test]
fn token_of_an_invalidated_stream_starts_another() {
    let options = StreamCheckpoint::StartAfter(sample_resume_token())
        .into_options(Some(FullDocumentType::Required));
    assert_eq!(options.start_at_operation_time, None);
    assert_eq!(options.resume_after, None);
    assert_eq!(options.start_after, Some(sample_resume_token()));
    assert!(matches!(options.full_document, Some(FullDocumentType::Required)));
}

#[test]
fn only_an_operation_time_is_known_as_a_start() {
    let time = StreamCheckpoint::OperationTime(sample_time());
    assert_eq!(time.start_at_operation_time(), Some(sample_time()));
    let resumed = StreamCheckpoint::ResumeAfter(sample_resume_token());
    assert_eq!(resumed.start_at_operation_time(), None);
    let started = StreamCheckpoint::StartAfter(sample_resume_token());
    assert_eq!(started.start_at_operation_time(), None);
}
