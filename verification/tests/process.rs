use ddp_router::cursor::description::CursorDescription;
use ddp_router::cursor::effect::{announce, extract_id, EffectKind, FetchError};
use ddp_router::cursor::order::Order;
use ddp_router::cursor::process::{process, resume, Next, ReadEvent, Reading, Step};
use ddp_router::json::{find_position, JsonDocument};
use serde_json::Value;

type Told = (EffectKind, i64, JsonDocument);

fn description(limit: Option<usize>) -> CursorDescription {
    CursorDescription {
        collection: "x".to_owned(),
        limit,
        polling_interval_ms: None,
    }
}

fn document(fields: &[(&str, i64)]) -> JsonDocument {
    fields
        .iter()
        .map(|(key, value)| ((*key).to_owned(), Value::from(*value)))
        .collect()
}

fn documents(ids: &[i64]) -> Vec<JsonDocument> {
    ids.iter().map(|id| document(&[("_id", *id), ("a", *id)])).collect()
}

fn ids(documents: &[JsonDocument]) -> Vec<i64> {
    documents.iter().map(|x| x["_id"].as_i64().unwrap()).collect()
}

fn reading(document: JsonDocument, order: Vec<Order>) -> Reading {
    Reading {
        document,
        matches: true,
        order,
    }
}

fn unmatched(document: JsonDocument) -> Reading {
    Reading {
        document,
        matches: false,
        order: vec![],
    }
}

fn told(step: Step, heard: &mut Vec<Told>) -> Next {
    for effect in step.effects {
        assert_eq!(effect.collection, "x");
        assert!(effect.project);
        heard.push((effect.kind, effect.id.as_i64().unwrap(), effect.fields));
    }
    step.next
}

/// Does an event to its end: whether to fetch again, and what the mergeboxes were told.
fn complete(
    event: ReadEvent,
    limit: Option<usize>,
    documents: &mut Vec<JsonDocument>,
) -> (Result<bool, FetchError>, Vec<Told>) {
    let mut heard = Vec::new();
    let mut next = told(process(event, &description(limit), documents), &mut heard);
    loop {
        match next {
            Next::Done(refetch) => return (Ok(refetch), heard),
            Next::Fail(error) => return (Err(error), heard),
            Next::Continue(pending) => {
                next = told(resume(pending, &description(limit), documents), &mut heard);
            }
        }
    }
}

fn succeeds(
    event: ReadEvent,
    limit: Option<usize>,
    documents: &mut Vec<JsonDocument>,
) -> (bool, Vec<Told>) {
    let (result, heard) = complete(event, limit, documents);
    (result.unwrap(), heard)
}

fn a(value: i64) -> JsonDocument {
    document(&[("a", value)])
}

#[test]
fn clear_lets_every_document_go() {
    let mut stored = documents(&[1, 2]);
    assert_eq!(
        succeeds(ReadEvent::Clear, None, &mut stored),
        (false, vec![(EffectKind::Remove, 1, a(1)), (EffectKind::Remove, 2, a(2))])
    );
    assert!(stored.is_empty());
}

#[test]
fn clear_stops_at_a_document_without_an_id() {
    let mut stored = vec![document(&[("_id", 1)]), a(5), document(&[("_id", 2)])];
    let (result, heard) = complete(ReadEvent::Clear, None, &mut stored);
    assert!(matches!(result, Err(FetchError::MissingId(document)) if document == a(5)));
    assert_eq!(heard, vec![(EffectKind::Remove, 1, document(&[]))]);
    assert!(stored.is_empty());
}

#[test]
fn resync_asks_for_the_documents() {
    let mut stored = documents(&[1]);
    assert_eq!(succeeds(ReadEvent::Resync(None), None, &mut stored), (true, vec![]));
    assert_eq!(ids(&stored), vec![1]);
}

#[test]
fn delete_puts_the_last_document_in_the_gap() {
    let mut stored = documents(&[1, 2, 3]);
    let event = ReadEvent::Delete(document(&[("_id", 1)]));
    assert_eq!(
        succeeds(event, None, &mut stored),
        (false, vec![(EffectKind::Remove, 1, a(1))])
    );
    assert_eq!(ids(&stored), vec![3, 2]);
}

#[test]
fn delete_of_another_document_changes_nothing() {
    let mut stored = documents(&[1, 2]);
    let event = ReadEvent::Delete(document(&[("_id", 7)]));
    assert_eq!(succeeds(event, Some(2), &mut stored), (false, vec![]));
    assert_eq!(ids(&stored), vec![1, 2]);
}

#[test]
fn delete_at_the_limit_asks_for_the_documents() {
    let mut stored = documents(&[1, 2]);
    let event = ReadEvent::Delete(document(&[("_id", 1)]));
    assert_eq!(succeeds(event, Some(2), &mut stored), (true, vec![]));
    assert_eq!(ids(&stored), vec![1, 2]);
}

#[test]
fn delete_under_a_limit_keeps_the_order() {
    let mut stored = documents(&[1, 2, 3]);
    let event = ReadEvent::Delete(document(&[("_id", 1)]));
    assert_eq!(
        succeeds(event, Some(5), &mut stored),
        (false, vec![(EffectKind::Remove, 1, a(1))])
    );
    assert_eq!(ids(&stored), vec![2, 3]);
}

#[test]
fn delete_below_the_limit_lets_the_document_go() {
    let mut stored = documents(&[1, 2]);
    let event = ReadEvent::Delete(document(&[("_id", 2)]));
    assert_eq!(
        succeeds(event, Some(3), &mut stored),
        (false, vec![(EffectKind::Remove, 2, a(2))])
    );
    assert_eq!(ids(&stored), vec![1]);
}

#[test]
fn delete_without_an_id_is_a_failure() {
    let mut stored = documents(&[1]);
    let (result, heard) = complete(ReadEvent::Delete(a(4)), None, &mut stored);
    assert!(matches!(result, Err(FetchError::MissingId(document)) if document == a(4)));
    assert!(heard.is_empty());
    assert_eq!(ids(&stored), vec![1]);
}

#[test]
fn insert_that_does_not_match_changes_nothing() {
    let mut stored = documents(&[1]);
    let event = ReadEvent::Insert(unmatched(document(&[("_id", 2)])));
    assert_eq!(succeeds(event, None, &mut stored), (false, vec![]));
    assert_eq!(ids(&stored), vec![1]);
}

#[test]
fn insert_appends_without_a_limit() {
    let mut stored = documents(&[3]);
    let event = ReadEvent::Insert(reading(document(&[("_id", 2), ("a", 2)]), vec![]));
    assert_eq!(
        succeeds(event, None, &mut stored),
        (false, vec![(EffectKind::Insert, 2, a(2))])
    );
    assert_eq!(ids(&stored), vec![3, 2]);
}

#[test]
fn insert_without_an_id_is_a_failure_after_it_is_stored() {
    let mut stored = documents(&[1]);
    let (result, heard) = complete(ReadEvent::Insert(reading(a(4), vec![])), None, &mut stored);
    assert!(matches!(result, Err(FetchError::MissingId(document)) if document == a(4)));
    assert!(heard.is_empty());
    assert_eq!(stored, vec![document(&[("_id", 1), ("a", 1)]), a(4)]);
}

#[test]
fn insert_with_a_limit_sorts_and_trims() {
    let mut stored = documents(&[1, 3]);
    let event = ReadEvent::Insert(reading(
        document(&[("_id", 2), ("a", 2)]),
        vec![Order::Before, Order::After],
    ));
    assert_eq!(
        succeeds(event, Some(2), &mut stored),
        (false, vec![(EffectKind::Insert, 2, a(2)), (EffectKind::Remove, 3, a(3))])
    );
    assert_eq!(ids(&stored), vec![1, 2]);
}

#[test]
fn insert_past_the_limit_changes_nothing() {
    let mut stored = documents(&[1, 2]);
    let event = ReadEvent::Insert(reading(
        document(&[("_id", 3), ("a", 3)]),
        vec![Order::Before, Order::Before],
    ));
    assert_eq!(succeeds(event, Some(2), &mut stored), (false, vec![]));
    assert_eq!(ids(&stored), vec![1, 2]);
}

#[test]
fn insert_into_a_cursor_that_shows_nothing_changes_nothing() {
    let mut stored = vec![];
    let event = ReadEvent::Insert(reading(document(&[("_id", 3)]), vec![]));
    assert_eq!(succeeds(event, Some(0), &mut stored), (false, vec![]));
    assert!(stored.is_empty());
}

#[test]
fn insert_of_a_stored_document_takes_its_place() {
    let mut stored = documents(&[1, 2, 3]);
    let event = ReadEvent::Insert(reading(
        document(&[("_id", 1), ("a", 9)]),
        vec![Order::Before, Order::Before, Order::Before],
    ));
    assert_eq!(
        succeeds(event, Some(5), &mut stored),
        (false, vec![(EffectKind::Insert, 1, a(9)), (EffectKind::Remove, 1, a(1))])
    );
    assert_eq!(ids(&stored), vec![2, 3, 1]);
}

#[test]
fn insert_of_a_stored_document_without_a_limit_takes_its_place() {
    let mut stored = documents(&[1, 2, 3]);
    let event = ReadEvent::Insert(reading(document(&[("_id", 1), ("a", 9)]), vec![]));
    assert_eq!(
        succeeds(event, None, &mut stored),
        (false, vec![(EffectKind::Insert, 1, a(9)), (EffectKind::Remove, 1, a(1))])
    );
    assert_eq!(ids(&stored), vec![3, 2, 1]);
}

#[test]
fn insert_of_a_stored_document_into_a_full_cursor_takes_its_place() {
    let mut stored = documents(&[1, 2]);
    let event = ReadEvent::Insert(reading(
        document(&[("_id", 2), ("a", 0)]),
        vec![Order::After, Order::After],
    ));
    assert_eq!(
        succeeds(event, Some(2), &mut stored),
        (false, vec![(EffectKind::Insert, 2, a(0)), (EffectKind::Remove, 2, a(2))])
    );
    assert_eq!(ids(&stored), vec![2, 1]);
}

#[test]
fn stored_document_that_is_inserted_past_the_limit_goes() {
    let mut stored = documents(&[1, 2, 3]);
    let event = ReadEvent::Insert(reading(
        document(&[("_id", 1), ("a", 9)]),
        vec![Order::Before, Order::Before, Order::Before],
    ));
    assert_eq!(
        succeeds(event, Some(2), &mut stored),
        (false, vec![(EffectKind::Remove, 1, a(1))])
    );
    assert_eq!(ids(&stored), vec![2, 3]);
}

#[test]
fn update_without_a_limit_replaces_the_document() {
    let mut stored = documents(&[1, 2]);
    let event = ReadEvent::Update(reading(document(&[("_id", 1), ("a", 9)]), vec![]));
    assert_eq!(
        succeeds(event, None, &mut stored),
        (false, vec![(EffectKind::Insert, 1, a(9)), (EffectKind::Remove, 1, a(1))])
    );
    assert_eq!(
        stored,
        vec![document(&[("_id", 1), ("a", 9)]), document(&[("_id", 2), ("a", 2)])]
    );
}

#[test]
fn update_of_a_document_that_starts_to_match_adds_it() {
    let mut stored = documents(&[1]);
    let event = ReadEvent::Update(reading(document(&[("_id", 2), ("a", 2)]), vec![]));
    assert_eq!(
        succeeds(event, None, &mut stored),
        (false, vec![(EffectKind::Insert, 2, a(2))])
    );
    assert_eq!(ids(&stored), vec![1, 2]);
}

#[test]
fn update_with_a_limit_moves_the_document_down() {
    let mut stored = documents(&[1, 2, 3]);
    let event = ReadEvent::Update(reading(
        document(&[("_id", 1), ("a", 25)]),
        vec![Order::Before, Order::Before, Order::After],
    ));
    assert_eq!(
        succeeds(event, Some(5), &mut stored),
        (false, vec![(EffectKind::Insert, 1, a(25)), (EffectKind::Remove, 1, a(1))])
    );
    assert_eq!(ids(&stored), vec![2, 1, 3]);
    assert_eq!(stored[1], document(&[("_id", 1), ("a", 25)]));
}

#[test]
fn update_with_a_limit_moves_the_document_up() {
    let mut stored = documents(&[1, 2, 3]);
    let event = ReadEvent::Update(reading(
        document(&[("_id", 3), ("a", 0)]),
        vec![Order::After, Order::After, Order::After],
    ));
    assert_eq!(
        succeeds(event, Some(3), &mut stored),
        (false, vec![(EffectKind::Insert, 3, a(0)), (EffectKind::Remove, 3, a(3))])
    );
    assert_eq!(ids(&stored), vec![3, 1, 2]);
    assert_eq!(stored[0], document(&[("_id", 3), ("a", 0)]));
}

#[test]
fn update_with_a_limit_that_keeps_its_place_replaces_the_document() {
    let mut stored = documents(&[1, 2, 3]);
    let updated = document(&[("_id", 2), ("a", 2), ("b", 7)]);
    let event = ReadEvent::Update(reading(
        updated.clone(),
        vec![Order::Before, Order::Level, Order::After],
    ));
    assert_eq!(
        succeeds(event, Some(3), &mut stored),
        (
            false,
            vec![
                (EffectKind::Insert, 2, document(&[("a", 2), ("b", 7)])),
                (EffectKind::Remove, 2, a(2))
            ]
        )
    );
    assert_eq!(ids(&stored), vec![1, 2, 3]);
    assert_eq!(stored[1], updated);
}

#[test]
fn update_of_an_unknown_document_makes_room_in_a_full_cursor() {
    let mut stored = documents(&[1, 3]);
    let event = ReadEvent::Update(reading(
        document(&[("_id", 2), ("a", 2)]),
        vec![Order::Before, Order::After],
    ));
    assert_eq!(
        succeeds(event, Some(2), &mut stored),
        (false, vec![(EffectKind::Insert, 2, a(2)), (EffectKind::Remove, 3, a(3))])
    );
    assert_eq!(ids(&stored), vec![1, 2]);
}

#[test]
fn update_of_an_unknown_document_past_the_limit_changes_nothing() {
    let mut stored = documents(&[1, 2]);
    let event = ReadEvent::Update(reading(
        document(&[("_id", 3), ("a", 3)]),
        vec![Order::Before, Order::Before],
    ));
    assert_eq!(succeeds(event, Some(2), &mut stored), (false, vec![]));
    assert_eq!(ids(&stored), vec![1, 2]);
}

#[test]
fn update_of_a_stored_document_past_the_limit_asks_for_the_documents() {
    let mut stored = documents(&[1, 2]);
    let event = ReadEvent::Update(reading(
        document(&[("_id", 1), ("a", 9)]),
        vec![Order::Before, Order::Before],
    ));
    assert_eq!(succeeds(event, Some(2), &mut stored), (true, vec![]));
    assert_eq!(stored, documents(&[1, 2]));
}

#[test]
fn update_that_no_longer_matches_lets_the_document_go() {
    let mut stored = documents(&[1, 2, 3]);
    let event = ReadEvent::Update(unmatched(document(&[("_id", 1), ("b", 1)])));
    assert_eq!(
        succeeds(event, None, &mut stored),
        (false, vec![(EffectKind::Remove, 1, a(1))])
    );
    assert_eq!(ids(&stored), vec![3, 2]);

    let mut stored = documents(&[1, 2, 3]);
    let event = ReadEvent::Update(unmatched(document(&[("_id", 1), ("b", 1)])));
    assert_eq!(
        succeeds(event, Some(4), &mut stored),
        (false, vec![(EffectKind::Remove, 1, a(1))])
    );
    assert_eq!(ids(&stored), vec![2, 3]);
}

#[test]
fn update_that_no_longer_matches_at_the_limit_asks_for_the_documents() {
    let mut stored = documents(&[1, 2]);
    let event = ReadEvent::Update(unmatched(document(&[("_id", 1)])));
    assert_eq!(succeeds(event, Some(2), &mut stored), (true, vec![]));
    assert_eq!(ids(&stored), vec![1, 2]);
}

#[test]
fn update_of_an_unknown_document_that_does_not_match_changes_nothing() {
    let mut stored = documents(&[1, 2]);
    let event = ReadEvent::Update(unmatched(document(&[("_id", 7)])));
    assert_eq!(succeeds(event, Some(2), &mut stored), (false, vec![]));
    assert_eq!(ids(&stored), vec![1, 2]);
}

#[test]
fn update_without_an_id_that_does_not_match_is_a_failure() {
    let mut stored = documents(&[1]);
    let (result, heard) = complete(ReadEvent::Update(unmatched(a(4))), None, &mut stored);
    assert!(matches!(result, Err(FetchError::MissingId(document)) if document == a(4)));
    assert!(heard.is_empty());
}

#[test]
fn id_is_taken_out_of_a_document() {
    let mut with_id = document(&[("_id", 1), ("a", 2)]);
    assert_eq!(extract_id(&mut with_id).unwrap(), Value::from(1));
    assert_eq!(with_id, a(2));

    let mut without_id = a(2);
    assert!(matches!(
        extract_id(&mut without_id),
        Err(FetchError::MissingId(document)) if document == a(2)
    ));
    assert_eq!(without_id, a(2));
}

#[test]
fn documents_are_announced_up_to_the_first_without_an_id() {
    let list = vec![document(&[("_id", 1), ("a", 1)]), a(2), document(&[("_id", 3)])];
    let (effects, failure) = announce(&list, EffectKind::Insert, &"x".to_owned(), true);
    assert_eq!(effects.len(), 1);
    assert_eq!(effects[0].kind, EffectKind::Insert);
    assert_eq!(effects[0].collection, "x");
    assert_eq!(effects[0].id, Value::from(1));
    assert_eq!(effects[0].fields, a(1));
    assert!(effects[0].project);
    assert!(matches!(failure, Some(FetchError::MissingId(document)) if document == a(2)));
    assert_eq!(list[0], document(&[("_id", 1), ("a", 1)]));
}

#[test]
fn documents_are_found_by_id() {
    let list = vec![document(&[("_id", 1)]), a(2), document(&[("_id", 3)]), document(&[("_id", 3)])];
    assert_eq!(find_position(&list, Some(&Value::from(3))), Some(2));
    assert_eq!(find_position(&list, Some(&Value::from(9))), None);
    assert_eq!(find_position(&list, None), Some(1));
    assert_eq!(find_position(&list[..1].to_vec(), None), None);
}

#[test]
fn ids_are_compared_as_json_values() {
    let list = vec![
        [("_id".to_owned(), Value::from(1.0))].into_iter().collect::<JsonDocument>(),
        [("_id".to_owned(), Value::from("1"))].into_iter().collect::<JsonDocument>(),
        document(&[("_id", 1)]),
    ];
    assert_eq!(find_position(&list, Some(&Value::from(1))), Some(2));
    assert_eq!(find_position(&list, Some(&Value::from("1"))), Some(1));
    assert_eq!(find_position(&list, Some(&Value::from(1.0))), Some(0));
}
