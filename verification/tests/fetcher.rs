use bson::{Bson, Document, Timestamp};
use ddp_router::cursor::description::CursorDescription;
use ddp_router::cursor::effect::{Effect, EffectKind, FetchError};
use ddp_router::cursor::fetch_state::FetchPhase;
use ddp_router::cursor::fetcher::{
    Action, CursorFetcher, DocumentEvent, Input, Received, WatchPlan,
};
use ddp_router::cursor::order::Order;
use ddp_router::cursor::process::Reading;
use ddp_router::json::JsonDocument;
use ddp_router::watcher::Event;
use serde_json::Value;
use std::collections::VecDeque;

/// What a client is sent.
#[derive(Debug, PartialEq)]
enum Message {
    Added {
        collection: String,
        id: Value,
        fields: Option<JsonDocument>,
    },
    Changed {
        collection: String,
        id: Value,
        fields: JsonDocument,
    },
    Removed {
        collection: String,
        id: Value,
    },
}

/// A client that counts how often each document is shown to it.
#[derive(Default)]
struct Client {
    shown: Vec<(Value, Vec<JsonDocument>)>,
    messages: Vec<Message>,
}

impl Client {
    fn perform(&mut self, mut effect: Effect) {
        if effect.project {
            effect.fields.remove("p");
        }
        let position = self.shown.iter().position(|(id, _)| *id == effect.id);
        match (effect.kind, position) {
            (EffectKind::Insert, None) => {
                self.messages.push(Message::Added {
                    collection: effect.collection,
                    id: effect.id.clone(),
                    fields: Some(effect.fields.clone()).filter(|fields| !fields.is_empty()),
                });
                self.shown.push((effect.id, vec![effect.fields]));
            }
            (EffectKind::Insert, Some(position)) => {
                let views = &mut self.shown[position].1;
                if views.last() != Some(&effect.fields) {
                    self.messages.push(Message::Changed {
                        collection: effect.collection,
                        id: effect.id,
                        fields: effect.fields.clone(),
                    });
                }
                views.push(effect.fields);
            }
            (EffectKind::Remove, position) => {
                let position = position.expect("a document that is not shown cannot go");
                let views = &mut self.shown[position].1;
                let view = views.iter().position(|view| *view == effect.fields).unwrap();
                views.remove(view);
                if views.is_empty() {
                    self.shown.remove(position);
                    self.messages.push(Message::Removed {
                        collection: effect.collection,
                        id: effect.id,
                    });
                }
            }
        }
    }

    fn shows(&self) -> Vec<Value> {
        self.shown.iter().map(|(id, _)| id.clone()).collect()
    }
}

/// The world around a fetcher: what its fetches find and what its channel holds.
#[derive(Default)]
struct World {
    client: Client,
    snapshots: VecDeque<Vec<JsonDocument>>,
    boundaries: Vec<Option<Timestamp>>,
    channel: VecDeque<Received>,
}

fn json(document: Document) -> JsonDocument {
    match Bson::Document(document).into_relaxed_extjson() {
        Value::Object(document) => document,
        _ => unreachable!(),
    }
}

fn document(fields: &[(&str, i32)]) -> Document {
    let mut document = Document::new();
    for (key, value) in fields {
        document.insert(*key, *value);
    }
    document
}

fn json_document(fields: &[(&str, i32)]) -> JsonDocument {
    json(document(fields))
}

fn read(fetcher: &CursorFetcher, event: DocumentEvent, document: Document) -> Reading {
    let document = json(document);
    let order = match (event, fetcher.limit()) {
        (DocumentEvent::Delete, _) | (_, None) => vec![],
        (_, Some(_)) => fetcher
            .documents()
            .iter()
            .map(|x| match x["a"].as_i64().cmp(&document["a"].as_i64()) {
                std::cmp::Ordering::Less => Order::Before,
                std::cmp::Ordering::Equal => Order::Level,
                std::cmp::Ordering::Greater => Order::After,
            })
            .collect(),
    };
    let matches = !document.contains_key("hidden");
    Reading {
        document,
        matches,
        order,
    }
}

fn drive(
    fetcher: &mut CursorFetcher,
    mut action: Action,
    world: &mut World,
) -> Result<(), FetchError> {
    loop {
        let input = match action {
            Action::Fetch(boundary) => {
                world.boundaries.push(boundary);
                Input::Fetched(world.snapshots.pop_front().unwrap())
            }
            Action::Perform(effects) => {
                for effect in effects {
                    world.client.perform(effect);
                }
                Input::Performed
            }
            Action::Receive => Input::Received(world.channel.pop_front().unwrap_or(Received::Empty)),
            Action::Read(event, document) => Input::Read(read(fetcher, event, document)),
            Action::Finished => return Ok(()),
            Action::Failed(error) => return Err(error),
        };
        assert!(fetcher.accepts(&input));
        action = fetcher.advance(input);
    }
}

fn handle(fetcher: &mut CursorFetcher, world: &mut World, event: Event) -> Result<(), FetchError> {
    let action = fetcher.handle_event(event);
    drive(fetcher, action, world)
}

fn description(limit: Option<usize>) -> CursorDescription {
    CursorDescription {
        collection: "x".to_owned(),
        limit,
        polling_interval_ms: None,
    }
}

fn fetcher(limit: Option<usize>) -> CursorFetcher {
    CursorFetcher::new(description(limit), true)
}

fn fetched(limit: Option<usize>, world: &mut World, snapshot: Vec<JsonDocument>) -> CursorFetcher {
    let mut fetcher = fetcher(limit);
    world.snapshots.push_back(snapshot);
    let action = fetcher.fetch_snapshot(None);
    assert!(drive(&mut fetcher, action, world).is_ok());
    world.client.messages.clear();
    world.boundaries.clear();
    fetcher
}

fn simulate(events: Vec<Event>, messages: Vec<Message>) {
    let mut world = World::default();
    let mut fetcher = fetcher(None);
    for event in events {
        assert!(handle(&mut fetcher, &mut world, event).is_ok());
    }

    assert_eq!(world.client.messages, messages);
    assert!(fetcher.documents().is_empty());
}

fn time(time: u32) -> Timestamp {
    Timestamp { time, increment: 0 }
}

#[test]
fn scenario_1() {
    simulate(vec![], vec![]);
}

#[test]
fn scenario_2() {
    simulate(
        vec![
            Event::Insert(document(&[("_id", 1)])),
            Event::Insert(document(&[("_id", 2), ("a", 3)])),
            Event::Clear,
        ],
        vec![
            Message::Added {
                collection: "x".to_owned(),
                id: Value::from(1),
                fields: None,
            },
            Message::Added {
                collection: "x".to_owned(),
                id: Value::from(2),
                fields: Some(json_document(&[("a", 3)])),
            },
            Message::Removed {
                collection: "x".to_owned(),
                id: Value::from(1),
            },
            Message::Removed {
                collection: "x".to_owned(),
                id: Value::from(2),
            },
        ],
    );
}

#[test]
fn duplicate_insert_reuses_existing_document() {
    let mut world = World::default();
    let mut fetcher = fetcher(None);
    world.snapshots.push_back(vec![json_document(&[("_id", 1), ("a", 1)])]);
    let action = fetcher.fetch_snapshot(None);
    assert!(drive(&mut fetcher, action, &mut world).is_ok());
    assert_eq!(
        world.client.messages.pop(),
        Some(Message::Added {
            collection: "x".to_owned(),
            id: Value::from(1),
            fields: Some(json_document(&[("a", 1)])),
        })
    );

    let event = Event::Insert(document(&[("_id", 1), ("a", 1)]));
    assert!(handle(&mut fetcher, &mut world, event).is_ok());

    assert!(world.client.messages.is_empty());
    assert_eq!(*fetcher.documents(), vec![json_document(&[("_id", 1), ("a", 1)])]);
}

#[test]
fn snapshot_takes_the_place_of_earlier_documents() {
    let mut world = World::default();
    let mut fetcher = fetched(
        None,
        &mut world,
        vec![json_document(&[("_id", 1), ("a", 1)]), json_document(&[("_id", 2)])],
    );
    let snapshot = vec![json_document(&[("_id", 2)]), json_document(&[("_id", 3)])];
    world.snapshots.push_back(snapshot.clone());
    let action = fetcher.fetch_snapshot(Some(time(5)));
    assert!(drive(&mut fetcher, action, &mut world).is_ok());

    assert_eq!(world.boundaries, vec![Some(time(5))]);
    assert_eq!(*fetcher.documents(), snapshot);
    assert_eq!(
        world.client.messages,
        vec![
            Message::Added {
                collection: "x".to_owned(),
                id: Value::from(3),
                fields: None,
            },
            Message::Removed {
                collection: "x".to_owned(),
                id: Value::from(1),
            },
        ]
    );
}

#[test]
fn writes_during_the_fetch_are_replayed() {
    let mut world = World::default();
    let mut fetcher = fetcher(None);
    world.snapshots.push_back(vec![json_document(&[("_id", 0), ("a", -1)])]);
    for id in 1..=20 {
        let event = Event::Insert(document(&[("_id", id), ("a", id)]));
        world.channel.push_back(Received::Event(event));
    }
    world.channel.push_back(Received::Event(Event::Update(document(&[("_id", 0), ("a", 7)]))));
    world.channel.push_back(Received::Event(Event::Delete(document(&[("_id", 3)]))));

    let action = fetcher.refetch_and_replay(Some(time(1)));
    assert_eq!(fetcher.phase(), FetchPhase::Querying);
    assert!(drive(&mut fetcher, action, &mut world).is_ok());

    assert_eq!(fetcher.phase(), FetchPhase::Steady);
    assert_eq!(world.boundaries, vec![Some(time(1))]);
    let mut seen: Vec<i64> = world.client.shows().iter().map(|id| id.as_i64().unwrap()).collect();
    seen.sort();
    let expected: Vec<i64> = (0..=20).filter(|id| *id != 3).collect();
    assert_eq!(seen, expected);
    assert_eq!(fetcher.documents().len(), 20);
    assert!(fetcher.documents().contains(&json_document(&[("_id", 0), ("a", 7)])));
}

#[test]
fn lost_events_start_over_without_a_boundary() {
    let mut world = World::default();
    let mut fetcher = fetcher(None);
    world.snapshots.push_back(vec![json_document(&[("_id", 1)])]);
    world.snapshots.push_back(vec![json_document(&[("_id", 2)])]);
    world.channel.push_back(Received::Event(Event::Insert(document(&[("_id", 9)]))));
    world.channel.push_back(Received::Lagged(4));

    let action = fetcher.refetch_and_replay(Some(time(1)));
    assert!(drive(&mut fetcher, action, &mut world).is_ok());

    assert_eq!(world.boundaries, vec![Some(time(1)), None]);
    assert_eq!(*fetcher.documents(), vec![json_document(&[("_id", 2)])]);
    assert_eq!(world.client.shows(), vec![Value::from(2)]);
}

#[test]
fn resync_during_the_fetch_starts_over_at_its_boundary() {
    let mut world = World::default();
    let mut fetcher = fetcher(None);
    world.snapshots.push_back(vec![json_document(&[("_id", 1)])]);
    world.snapshots.push_back(vec![json_document(&[("_id", 2)])]);
    world.channel.push_back(Received::Event(Event::Insert(document(&[("_id", 9)]))));
    world.channel.push_back(Received::Event(Event::Resync(Some(time(8)))));
    world.channel.push_back(Received::Event(Event::Insert(document(&[("_id", 3)]))));

    let action = fetcher.refetch_and_replay(None);
    assert!(drive(&mut fetcher, action, &mut world).is_ok());

    assert_eq!(world.boundaries, vec![None, Some(time(8))]);
    assert_eq!(
        *fetcher.documents(),
        vec![json_document(&[("_id", 2)]), json_document(&[("_id", 3)])]
    );
}

#[test]
fn handed_resync_fetches_at_its_boundary() {
    let mut world = World::default();
    let mut fetcher = fetcher(None);
    world.snapshots.push_back(vec![json_document(&[("_id", 2)])]);
    assert!(handle(&mut fetcher, &mut world, Event::Resync(Some(time(3)))).is_ok());
    assert_eq!(world.boundaries, vec![Some(time(3))]);
    assert_eq!(fetcher.phase(), FetchPhase::Steady);
}

#[test]
fn closed_channel_is_a_failure() {
    let mut world = World::default();
    let mut fetcher = fetcher(None);
    world.snapshots.push_back(vec![json_document(&[("_id", 1)])]);
    world.channel.push_back(Received::Closed);

    let action = fetcher.refetch_and_replay(None);
    let result = drive(&mut fetcher, action, &mut world);
    assert!(matches!(result, Err(FetchError::ReceiverClosed)));
    assert_eq!(fetcher.phase(), FetchPhase::Querying);
    assert_eq!(*fetcher.documents(), vec![json_document(&[("_id", 1)])]);
}

#[test]
fn fetched_document_without_an_id_is_a_failure() {
    let mut world = World::default();
    let mut fetcher = fetched(None, &mut world, vec![json_document(&[("_id", 1)])]);
    world.snapshots.push_back(vec![
        json_document(&[("_id", 2)]),
        json_document(&[("a", 5)]),
        json_document(&[("_id", 3)]),
    ]);
    let action = fetcher.fetch_snapshot(None);
    match drive(&mut fetcher, action, &mut world) {
        Err(FetchError::MissingId(document)) => assert_eq!(document, json_document(&[("a", 5)])),
        _ => panic!("a document without an id cannot be shown"),
    }
    assert_eq!(*fetcher.documents(), vec![json_document(&[("_id", 1)])]);
    assert_eq!(world.client.shows(), vec![Value::from(1), Value::from(2)]);
}

#[test]
fn replayed_event_that_asks_for_it_fetches_again() {
    let mut world = World::default();
    let mut fetcher = fetcher(Some(2));
    world.snapshots.push_back(vec![
        json_document(&[("_id", 1), ("a", 1)]),
        json_document(&[("_id", 2), ("a", 2)]),
    ]);
    world.snapshots.push_back(vec![
        json_document(&[("_id", 2), ("a", 2)]),
        json_document(&[("_id", 3), ("a", 3)]),
    ]);
    world.channel.push_back(Received::Event(Event::Delete(document(&[("_id", 1)]))));

    let action = fetcher.refetch_and_replay(Some(time(1)));
    assert!(drive(&mut fetcher, action, &mut world).is_ok());

    assert_eq!(world.boundaries, vec![Some(time(1)), None]);
    assert_eq!(fetcher.documents().len(), 2);
    assert_eq!(world.client.shows(), vec![Value::from(2), Value::from(3)]);
}

#[test]
fn handled_event_that_asks_for_it_fetches_again() {
    let mut world = World::default();
    let mut fetcher = fetched(
        Some(1),
        &mut world,
        vec![json_document(&[("_id", 1), ("a", 1)])],
    );
    world.snapshots.push_back(vec![json_document(&[("_id", 2), ("a", 2)])]);
    let event = Event::Update(document(&[("_id", 1), ("a", 1), ("hidden", 1)]));
    assert!(handle(&mut fetcher, &mut world, event).is_ok());
    assert_eq!(world.boundaries, vec![None]);
    assert_eq!(*fetcher.documents(), vec![json_document(&[("_id", 2), ("a", 2)])]);
}

#[test]
fn limited_cursor_keeps_its_first_documents() {
    let mut world = World::default();
    let mut fetcher = fetcher(Some(2));
    for (id, a) in [(1, 30), (2, 10), (3, 20), (4, 40)] {
        let event = Event::Insert(document(&[("_id", id), ("a", a)]));
        assert!(handle(&mut fetcher, &mut world, event).is_ok());
    }
    assert_eq!(
        *fetcher.documents(),
        vec![
            json_document(&[("_id", 2), ("a", 10)]),
            json_document(&[("_id", 3), ("a", 20)])
        ]
    );
    assert_eq!(world.client.shows(), vec![Value::from(2), Value::from(3)]);
}

#[test]
fn mergebox_is_told_of_the_documents_when_it_comes_and_goes() {
    let mut world = World::default();
    let fetcher = fetched(
        None,
        &mut world,
        vec![json_document(&[("_id", 1), ("a", 1)]), json_document(&[("_id", 2)])],
    );
    let mut client = Client::default();
    let (effects, failure) = fetcher.register();
    assert!(failure.is_none());
    assert!(effects.iter().all(|effect| effect.kind == EffectKind::Insert && effect.project));
    for effect in effects {
        client.perform(effect);
    }
    assert_eq!(client.shows(), vec![Value::from(1), Value::from(2)]);

    let (effects, failure) = fetcher.unregister();
    assert!(failure.is_none());
    assert!(effects.iter().all(|effect| effect.kind == EffectKind::Remove && effect.project));
    for effect in effects {
        client.perform(effect);
    }
    assert!(client.shows().is_empty());
}

#[test]
fn newly_registered_client_does_not_see_an_excluded_field() {
    let mut world = World::default();
    let mut fetcher = fetcher(None);
    let event = Event::Insert(document(&[("_id", 1), ("a", 3), ("p", 2)]));
    assert!(handle(&mut fetcher, &mut world, event).is_ok());
    assert_eq!(
        world.client.messages,
        vec![Message::Added {
            collection: "x".to_owned(),
            id: Value::from(1),
            fields: Some(json_document(&[("a", 3)])),
        }]
    );

    let mut client = Client::default();
    for effect in fetcher.register().0 {
        client.perform(effect);
    }
    assert_eq!(client.messages, world.client.messages);
    for effect in fetcher.unregister().0 {
        client.perform(effect);
    }
    assert!(client.shows().is_empty());
}

#[test]
fn snapshot_takes_back_what_events_told() {
    let mut world = World::default();
    let mut fetcher = fetcher(None);
    let event = Event::Insert(document(&[("_id", 1), ("a", 3), ("p", 2)]));
    assert!(handle(&mut fetcher, &mut world, event).is_ok());
    world.snapshots.push_back(vec![json_document(&[("_id", 2)])]);
    let action = fetcher.fetch_snapshot(None);
    assert!(drive(&mut fetcher, action, &mut world).is_ok());
    assert_eq!(world.client.shows(), vec![Value::from(2)]);
}

#[test]
fn document_that_is_inserted_twice_goes_at_once() {
    let mut world = World::default();
    let mut fetcher = fetcher(None);
    for a in [1, 2] {
        let event = Event::Insert(document(&[("_id", 1), ("a", a)]));
        assert!(handle(&mut fetcher, &mut world, event).is_ok());
    }
    assert_eq!(
        world.client.messages.pop(),
        Some(Message::Changed {
            collection: "x".to_owned(),
            id: Value::from(1),
            fields: json_document(&[("a", 2)]),
        })
    );
    let event = Event::Delete(document(&[("_id", 1)]));
    assert!(handle(&mut fetcher, &mut world, event).is_ok());
    assert!(world.client.shows().is_empty());
}

#[test]
fn update_that_moves_out_of_a_full_cursor_fetches_again() {
    let mut world = World::default();
    let mut fetcher = fetched(
        Some(2),
        &mut world,
        vec![
            json_document(&[("_id", 1), ("a", 1)]),
            json_document(&[("_id", 2), ("a", 2)]),
        ],
    );
    world.snapshots.push_back(vec![
        json_document(&[("_id", 2), ("a", 2)]),
        json_document(&[("_id", 3), ("a", 3)]),
    ]);
    let event = Event::Update(document(&[("_id", 1), ("a", 9)]));
    assert!(handle(&mut fetcher, &mut world, event).is_ok());
    assert_eq!(world.boundaries, vec![None]);
    assert_eq!(world.client.shows(), vec![Value::from(2), Value::from(3)]);
}

#[test]
fn limited_cursor_follows_its_updates() {
    let mut world = World::default();
    let mut fetcher = fetcher(Some(3));
    for (id, a) in [(1, 10), (2, 20), (3, 30)] {
        let event = Event::Insert(document(&[("_id", id), ("a", a)]));
        assert!(handle(&mut fetcher, &mut world, event).is_ok());
    }
    for (id, a) in [(3, 5), (1, 10), (2, 7), (4, 6)] {
        let event = Event::Update(document(&[("_id", id), ("a", a), ("b", a)]));
        assert!(handle(&mut fetcher, &mut world, event).is_ok());
    }
    assert_eq!(
        *fetcher.documents(),
        vec![
            json_document(&[("_id", 3), ("a", 5), ("b", 5)]),
            json_document(&[("_id", 4), ("a", 6), ("b", 6)]),
            json_document(&[("_id", 2), ("a", 7), ("b", 7)]),
        ]
    );
    let mut seen: Vec<i64> = world.client.shows().iter().map(|id| id.as_i64().unwrap()).collect();
    seen.sort();
    assert_eq!(seen, vec![2, 3, 4]);
}

#[test]
fn cursor_subscribes_if_its_query_can_be_asked() {
    assert!(matches!(fetcher(None).watch(), WatchPlan::Subscribe(collection) if collection == "x"));
    assert_eq!(fetcher(None).collection(), "x");
}

#[test]
fn cursor_polls_every_ten_seconds_unless_told_otherwise() {
    let fetcher = CursorFetcher::new(description(None), false);
    assert!(matches!(fetcher.watch(), WatchPlan::Poll(10_000)));
    assert_eq!(fetcher.polling_interval(), 10_000);

    let mut description = description(None);
    description.polling_interval_ms = Some(250);
    let fetcher = CursorFetcher::new(description, false);
    assert!(matches!(fetcher.watch(), WatchPlan::Poll(250)));
    assert_eq!(fetcher.polling_interval(), 250);
}

#[test]
fn fetcher_takes_only_what_it_waits_for() {
    let mut fetcher = fetcher(Some(3));
    assert!(!fetcher.accepts(&Input::Performed));
    fetcher.fetch_snapshot(None);
    assert!(!fetcher.accepts(&Input::Performed));
    assert!(fetcher.accepts(&Input::Fetched(vec![])));
    fetcher.handle_event(Event::Insert(document(&[("_id", 1)])));
    let reading = |order: Vec<Order>| {
        Input::Read(Reading {
            document: json_document(&[("_id", 1)]),
            matches: true,
            order,
        })
    };
    assert!(fetcher.accepts(&reading(vec![])));
    assert!(!fetcher.accepts(&reading(vec![Order::Level])));
}

#[test]
fn events_cannot_be_replayed_by_a_query_that_cannot_be_asked() {
    let mut fetcher = CursorFetcher::new(description(None), false);
    fetcher.refetch_and_replay(None);
    fetcher.advance(Input::Fetched(vec![]));
    fetcher.advance(Input::Performed);
    fetcher.advance(Input::Performed);
    assert!(fetcher.accepts(&Input::Received(Received::Empty)));
    fetcher.advance(Input::Received(Received::Event(Event::Clear)));
    assert!(!fetcher.accepts(&Input::Received(Received::Empty)));
    assert!(fetcher.accepts(&Input::Received(Received::Lagged(1))));
}
