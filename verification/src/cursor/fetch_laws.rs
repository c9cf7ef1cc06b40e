//! What a cursor asks for, what it takes, and how everything that it starts comes to an end.
use vstd::prelude::*;

use bson::{Document, Timestamp};

use crate::cursor::effect::{
    announcements, effect_views, law_documents_are_announced_one_for_one, moves, Effect, EffectKind,
    EffectView, FetchError, FetchErrorView,
};
use crate::cursor::event_laws::{goes, law_drop_leaves_nothing};
use crate::cursor::fetch_state::FetchPhase;
use crate::cursor::fetcher::{
    Action, ActionView, ActivityView, DocumentEvent, FetcherView, Input, InputView, OriginView,
    Received,
};
use crate::cursor::laws::completed;
use crate::cursor::process::{is_readable, NextView, ReadEventView, Reading};
use crate::cursor::replay_laws::{
    all_accepted, all_answered, answers, effects_of, inputs_of, last_action,
    law_event_takes_its_steps, reads_as, run,
};
use crate::json::{all_identified, contents, id_of, Fields, JsonDocument};
use crate::watcher::Event;

verus! {

/// Whether an action asks for what a fetcher waits for. One that waits for nothing has finished or
/// failed.
pub open spec fn asks(action: ActionView, activity: ActivityView) -> bool {
    match activity {
        ActivityView::Idle => action is Finished || action is Failed,
        ActivityView::Querying { .. } => action is Fetch,
        ActivityView::Draining => action is Receive,
        ActivityView::Reading { event, .. } => action matches ActionView::Read(read, _) && read
            == event,
        _ => action is Perform,
    }
}

/// Whatever a fetcher starts and whatever it is handed, its action asks for what it waits for next.
pub proof fn law_fetcher_asks_for_what_it_waits_for(
    fetcher: FetcherView,
    boundary: Option<Timestamp>,
    event: Event,
    input: InputView,
)
    ensures
        asks(fetcher.snapshot(boundary).1, fetcher.snapshot(boundary).0.activity),
        asks(fetcher.refetch(boundary).1, fetcher.refetch(boundary).0.activity),
        asks(fetcher.on_handed(event).1, fetcher.on_handed(event).0.activity),
        fetcher.accepts(input) ==> asks(
            fetcher.advanced(input).1,
            fetcher.advanced(input).0.activity,
        ),
{
}

/// A fetcher takes exactly what comes of its action. Of the readings of a document it takes those
/// that say how its documents sort, where that is needed, and if its query cannot be asked it takes
/// no end of events while some of them wait to be replayed.
pub proof fn law_fetcher_takes_what_it_asked_for(
    fetcher: FetcherView,
    action: ActionView,
    input: InputView,
)
    requires
        asks(action, fetcher.activity),
    ensures
        fetcher.accepts(input) <==> {
            &&& answers(input, action)
            &&& input == InputView::Received(Received::Empty) ==> fetcher.viewable
                || fetcher.buffered.len() == 0
            &&& action is Read && !(action->Read_0 is Delete) ==> {
                let reading = input->Read_0;
                !reading.matches || fetcher.limit is None || reading.order.len()
                    == fetcher.documents.len()
            }
        },
{
}

/// Nothing changes what a fetcher was made with.
pub proof fn law_settings_never_change(
    fetcher: FetcherView,
    boundary: Option<Timestamp>,
    event: Event,
    input: InputView,
)
    ensures
        ({
            let all = seq![
                fetcher.snapshot(boundary).0,
                fetcher.refetch(boundary).0,
                fetcher.on_handed(event).0,
                fetcher.advanced(input).0,
            ];
            forall|i: int|
                0 <= i < all.len() ==> {
                    &&& (#[trigger] all[i]).collection == fetcher.collection
                    &&& all[i].limit == fetcher.limit
                    &&& all[i].interval == fetcher.interval
                    &&& all[i].viewable == fetcher.viewable
                }
        }),
{
}

/// To fetch the documents is to ask for them at the time that is named and to wait for them. Only a
/// fetch with a replay forgets the events from before.
pub proof fn law_fetch_asks_for_the_documents(fetcher: FetcherView, boundary: Option<Timestamp>)
    ensures
        fetcher.snapshot(boundary).1 == ActionView::Fetch(boundary),
        fetcher.snapshot(boundary).0 == (FetcherView {
            activity: ActivityView::Querying { replay: false },
            ..fetcher
        }),
        fetcher.refetch(boundary).1 == ActionView::Fetch(boundary),
        fetcher.refetch(boundary).0.documents == fetcher.documents,
        fetcher.refetch(boundary).0.phase is Querying,
        fetcher.refetch(boundary).0.buffered.len() == 0,
        fetcher.refetch(boundary).0.activity == (ActivityView::Querying { replay: true }),
{
}

/// Whether an event carries a document.
pub open spec fn carries(event: Event, kind: DocumentEvent, document: Document) -> bool {
    match kind {
        DocumentEvent::Delete => event == Event::Delete(document),
        DocumentEvent::Insert => event == Event::Insert(document),
        DocumentEvent::Update => event == Event::Update(document),
    }
}

/// An event that carries a document has that document read, whether it is handed in or replayed,
/// and nothing changes until it was.
pub proof fn law_document_of_an_event_is_read(
    fetcher: FetcherView,
    event: Event,
    kind: DocumentEvent,
    document: Document,
    later: Seq<Event>,
)
    requires
        carries(event, kind, document),
    ensures
        fetcher.on_handed(event).1 == ActionView::Read(kind, document),
        fetcher.on_handed(event).0 == (FetcherView {
            activity: ActivityView::Reading { event: kind, origin: OriginView::Direct },
            ..fetcher
        }),
        fetcher.replay(seq![event] + later).1 == ActionView::Read(kind, document),
        fetcher.replay(seq![event] + later).0 == (FetcherView {
            activity: ActivityView::Reading { event: kind, origin: OriginView::Replay(later) },
            ..fetcher
        }),
{
    assert((seq![event] + later).drop_first() =~= later);
}

/// An event that is handed in and is no resync takes its steps, whatever the limit: the mergeboxes
/// are told all that it comes to, the fetcher is left with the documents that it comes to, and then
/// it has finished. It fails if the event fails, and fetches its documents if the event asks for
/// it.
pub proof fn law_handed_event_comes_to_its_end(
    fetcher: FetcherView,
    event: Event,
    read: ReadEventView,
)
    requires
        reads_as(event, read),
        is_readable(fetcher.documents, read, fetcher.limit),
    ensures
        ({
            let start = fetcher.on_handed(event);
            let inputs = inputs_of(fetcher.documents, read, fetcher.collection, fetcher.limit);
            let outcome = completed(
                fetcher.documents,
                read,
                fetcher.collection,
                fetcher.limit,
            );
            let end = run(start.0, inputs);
            let last = last_action(start.1, start.0, inputs);
            &&& all_accepted(start.0, inputs)
            &&& all_answered(start.1, start.0, inputs)
            &&& effects_of(start.1) + end.1 == outcome.effects
            &&& end.0.documents == outcome.documents
            &&& match outcome.next {
                NextView::Done(refetch) => if refetch {
                    &&& last == ActionView::Fetch(None)
                    &&& end.0.activity == (ActivityView::Querying { replay: true })
                    &&& end.0.phase is Querying
                    &&& end.0.buffered.len() == 0
                } else {
                    &&& last is Finished
                    &&& end.0.activity is Idle
                    &&& end.0.phase == fetcher.phase
                    &&& end.0.buffered == fetcher.buffered
                },
                NextView::Fail(error) => {
                    &&& last == ActionView::Failed(error)
                    &&& end.0.activity is Idle
                    &&& end.0.phase == fetcher.phase
                    &&& end.0.buffered == fetcher.buffered
                },
                NextView::Continue(_) => false,
            }
        }),
{
    law_event_takes_its_steps(fetcher, event, read, OriginView::Direct);
    let start = fetcher.on_handed(event);
    let inputs = inputs_of(fetcher.documents, read, fetcher.collection, fetcher.limit);
    let outcome = completed(fetcher.documents, read, fetcher.collection, fetcher.limit);
    assert(outcome.effects + Seq::<EffectView>::empty() =~= outcome.effects);
}

/// An event that is replayed takes the same steps. If it fails, the replay fails, and if it asks
/// for the documents they are fetched; the events behind it are not replayed then.
pub proof fn law_replay_ends_at_an_event_that_cannot_be_replayed(
    fetcher: FetcherView,
    event: Event,
    read: ReadEventView,
    later: Seq<Event>,
)
    requires
        reads_as(event, read),
        is_readable(fetcher.documents, read, fetcher.limit),
        completed(fetcher.documents, read, fetcher.collection, fetcher.limit).next
            != NextView::Done(false),
    ensures
        ({
            let start = fetcher.replay(seq![event] + later);
            let inputs = inputs_of(fetcher.documents, read, fetcher.collection, fetcher.limit);
            let outcome = completed(
                fetcher.documents,
                read,
                fetcher.collection,
                fetcher.limit,
            );
            let end = run(start.0, inputs);
            let last = last_action(start.1, start.0, inputs);
            &&& all_accepted(start.0, inputs)
            &&& all_answered(start.1, start.0, inputs)
            &&& effects_of(start.1) + end.1 == outcome.effects
            &&& end.0.documents == outcome.documents
            &&& match outcome.next {
                NextView::Done(_) => {
                    &&& last == ActionView::Fetch(None)
                    &&& end.0.activity == (ActivityView::Querying { replay: true })
                    &&& end.0.phase is Querying
                    &&& end.0.buffered.len() == 0
                },
                NextView::Fail(error) => {
                    &&& last == ActionView::Failed(error)
                    &&& end.0.activity is Idle
                },
                NextView::Continue(_) => false,
            }
        }),
{
    let all = seq![event] + later;
    assert(all.drop_first() =~= later);
    law_event_takes_its_steps(fetcher, event, read, OriginView::Replay(later));
    let outcome = completed(fetcher.documents, read, fetcher.collection, fetcher.limit);
    assert(outcome.effects + Seq::<EffectView>::empty() =~= outcome.effects);
}

/// While events are collected, each one is kept behind those from before and the next is asked for,
/// whatever it is and whatever the cursor, unless it is a resync. A resync and lost events have the
/// documents fetched. Only the end of the channel is a failure.
pub proof fn law_collected_event_is_kept(
    fetcher: FetcherView,
    event: Event,
    boundary: Option<Timestamp>,
    lost: u64,
)
    requires
        fetcher.activity is Draining,
    ensures
        !(event is Resync) ==> {
            let (next, action) = fetcher.advanced(InputView::Received(Received::Event(event)));
            &&& action is Receive
            &&& next.buffered.len() == fetcher.buffered.len() + 1
            &&& next.buffered.drop_last() == fetcher.buffered
            &&& next.buffered.last() == event
            &&& next.activity is Draining
            &&& next.documents == fetcher.documents
            &&& next.phase == fetcher.phase
        },
        ({
            let (next, action) = fetcher.advanced(
                InputView::Received(Received::Event(Event::Resync(boundary))),
            );
            &&& action == ActionView::Fetch(boundary)
            &&& next.buffered.len() == 0
            &&& next.activity == (ActivityView::Querying { replay: true })
            &&& next.documents == fetcher.documents
            &&& next.phase is Querying
        }),
        ({
            let (next, action) = fetcher.advanced(InputView::Received(Received::Lagged(lost)));
            &&& action == ActionView::Fetch(None)
            &&& next.buffered.len() == 0
            &&& next.activity == (ActivityView::Querying { replay: true })
            &&& next.documents == fetcher.documents
            &&& next.phase is Querying
        }),
        ({
            let (next, action) = fetcher.advanced(InputView::Received(Received::Closed));
            &&& action == ActionView::Failed(FetchErrorView::ReceiverClosed)
            &&& next == (FetcherView { activity: ActivityView::Idle, ..fetcher })
        }),
        fetcher.buffered.len() == 0 ==> {
            let (next, action) = fetcher.advanced(InputView::Received(Received::Empty));
            &&& action is Finished
            &&& next == (FetcherView {
                activity: ActivityView::Idle,
                phase: FetchPhase::Steady,
                ..fetcher
            })
        },
{
    let next = fetcher.advanced(InputView::Received(Received::Event(event))).0;
    if !(event is Resync) {
        assert(next.buffered.drop_last() =~= fetcher.buffered);
    }
    if fetcher.buffered.len() == 0 {
        assert(fetcher.buffered =~= seq![]);
    }
}

/// Whether a fetcher is about to report the end of the channel.
pub open spec fn reports_the_end(activity: ActivityView) -> bool {
    match activity {
        ActivityView::Failing(error) => error is ReceiverClosed,
        ActivityView::Settling { next, .. } => next == NextView::Fail(
            FetchErrorView::ReceiverClosed,
        ),
        _ => false,
    }
}

/// A fetcher says that the channel has ended exactly if it has.
pub proof fn law_only_the_end_of_the_channel_is_reported_as_such(
    fetcher: FetcherView,
    boundary: Option<Timestamp>,
    event: Event,
    input: InputView,
)
    ensures
        !reports_the_end(fetcher.snapshot(boundary).0.activity),
        !reports_the_end(fetcher.refetch(boundary).0.activity),
        !reports_the_end(fetcher.on_handed(event).0.activity),
        fetcher.accepts(input) && !reports_the_end(fetcher.activity) ==> {
            &&& !reports_the_end(fetcher.advanced(input).0.activity)
            &&& fetcher.advanced(input).1 == ActionView::Failed(FetchErrorView::ReceiverClosed)
                <==> input == InputView::Received(Received::Closed)
        },
{
}

/// How many documents of a list come before the first that has no `_id`.
pub open spec fn is_first_missing(documents: Seq<Fields>, index: int) -> bool {
    &&& 0 <= index < documents.len()
    &&& !documents[index].contains_key("_id"@)
    &&& forall|i: int| 0 <= i < index ==> (#[trigger] documents[i]).contains_key("_id"@)
}

/// Whether effects move the first documents of a list, one for one and in their order.
pub open spec fn all_move(
    effects: Seq<EffectView>,
    documents: Seq<Fields>,
    kind: EffectKind,
    collection: Seq<char>,
    project: bool,
) -> bool {
    &&& effects.len() <= documents.len()
    &&& forall|i: int|
        0 <= i < effects.len() ==> moves(
            #[trigger] effects[i],
            documents[i],
            kind,
            collection,
            project,
        )
}

/// A list is announced up to the first of its documents that has no `_id`.
proof fn lemma_announced_up_to(
    documents: Seq<Fields>,
    kind: EffectKind,
    collection: Seq<char>,
    project: bool,
)
    ensures
        ({
            let effects = announcements(documents, kind, collection, project);
            &&& all_move(effects, documents, kind, collection, project)
            &&& all_identified(documents) <==> effects.len() == documents.len()
            &&& effects.len() < documents.len() ==> is_first_missing(
                documents,
                effects.len() as int,
            )
        }),
{
    law_documents_are_announced_one_for_one(documents, kind, collection, project);
    let effects = announcements(documents, kind, collection, project);
    assert forall|i: int| 0 <= i < effects.len() implies (#[trigger] documents[i]).contains_key(
        "_id"@,
    ) by {
        assert(moves(effects[i], documents[i], kind, collection, project));
    }
    if all_identified(documents) && effects.len() < documents.len() {
        assert(id_of(documents[effects.len() as int]) is Some);
    }
    if effects.len() == documents.len() {
        assert forall|i: int| 0 <= i < documents.len() implies id_of(
            #[trigger] documents[i],
        ) is Some by {
            assert(documents[i].contains_key("_id"@));
        }
    }
}

/// Documents that were fetched are announced as they are, one for one and in their order. If one of
/// them has no `_id`, those ahead of it are announced, the documents from before stay, and it is
/// the failure.
pub proof fn law_fetched_documents_come(
    fetcher: FetcherView,
    snapshot: Seq<Fields>,
    replay: bool,
    missing: int,
)
    requires
        fetcher.activity == (ActivityView::Querying { replay }),
    ensures
        ({
            let (next, action) = fetcher.advanced(InputView::Fetched(snapshot));
            let effects = effects_of(action);
            &&& action is Perform
            &&& all_move(effects, snapshot, EffectKind::Insert, fetcher.collection, false)
            &&& next.documents == fetcher.documents
            &&& next.phase == fetcher.phase
            &&& next.buffered == fetcher.buffered
            &&& all_identified(snapshot) ==> effects.len() == snapshot.len()
            &&& is_first_missing(snapshot, missing) ==> {
                let (end, last) = next.advanced(InputView::Performed);
                &&& effects.len() == missing
                &&& last == ActionView::Failed(FetchErrorView::MissingId(snapshot[missing]))
                &&& end == (FetcherView { activity: ActivityView::Idle, ..fetcher })
            }
        }),
{
    law_documents_are_announced_one_for_one(
        snapshot,
        EffectKind::Insert,
        fetcher.collection,
        false,
    );
    lemma_announced_up_to(snapshot, EffectKind::Insert, fetcher.collection, false);
    if is_first_missing(snapshot, missing) {
        let effects = announcements(snapshot, EffectKind::Insert, fetcher.collection, false);
        assert(!(missing < effects.len())) by {
            if missing < effects.len() {
                assert(moves(
                    effects[missing],
                    snapshot[missing],
                    EffectKind::Insert,
                    fetcher.collection,
                    false,
                ));
            }
        }
        assert(!(effects.len() < missing)) by {
            if effects.len() < missing {
                assert(snapshot[effects.len() as int].contains_key("_id"@));
            }
        }
    }
}

/// Once the fetched documents have come, they are the cursor's, and those from before go,
/// projected, one for one and in their order. If one of these has no `_id`, those ahead of it go
/// and it is the failure. Otherwise the events are collected, or all is done.
pub proof fn law_documents_from_before_go(
    fetcher: FetcherView,
    snapshot: Seq<Fields>,
    replay: bool,
    missing: int,
)
    requires
        fetcher.activity == (ActivityView::Inserting { snapshot, replay }),
    ensures
        ({
            let (next, action) = fetcher.advanced(InputView::Performed);
            let effects = effects_of(action);
            let (end, last) = next.advanced(InputView::Performed);
            &&& action is Perform
            &&& all_move(
                effects,
                fetcher.documents,
                EffectKind::Remove,
                fetcher.collection,
                true,
            )
            &&& next.documents == snapshot
            &&& end == (FetcherView { documents: snapshot, activity: end.activity, ..fetcher })
            &&& all_identified(fetcher.documents) ==> {
                &&& effects.len() == fetcher.documents.len()
                &&& replay ==> last is Receive && end.activity is Draining
                &&& !replay ==> last is Finished && end.activity is Idle
            }
            &&& is_first_missing(fetcher.documents, missing) ==> {
                &&& effects.len() == missing
                &&& last == ActionView::Failed(
                    FetchErrorView::MissingId(fetcher.documents[missing]),
                )
                &&& end.activity is Idle
            }
        }),
{
    let documents = fetcher.documents;
    law_documents_are_announced_one_for_one(
        documents,
        EffectKind::Remove,
        fetcher.collection,
        true,
    );
    lemma_announced_up_to(documents, EffectKind::Remove, fetcher.collection, true);
    if is_first_missing(documents, missing) {
        let effects = announcements(documents, EffectKind::Remove, fetcher.collection, true);
        assert(!(missing < effects.len())) by {
            if missing < effects.len() {
                assert(moves(
                    effects[missing],
                    documents[missing],
                    EffectKind::Remove,
                    fetcher.collection,
                    true,
                ));
            }
        }
        assert(!(effects.len() < missing)) by {
            if effects.len() < missing {
                assert(documents[effects.len() as int].contains_key("_id"@));
            }
        }
    }
}

/// When its collection or database is dropped, a fetcher has no documents from then on, and the
/// mergeboxes are told that each of them goes. Then it has finished.
pub proof fn law_drop_empties_the_fetcher(fetcher: FetcherView)
    requires
        all_identified(fetcher.documents),
    ensures
        ({
            let (next, action) = fetcher.on_handed(Event::Clear);
            let effects = effects_of(action);
            let (end, last) = next.advanced(InputView::Performed);
            &&& action is Perform
            &&& effects.len() == fetcher.documents.len()
            &&& forall|i: int|
                0 <= i < effects.len() ==> goes(
                    #[trigger] effects[i],
                    fetcher.documents[i],
                    fetcher.collection,
                )
            &&& last is Finished
            &&& end.activity is Idle
            &&& end.documents.len() == 0
        }),
{
    law_drop_leaves_nothing(fetcher.documents, fetcher.collection, fetcher.limit);
}

/// The view of an action or an input is the thing itself, with the contents of its documents.
pub proof fn law_action_is_seen_as_it_is(
    boundary: Option<Timestamp>,
    effects: Vec<Effect>,
    event: DocumentEvent,
    document: Document,
    error: FetchError,
    documents: Vec<JsonDocument>,
    received: Received,
    reading: Reading,
)
    ensures
        Action::Fetch(boundary)@ == ActionView::Fetch(boundary),
        Action::Perform(effects)@ == ActionView::Perform(effect_views(effects@)),
        Action::Receive@ is Receive,
        Action::Read(event, document)@ == ActionView::Read(event, document),
        Action::Finished@ is Finished,
        Action::Failed(error)@ == ActionView::Failed(error@),
        Input::Fetched(documents)@ == InputView::Fetched(contents(documents@)),
        Input::Performed@ is Performed,
        Input::Received(received)@ == InputView::Received(received),
        Input::Read(reading)@ == InputView::Read(reading@),
{
}

} // verus!
