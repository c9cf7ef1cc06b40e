//! What holds of a cursor that fetches its documents and replays what happened meanwhile.
use vstd::prelude::*;

use bson::Timestamp;

use crate::cursor::effect::{announcements, EffectKind, EffectView};
use crate::cursor::fetch_state::FetchPhase;
use crate::cursor::fetcher::{
    ActionView, ActivityView, FetcherView, InputView, OriginView, Received,
};
use crate::cursor::laws::{
    all_projected, completed, distinct_ids, law_every_document_keeps_an_id, law_ids_stay_distinct,
    law_limit_holds, law_mergeboxes_keep_step, law_snapshot_replaces_what_is_shown,
    lemma_all_announced, lemma_told_in_parts, shown, told_all, Projection,
};
use crate::cursor::process::{
    is_readable, on_event, on_pending, NextView, ReadEventView, ReadingView,
};
use crate::json::{all_identified, Fields};
use crate::watcher::Event;

verus! {

/// The effects of an action.
pub open spec fn effects_of(action: ActionView) -> Seq<EffectView> {
    match action {
        ActionView::Perform(effects) => effects,
        _ => seq![],
    }
}

/// What a fetcher comes to that is handed inputs one after the other, and all the effects of the
/// actions that follow them.
pub open spec fn run(fetcher: FetcherView, inputs: Seq<InputView>) -> (FetcherView, Seq<EffectView>)
    decreases inputs.len(),
{
    if inputs.len() == 0 {
        (fetcher, seq![])
    } else {
        let (next, action) = fetcher.advanced(inputs[0]);
        let (end, effects) = run(next, inputs.drop_first());
        (end, effects_of(action) + effects)
    }
}

/// Whether a fetcher waits for each of the inputs when it is handed it.
pub open spec fn all_accepted(fetcher: FetcherView, inputs: Seq<InputView>) -> bool
    decreases inputs.len(),
{
    inputs.len() == 0 || {
        &&& fetcher.accepts(inputs[0])
        &&& all_accepted(fetcher.advanced(inputs[0]).0, inputs.drop_first())
    }
}

/// Whether an input is what comes of an action: the documents of a fetch, the end of effects, what
/// the look for an event found, the reading of a document.
pub open spec fn answers(input: InputView, action: ActionView) -> bool {
    match action {
        ActionView::Fetch(_) => input is Fetched,
        ActionView::Perform(_) => input is Performed,
        ActionView::Receive => input is Received,
        ActionView::Read(_, _) => input is Read,
        ActionView::Finished => false,
        ActionView::Failed(_) => false,
    }
}

/// Whether each of the inputs is what comes of the action before it, from a given first action on.
pub open spec fn all_answered(
    action: ActionView,
    fetcher: FetcherView,
    inputs: Seq<InputView>,
) -> bool
    decreases inputs.len(),
{
    inputs.len() == 0 || {
        &&& answers(inputs[0], action)
        &&& all_answered(
            fetcher.advanced(inputs[0]).1,
            fetcher.advanced(inputs[0]).0,
            inputs.drop_first(),
        )
    }
}

/// The last action, from a given first action on.
pub open spec fn last_action(
    action: ActionView,
    fetcher: FetcherView,
    inputs: Seq<InputView>,
) -> ActionView
    decreases inputs.len(),
{
    if inputs.len() == 0 {
        action
    } else {
        last_action(
            fetcher.advanced(inputs[0]).1,
            fetcher.advanced(inputs[0]).0,
            inputs.drop_first(),
        )
    }
}

/// Actions can be taken in two parts.
pub proof fn lemma_actions_in_parts(
    action: ActionView,
    fetcher: FetcherView,
    first: Seq<InputView>,
    second: Seq<InputView>,
)
    ensures
        ({
            let middle = last_action(action, fetcher, first);
            &&& last_action(action, fetcher, first + second) == last_action(
                middle,
                run(fetcher, first).0,
                second,
            )
            &&& all_answered(action, fetcher, first + second) == (all_answered(
                action,
                fetcher,
                first,
            ) && all_answered(middle, run(fetcher, first).0, second))
        }),
    decreases first.len(),
{
    if first.len() == 0 {
        assert(first + second =~= second);
    } else {
        let (next, following) = fetcher.advanced(first[0]);
        assert((first + second).drop_first() =~= first.drop_first() + second);
        lemma_actions_in_parts(following, next, first.drop_first(), second);
    }
}

/// Inputs can be handed in in two parts.
pub proof fn lemma_run_in_parts(
    fetcher: FetcherView,
    first: Seq<InputView>,
    second: Seq<InputView>,
)
    ensures
        ({
            let middle = run(fetcher, first);
            let end = run(middle.0, second);
            &&& run(fetcher, first + second) == (end.0, middle.1 + end.1)
            &&& all_accepted(fetcher, first + second) == (all_accepted(fetcher, first)
                && all_accepted(middle.0, second))
        }),
    decreases first.len(),
{
    let middle = run(fetcher, first);
    let end = run(middle.0, second);
    if first.len() == 0 {
        assert(first + second =~= second);
        assert(middle.1 + end.1 =~= end.1);
    } else {
        let next = fetcher.advanced(first[0]).0;
        let effects = effects_of(fetcher.advanced(first[0]).1);
        assert((first + second).drop_first() =~= first.drop_first() + second);
        lemma_run_in_parts(next, first.drop_first(), second);
        let rest = run(next, first.drop_first());
        assert((effects + rest.1) + end.1 =~= effects + (rest.1 + end.1));
    }
}

proof fn lemma_run_one(fetcher: FetcherView, input: InputView)
    ensures
        run(fetcher, seq![input]) == (
            fetcher.advanced(input).0,
            effects_of(fetcher.advanced(input).1),
        ),
        all_accepted(fetcher, seq![input]) == fetcher.accepts(input),
        forall|action: ActionView|
            #![trigger last_action(action, fetcher, seq![input])]
            #![trigger all_answered(action, fetcher, seq![input])]
            {
                &&& last_action(action, fetcher, seq![input]) == fetcher.advanced(input).1
                &&& all_answered(action, fetcher, seq![input]) == answers(input, action)
            },
{
    reveal_with_fuel(run, 2);
    reveal_with_fuel(all_accepted, 2);
    reveal_with_fuel(last_action, 2);
    reveal_with_fuel(all_answered, 2);
    assert(seq![input].drop_first() =~= seq![]);
    let effects = effects_of(fetcher.advanced(input).1);
    assert(effects + seq![] =~= effects);
}

/// Whether an event reads as the given one.
pub open spec fn reads_as(event: Event, read: ReadEventView) -> bool {
    match event {
        Event::Clear => read is Clear,
        Event::Delete(_) => read is Delete,
        Event::Insert(_) => read is Insert,
        Event::Update(_) => read is Update,
        Event::Resync(_) => false,
    }
}

/// What a fetcher is handed while it handles an event.
pub open spec fn inputs_of(
    documents: Seq<Fields>,
    read: ReadEventView,
    collection: Seq<char>,
    limit: Option<usize>,
) -> Seq<InputView> {
    let reading = match read {
        ReadEventView::Delete(document) => seq![
            InputView::Read(ReadingView { document, matches: false, order: seq![] }),
        ],
        ReadEventView::Insert(reading) => seq![InputView::Read(reading)],
        ReadEventView::Update(reading) => seq![InputView::Read(reading)],
        _ => seq![],
    };
    let settling = if on_event(documents, read, collection, limit).next is Continue {
        seq![InputView::Performed, InputView::Performed]
    } else {
        seq![InputView::Performed]
    };
    reading + settling
}

/// A fetcher takes the steps of an event one after the other: it ends with the documents and the
/// effects that the event comes to, and goes on with what comes after it.
pub proof fn law_event_takes_its_steps(
    fetcher: FetcherView,
    event: Event,
    read: ReadEventView,
    origin: OriginView,
)
    requires
        reads_as(event, read),
        is_readable(fetcher.documents, read, fetcher.limit),
    ensures
        ({
            let start = fetcher.begin(event, origin);
            let inputs = inputs_of(fetcher.documents, read, fetcher.collection, fetcher.limit);
            let outcome = completed(
                fetcher.documents,
                read,
                fetcher.collection,
                fetcher.limit,
            );
            let next = FetcherView {
                documents: outcome.documents,
                activity: ActivityView::Settling { next: outcome.next, origin },
                ..fetcher
            }.on_settled(outcome.next, origin);
            &&& run(start.0, inputs).0 == next.0
            &&& effects_of(start.1) + run(start.0, inputs).1 == outcome.effects + effects_of(next.1)
            &&& all_accepted(start.0, inputs)
            &&& all_answered(start.1, start.0, inputs)
            &&& last_action(start.1, start.0, inputs) == next.1
        }),
{
    let start = fetcher.begin(event, origin);
    let first = on_event(fetcher.documents, read, fetcher.collection, fetcher.limit);
    let inputs = inputs_of(fetcher.documents, read, fetcher.collection, fetcher.limit);
    let outcome = completed(fetcher.documents, read, fetcher.collection, fetcher.limit);
    let settling = FetcherView {
        documents: first.documents,
        activity: ActivityView::Settling { next: first.next, origin },
        ..fetcher
    };
    let next = FetcherView {
        documents: outcome.documents,
        activity: ActivityView::Settling { next: outcome.next, origin },
        ..fetcher
    }.on_settled(outcome.next, origin);
    let performed = seq![InputView::Performed];
    let reading = match read {
        ReadEventView::Delete(document) => seq![
            InputView::Read(ReadingView { document, matches: false, order: seq![] }),
        ],
        ReadEventView::Insert(reading) => seq![InputView::Read(reading)],
        ReadEventView::Update(reading) => seq![InputView::Read(reading)],
        _ => seq![],
    };
    let rest = if first.next is Continue {
        performed + performed
    } else {
        performed
    };
    assert(inputs =~= reading + rest);
    lemma_run_in_parts(start.0, reading, rest);
    lemma_actions_in_parts(start.1, start.0, reading, rest);
    if reading.len() > 0 {
        lemma_run_one(start.0, reading[0]);
        assert(reading =~= seq![reading[0]]);
    }
    assert(run(start.0, reading).0 == settling);
    let telling = last_action(start.1, start.0, reading);
    assert(telling == ActionView::Perform(first.effects));
    assert(effects_of(start.1) + run(start.0, reading).1 =~= first.effects);
    if first.next is Continue {
        let pending = first.next->Continue_0;
        let second = on_pending(first.documents, pending, fetcher.collection, fetcher.limit);
        let last = FetcherView {
            documents: second.documents,
            activity: ActivityView::Settling { next: second.next, origin },
            ..fetcher
        };
        lemma_run_in_parts(settling, performed, performed);
        lemma_actions_in_parts(telling, settling, performed, performed);
        lemma_run_one(settling, InputView::Performed);
        lemma_run_one(last, InputView::Performed);
        assert(settling.advanced(InputView::Performed).0 == last);
        assert(effects_of(start.1) + run(start.0, inputs).1 =~= outcome.effects + effects_of(
            next.1,
        ));
    } else {
        lemma_run_one(settling, InputView::Performed);
        assert(effects_of(start.1) + run(start.0, inputs).1 =~= outcome.effects + effects_of(
            next.1,
        ));
    }
}

/// The documents that events lead to, one after the other, and all their effects, if each of them
/// succeeds and none asks for the documents to be fetched again.
pub open spec fn replayed(
    documents: Seq<Fields>,
    reads: Seq<ReadEventView>,
    collection: Seq<char>,
    limit: Option<usize>,
) -> Option<(Seq<Fields>, Seq<EffectView>)>
    decreases reads.len(),
{
    if reads.len() == 0 {
        Some((documents, seq![]))
    } else {
        let outcome = completed(documents, reads[0], collection, limit);
        if is_readable(documents, reads[0], limit) && outcome.next == NextView::Done(false) {
            match replayed(outcome.documents, reads.drop_first(), collection, limit) {
                Some((end, effects)) => Some((end, outcome.effects + effects)),
                None => None,
            }
        } else {
            None
        }
    }
}

/// What a fetcher is handed while it replays events.
pub open spec fn replay_inputs(
    documents: Seq<Fields>,
    reads: Seq<ReadEventView>,
    collection: Seq<char>,
    limit: Option<usize>,
) -> Seq<InputView>
    decreases reads.len(),
{
    if reads.len() == 0 {
        seq![]
    } else {
        inputs_of(documents, reads[0], collection, limit) + replay_inputs(
            completed(documents, reads[0], collection, limit).documents,
            reads.drop_first(),
            collection,
            limit,
        )
    }
}

/// Whether events read as the given ones.
pub open spec fn all_read_as(events: Seq<Event>, reads: Seq<ReadEventView>) -> bool {
    &&& events.len() == reads.len()
    &&& forall|i: int| 0 <= i < events.len() ==> reads_as(#[trigger] events[i], reads[i])
}

/// A replay applies every one of its events, in their order, and then the documents are up to
/// date.
pub proof fn law_replay_applies_every_event(
    fetcher: FetcherView,
    events: Seq<Event>,
    reads: Seq<ReadEventView>,
)
    requires
        all_read_as(events, reads),
        replayed(fetcher.documents, reads, fetcher.collection, fetcher.limit) is Some,
    ensures
        ({
            let start = fetcher.replay(events);
            let inputs = replay_inputs(
                fetcher.documents,
                reads,
                fetcher.collection,
                fetcher.limit,
            );
            let (documents, effects) = replayed(
                fetcher.documents,
                reads,
                fetcher.collection,
                fetcher.limit,
            )->0;
            &&& run(start.0, inputs).0 == (FetcherView {
                documents,
                phase: FetchPhase::Steady,
                activity: ActivityView::Idle,
                ..fetcher
            })
            &&& effects_of(start.1) + run(start.0, inputs).1 == effects
            &&& all_accepted(start.0, inputs)
            &&& all_answered(start.1, start.0, inputs)
            &&& last_action(start.1, start.0, inputs) is Finished
        }),
    decreases events.len(),
{
    let start = fetcher.replay(events);
    let inputs = replay_inputs(fetcher.documents, reads, fetcher.collection, fetcher.limit);
    if events.len() == 0 {
        assert(effects_of(start.1) + run(start.0, inputs).1 =~= seq![]);
    } else {
        let rest = OriginView::Replay(events.drop_first());
        let first = inputs_of(fetcher.documents, reads[0], fetcher.collection, fetcher.limit);
        let outcome = completed(
            fetcher.documents,
            reads[0],
            fetcher.collection,
            fetcher.limit,
        );
        let second = replay_inputs(
            outcome.documents,
            reads.drop_first(),
            fetcher.collection,
            fetcher.limit,
        );
        assert(reads_as(events[0], reads[0]));
        law_event_takes_its_steps(fetcher, events[0], reads[0], rest);
        let next = FetcherView {
            documents: outcome.documents,
            activity: ActivityView::Settling { next: NextView::Done(false), origin: rest },
            ..fetcher
        };
        assert forall|i: int| 0 <= i < events.drop_first().len() implies reads_as(
            #[trigger] events.drop_first()[i],
            reads.drop_first()[i],
        ) by {
            assert(reads_as(events[i + 1], reads[i + 1]));
        }
        law_replay_applies_every_event(next, events.drop_first(), reads.drop_first());
        lemma_run_in_parts(start.0, first, second);
        lemma_actions_in_parts(start.1, start.0, first, second);
        let following = next.replay(events.drop_first());
        let later = run(following.0, second).1;
        let earlier = run(start.0, first).1;
        assert(effects_of(start.1) + (earlier + later) =~= (effects_of(start.1) + earlier)
            + later);
        assert((outcome.effects + effects_of(following.1)) + later =~= outcome.effects + (
        effects_of(following.1) + later));
    }
}

/// What a mergebox counts of a cursor is the cursor's documents, projected, before and after a
/// replay.
pub proof fn law_replay_keeps_mergeboxes_in_step(
    documents: Seq<Fields>,
    reads: Seq<ReadEventView>,
    collection: Seq<char>,
    limit: Option<usize>,
    projection: Projection,
)
    requires
        all_identified(documents),
        replayed(documents, reads, collection, limit) is Some,
    ensures
        ({
            let (end, effects) = replayed(documents, reads, collection, limit)->0;
            &&& all_identified(end)
            &&& told_all(shown(documents, projection), effects, projection) == shown(
                end,
                projection,
            )
        }),
    decreases reads.len(),
{
    if reads.len() > 0 {
        let outcome = completed(documents, reads[0], collection, limit);
        let rest = replayed(outcome.documents, reads.drop_first(), collection, limit)->0;
        law_every_document_keeps_an_id(documents, reads[0], collection, limit);
        law_mergeboxes_keep_step(documents, reads[0], collection, limit, projection);
        law_replay_keeps_mergeboxes_in_step(
            outcome.documents,
            reads.drop_first(),
            collection,
            limit,
            projection,
        );
        lemma_told_in_parts(shown(documents, projection), outcome.effects, rest.1, projection);
    }
}

/// A replay leaves no two documents with the same `_id`, and no more than the limit allows.
pub proof fn law_replay_keeps_ids_distinct_and_the_limit(
    documents: Seq<Fields>,
    reads: Seq<ReadEventView>,
    collection: Seq<char>,
    limit: Option<usize>,
)
    requires
        replayed(documents, reads, collection, limit) is Some,
    ensures
        ({
            let (end, effects) = replayed(documents, reads, collection, limit)->0;
            &&& distinct_ids(documents) ==> distinct_ids(end)
            &&& limit is Some && documents.len() <= limit->0 ==> end.len() <= limit->0
        }),
    decreases reads.len(),
{
    if reads.len() > 0 {
        let outcome = completed(documents, reads[0], collection, limit);
        if distinct_ids(documents) {
            law_ids_stay_distinct(documents, reads[0], collection, limit);
        }
        if limit is Some && documents.len() <= limit->0 {
            law_limit_holds(documents, reads[0], collection, limit->0);
        }
        law_replay_keeps_ids_distinct_and_the_limit(
            outcome.documents,
            reads.drop_first(),
            collection,
            limit,
        );
    }
}

/// What a mergebox counts of a cursor is the cursor's documents, projected, before and after its
/// documents were fetched and what came in meanwhile was replayed. The server has projected the
/// fetched documents, so the projection leaves them as they are.
pub proof fn law_refetch_keeps_mergeboxes_in_step(
    before: Seq<Fields>,
    snapshot: Seq<Fields>,
    reads: Seq<ReadEventView>,
    collection: Seq<char>,
    limit: Option<usize>,
    projection: Projection,
)
    requires
        all_identified(before),
        all_identified(snapshot),
        all_projected(snapshot, projection),
        replayed(snapshot, reads, collection, limit) is Some,
    ensures
        ({
            let (end, effects) = replayed(snapshot, reads, collection, limit)->0;
            told_all(
                shown(before, projection),
                announcements(snapshot, EffectKind::Insert, collection, false) + announcements(
                    before,
                    EffectKind::Remove,
                    collection,
                    true,
                ) + effects,
                projection,
            ) == shown(end, projection)
        }),
{
    let (end, effects) = replayed(snapshot, reads, collection, limit)->0;
    let replacing = announcements(snapshot, EffectKind::Insert, collection, false) + announcements(
        before,
        EffectKind::Remove,
        collection,
        true,
    );
    law_snapshot_replaces_what_is_shown(before, snapshot, collection, projection);
    law_replay_keeps_mergeboxes_in_step(snapshot, reads, collection, limit, projection);
    lemma_told_in_parts(shown(before, projection), replacing, effects, projection);
}

/// What the look for an event finds while events come in.
pub open spec fn receptions(events: Seq<Event>) -> Seq<InputView> {
    events.map_values(|event: Event| InputView::Received(Received::Event(event)))
}

/// Whether none of the events is a resync.
pub open spec fn none_resyncs(events: Seq<Event>) -> bool {
    forall|i: int| 0 <= i < events.len() ==> !(#[trigger] events[i] is Resync)
}

/// The events that come in after the documents were fetched are kept, all of them and in their
/// order.
pub proof fn law_events_are_kept_in_order(fetcher: FetcherView, events: Seq<Event>)
    requires
        fetcher.activity is Draining,
        none_resyncs(events),
    ensures
        run(fetcher, receptions(events)) == (
            FetcherView { buffered: fetcher.buffered + events, ..fetcher },
            Seq::<EffectView>::empty(),
        ),
        all_accepted(fetcher, receptions(events)),
        all_answered(ActionView::Receive, fetcher, receptions(events)),
        last_action(ActionView::Receive, fetcher, receptions(events)) is Receive,
    decreases events.len(),
{
    let inputs = receptions(events);
    if events.len() == 0 {
        assert(fetcher.buffered + events =~= fetcher.buffered);
    } else {
        assert(!(events[0] is Resync));
        let next = FetcherView { buffered: fetcher.buffered.push(events[0]), ..fetcher };
        assert(inputs[0] == InputView::Received(Received::Event(events[0])));
        assert(inputs.drop_first() =~= receptions(events.drop_first()));
        assert forall|i: int| 0 <= i < events.drop_first().len() implies !(
        #[trigger] events.drop_first()[i] is Resync) by {
            assert(!(events[i + 1] is Resync));
        }
        law_events_are_kept_in_order(next, events.drop_first());
        assert(next.buffered + events.drop_first() =~= fetcher.buffered + events);
        assert(Seq::<EffectView>::empty() + Seq::<EffectView>::empty() =~= Seq::<
            EffectView,
        >::empty());
    }
}

/// What a fetcher is handed from the request for its documents to the end of the replay.
pub open spec fn refetch_inputs(
    snapshot: Seq<Fields>,
    events: Seq<Event>,
    reads: Seq<ReadEventView>,
    collection: Seq<char>,
    limit: Option<usize>,
) -> Seq<InputView> {
    seq![InputView::Fetched(snapshot), InputView::Performed, InputView::Performed] + receptions(
        events,
    ) + seq![InputView::Received(Received::Empty)] + replay_inputs(
        snapshot,
        reads,
        collection,
        limit,
    )
}

/// A fetcher that fetches its documents and replays what came in meanwhile ends up to date: with
/// the documents that the events, all of them and in their order, make of those that were fetched.
/// The mergeboxes are told that the fetched documents come, then that those from before go, and
/// then of the events.
pub proof fn law_refetch_and_replay_misses_nothing(
    fetcher: FetcherView,
    boundary: Option<Timestamp>,
    snapshot: Seq<Fields>,
    events: Seq<Event>,
    reads: Seq<ReadEventView>,
)
    requires
        fetcher.viewable || events.len() == 0,
        all_identified(fetcher.documents),
        all_identified(snapshot),
        all_read_as(events, reads),
        replayed(snapshot, reads, fetcher.collection, fetcher.limit) is Some,
    ensures
        ({
            let start = fetcher.refetch(boundary);
            let inputs = refetch_inputs(
                snapshot,
                events,
                reads,
                fetcher.collection,
                fetcher.limit,
            );
            let (documents, effects) = replayed(
                snapshot,
                reads,
                fetcher.collection,
                fetcher.limit,
            )->0;
            &&& start.1 == ActionView::Fetch(boundary)
            &&& run(start.0, inputs) == (
                FetcherView {
                    documents,
                    phase: FetchPhase::Steady,
                    buffered: seq![],
                    activity: ActivityView::Idle,
                    ..fetcher
                },
                announcements(snapshot, EffectKind::Insert, fetcher.collection, false)
                    + announcements(
                    fetcher.documents,
                    EffectKind::Remove,
                    fetcher.collection,
                    true,
                ) + effects,
            )
            &&& all_accepted(start.0, inputs)
            &&& all_answered(start.1, start.0, inputs)
            &&& last_action(start.1, start.0, inputs) is Finished
        }),
{
    let start = fetcher.refetch(boundary).0;
    let collection = fetcher.collection;
    let fetched = seq![InputView::Fetched(snapshot), InputView::Performed, InputView::Performed];
    let empty = seq![InputView::Received(Received::Empty)];
    let received = receptions(events);
    let replaying = replay_inputs(snapshot, reads, collection, fetcher.limit);
    let insertions = announcements(snapshot, EffectKind::Insert, collection, false);
    let removals = announcements(fetcher.documents, EffectKind::Remove, collection, true);

    lemma_all_announced(snapshot, EffectKind::Insert, collection, false);
    lemma_all_announced(fetcher.documents, EffectKind::Remove, collection, true);
    let draining = FetcherView { documents: snapshot, activity: ActivityView::Draining, ..start };
    let asked = ActionView::Fetch(boundary);
    assert({
        &&& run(start, fetched) == (draining, insertions + removals)
        &&& all_accepted(start, fetched)
        &&& all_answered(asked, start, fetched)
        &&& last_action(asked, start, fetched) is Receive
    }) by {
        let inserting = FetcherView {
            activity: ActivityView::Inserting { snapshot, replay: true },
            ..start
        };
        let removing = FetcherView {
            documents: snapshot,
            activity: ActivityView::Removing { replay: true },
            ..start
        };
        let one = seq![InputView::Fetched(snapshot)];
        let two = seq![InputView::Performed];
        assert(fetched =~= one + (two + two));
        lemma_run_in_parts(start, one, two + two);
        lemma_run_in_parts(inserting, two, two);
        lemma_actions_in_parts(asked, start, one, two + two);
        lemma_actions_in_parts(ActionView::Perform(insertions), inserting, two, two);
        lemma_run_one(start, InputView::Fetched(snapshot));
        lemma_run_one(inserting, InputView::Performed);
        lemma_run_one(removing, InputView::Performed);
        assert(insertions + (removals + seq![]) =~= insertions + removals);
    }

    assert forall|i: int| 0 <= i < events.len() implies !(#[trigger] events[i] is Resync) by {
        assert(reads_as(events[i], reads[i]));
    }
    law_events_are_kept_in_order(draining, events);
    let kept = FetcherView { buffered: events, ..draining };
    assert(draining.buffered + events =~= events);

    let replayer = FetcherView { phase: FetchPhase::Replaying, buffered: seq![], ..kept };
    let begun = replayer.replay(events);
    lemma_run_one(kept, InputView::Received(Received::Empty));
    law_replay_applies_every_event(replayer, events, reads);
    lemma_run_in_parts(start, fetched, received);
    lemma_run_in_parts(start, fetched + received, empty);
    lemma_run_in_parts(start, fetched + received + empty, replaying);
    lemma_actions_in_parts(asked, start, fetched, received);
    lemma_actions_in_parts(asked, start, fetched + received, empty);
    lemma_actions_in_parts(asked, start, fetched + received + empty, replaying);
    let none = Seq::<EffectView>::empty();
    assert((insertions + removals) + none =~= insertions + removals);
    let end = run(begun.0, replaying);
    assert(((insertions + removals) + effects_of(begun.1)) + end.1 =~= (insertions + removals) + (
    effects_of(begun.1) + end.1));
}

/// A resync or a loss of events while they are collected starts all over: what was collected is
/// forgotten and the documents are fetched again, at the time that the resync names, if any. So
/// does an event that asks for it.
pub proof fn law_lost_events_start_over(
    fetcher: FetcherView,
    boundary: Option<Timestamp>,
    lost: u64,
    origin: OriginView,
)
    ensures
        fetcher.activity is Draining ==> {
            &&& fetcher.advanced(
                InputView::Received(Received::Event(Event::Resync(boundary))),
            ) == fetcher.refetch(boundary)
            &&& fetcher.advanced(InputView::Received(Received::Lagged(lost))) == fetcher.refetch(
                None,
            )
        },
        fetcher.activity == (ActivityView::Settling { next: NextView::Done(true), origin })
            ==> fetcher.advanced(InputView::Performed) == fetcher.refetch(None),
        fetcher.on_handed(Event::Resync(boundary)) == fetcher.refetch(boundary),
        fetcher.refetch(boundary).0.buffered.len() == 0,
        fetcher.refetch(boundary).0.documents == fetcher.documents,
{
}

/// When a fetcher says that all is done, it waits for nothing. After a replay its documents are
/// then up to date and no event is left to be replayed.
pub proof fn law_finished_replay_is_steady(fetcher: FetcherView, input: InputView)
    requires
        fetcher.well_formed(),
        fetcher.accepts(input),
        fetcher.advanced(input).1 is Finished,
    ensures
        fetcher.advanced(input).0.activity is Idle,
        fetcher.activity is Draining || (fetcher.activity matches ActivityView::Settling {
            origin: OriginView::Replay(_),
            ..
        }) ==> {
            &&& fetcher.advanced(input).0.phase == FetchPhase::Steady
            &&& fetcher.advanced(input).0.buffered.len() == 0
        },
{
}

/// A snapshot on its own leaves the phase and the events that were collected as they are. It ends
/// with the documents that were fetched.
pub proof fn law_snapshot_takes_the_fetched_documents(
    fetcher: FetcherView,
    boundary: Option<Timestamp>,
    snapshot: Seq<Fields>,
)
    requires
        all_identified(fetcher.documents),
        all_identified(snapshot),
    ensures
        ({
            let start = fetcher.snapshot(boundary);
            let inputs = seq![
                InputView::Fetched(snapshot),
                InputView::Performed,
                InputView::Performed,
            ];
            &&& start.1 == ActionView::Fetch(boundary)
            &&& run(start.0, inputs) == (
                FetcherView { documents: snapshot, activity: ActivityView::Idle, ..fetcher },
                announcements(snapshot, EffectKind::Insert, fetcher.collection, false)
                    + announcements(
                    fetcher.documents,
                    EffectKind::Remove,
                    fetcher.collection,
                    true,
                ),
            )
            &&& all_accepted(start.0, inputs)
            &&& all_answered(start.1, start.0, inputs)
            &&& last_action(start.1, start.0, inputs) is Finished
        }),
{
    let start = fetcher.snapshot(boundary).0;
    let insertions = announcements(snapshot, EffectKind::Insert, fetcher.collection, false);
    let removals = announcements(
        fetcher.documents,
        EffectKind::Remove,
        fetcher.collection,
        true,
    );
    lemma_all_announced(snapshot, EffectKind::Insert, fetcher.collection, false);
    lemma_all_announced(fetcher.documents, EffectKind::Remove, fetcher.collection, true);
    let inserting = FetcherView {
        activity: ActivityView::Inserting { snapshot, replay: false },
        ..start
    };
    let removing = FetcherView {
        documents: snapshot,
        activity: ActivityView::Removing { replay: false },
        ..start
    };
    let one = seq![InputView::Fetched(snapshot)];
    let two = seq![InputView::Performed];
    assert(seq![InputView::Fetched(snapshot), InputView::Performed, InputView::Performed] =~= one
        + (two + two));
    lemma_run_in_parts(start, one, two + two);
    lemma_run_in_parts(inserting, two, two);
    lemma_actions_in_parts(ActionView::Fetch(boundary), start, one, two + two);
    lemma_actions_in_parts(ActionView::Perform(insertions), inserting, two, two);
    lemma_run_one(start, InputView::Fetched(snapshot));
    lemma_run_one(inserting, InputView::Performed);
    lemma_run_one(removing, InputView::Performed);
    assert(insertions + (removals + seq![]) =~= insertions + removals);
}

} // verus!
