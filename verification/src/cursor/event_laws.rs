//! What each event comes to, from the documents that a cursor has and the document that it hears
//! of to the documents that it is left with and what the mergeboxes are told.
use vstd::prelude::*;

use bson::Timestamp;

use crate::cursor::effect::{
    announcements, effect_views, is_rest_of, law_documents_are_announced_one_for_one, moves,
    EffectKind, EffectView, FetchError, FetchErrorView,
};
use crate::cursor::laws::completed;
use crate::cursor::order::{insertion_point, lemma_insertion_point_range, Order};
use crate::cursor::process::{
    dropped, is_readable, meets, on_event, on_pending, Next, NextView, Outcome, Pending,
    PendingView, ReadEvent, ReadEventView, Reading, ReadingView, Step,
};
use crate::json::{
    all_identified, contents, fields, id_of, law_position_is_the_first, position, Fields,
    JsonDocument,
};

verus! {

/// Whether an effect lets a document come.
pub open spec fn comes(effect: EffectView, document: Fields, collection: Seq<char>) -> bool {
    moves(effect, document, EffectKind::Insert, collection, true)
}

/// Whether an effect lets a document go.
pub open spec fn goes(effect: EffectView, document: Fields, collection: Seq<char>) -> bool {
    moves(effect, document, EffectKind::Remove, collection, true)
}

/// A list without one of its documents. The order of the others is kept under a limit; otherwise
/// the last of them fills the gap.
pub open spec fn lacking(documents: Seq<Fields>, index: int, limit: Option<usize>) -> Seq<Fields> {
    Seq::new(
        (documents.len() - 1) as nat,
        |i: int|
            if limit is Some && i >= index {
                documents[i + 1]
            } else if limit is None && i == index {
                documents.last()
            } else {
                documents[i]
            },
    )
}

/// When its collection or database is dropped, a cursor loses all of its documents, whatever its
/// limit, and the mergeboxes are told that each of them goes, one for one and in their order.
pub proof fn law_drop_leaves_nothing(
    documents: Seq<Fields>,
    collection: Seq<char>,
    limit: Option<usize>,
)
    ensures
        ({
            let outcome = completed(documents, ReadEventView::Clear, collection, limit);
            &&& outcome.documents.len() == 0
            &&& outcome.effects.len() <= documents.len()
            &&& forall|i: int|
                0 <= i < outcome.effects.len() ==> goes(
                    #[trigger] outcome.effects[i],
                    documents[i],
                    collection,
                )
            &&& all_identified(documents) ==> {
                &&& outcome.next == NextView::Done(false)
                &&& outcome.effects.len() == documents.len()
            }
            &&& !all_identified(documents) ==> {
                &&& outcome.effects.len() < documents.len()
                &&& !documents[outcome.effects.len() as int].contains_key("_id"@)
                &&& outcome.next == NextView::Fail(
                    FetchErrorView::MissingId(documents[outcome.effects.len() as int]),
                )
            }
        }),
{
    law_documents_are_announced_one_for_one(documents, EffectKind::Remove, collection, true);
    let effects = announcements(documents, EffectKind::Remove, collection, true);
    if all_identified(documents) && effects.len() < documents.len() {
        assert(id_of(documents[effects.len() as int]) is Some);
    }
    if effects.len() == documents.len() {
        assert forall|i: int| 0 <= i < documents.len() implies id_of(
            #[trigger] documents[i],
        ) is Some by {
            assert(goes(effects[i], documents[i], collection));
        }
    }
}

/// A resync asks for the documents, whatever time it names, and changes nothing by itself.
pub proof fn law_resync_asks_for_the_documents(
    documents: Seq<Fields>,
    boundary: Option<Timestamp>,
    collection: Seq<char>,
    limit: Option<usize>,
)
    ensures
        ({
            let outcome = completed(
                documents,
                ReadEventView::Resync(boundary),
                collection,
                limit,
            );
            &&& outcome.documents == documents
            &&& outcome.effects.len() == 0
            &&& outcome.next == NextView::Done(true)
        }),
{
}

/// Whether a cursor shows as many documents as its limit allows.
pub open spec fn is_full(documents: Seq<Fields>, limit: Option<usize>) -> bool {
    limit matches Some(limit) && limit == documents.len()
}

/// Whether an event ends well, with these documents, after so many effects.
pub open spec fn ends(outcome: Outcome, documents: Seq<Fields>, told: int, refetch: bool) -> bool {
    &&& outcome.documents == documents
    &&& outcome.effects.len() == told
    &&& outcome.next == NextView::Done(refetch)
}

/// Whether an event fails for a document without an `_id`, with these documents, after so many
/// effects.
pub open spec fn fails(
    outcome: Outcome,
    documents: Seq<Fields>,
    told: int,
    document: Fields,
) -> bool {
    &&& !document.contains_key("_id"@)
    &&& outcome.documents == documents
    &&& outcome.effects.len() == told
    &&& outcome.next == NextView::Fail(FetchErrorView::MissingId(document))
}

/// Whether an event ends with a list up to the limit, after so many effects and one more for the
/// last document if that has to go.
pub open spec fn ends_cut(
    outcome: Outcome,
    all: Seq<Fields>,
    told: int,
    collection: Seq<char>,
    limit: Option<usize>,
) -> bool {
    if limit is Some && all.len() > limit->0 {
        if all.last().contains_key("_id"@) {
            &&& ends(outcome, all.take(all.len() - 1), told + 1, false)
            &&& goes(outcome.effects[told], all.last(), collection)
        } else {
            fails(outcome, all.take(all.len() - 1), told, all.last())
        }
    } else {
        ends(outcome, all, told, false)
    }
}

/// A deletion takes the document with the key's `_id` out and tells the mergeboxes that it goes. A
/// cursor that has no such document stays as it is. So does one that is full, which asks for its
/// documents, and a key without an `_id` is a failure.
pub proof fn law_deletion_takes_one_document_out(
    documents: Seq<Fields>,
    key: Fields,
    collection: Seq<char>,
    limit: Option<usize>,
)
    ensures
        ({
            let outcome = completed(documents, ReadEventView::Delete(key), collection, limit);
            let found = position(documents, id_of(key));
            if !key.contains_key("_id"@) {
                fails(outcome, documents, 0, key)
            } else if found is None || is_full(documents, limit) {
                ends(outcome, documents, 0, found is Some)
            } else {
                &&& ends(outcome, lacking(documents, found->0, limit), 1, false)
                &&& goes(outcome.effects[0], documents[found->0], collection)
            }
        }),
{
    law_position_is_the_first(documents, id_of(key));
    let outcome = completed(documents, ReadEventView::Delete(key), collection, limit);
    if let Some(index) = position(documents, id_of(key)) {
        assert(lacking(documents, index, limit) =~= dropped(documents, index, limit));
    }
}

/// An update of a document that no longer matches takes it out and tells the mergeboxes that it
/// goes. A cursor that has no such document stays as it is. So does one that is full, which asks
/// for its documents, and a document without an `_id` is a failure.
pub proof fn law_update_that_does_not_match_takes_one_document_out(
    documents: Seq<Fields>,
    reading: ReadingView,
    collection: Seq<char>,
    limit: Option<usize>,
)
    requires
        !reading.matches,
    ensures
        ({
            let outcome = completed(
                documents,
                ReadEventView::Update(reading),
                collection,
                limit,
            );
            let found = position(documents, id_of(reading.document));
            if !reading.document.contains_key("_id"@) {
                fails(outcome, documents, 0, reading.document)
            } else if found is None || is_full(documents, limit) {
                ends(outcome, documents, 0, found is Some)
            } else {
                &&& ends(outcome, lacking(documents, found->0, limit), 1, false)
                &&& goes(outcome.effects[0], documents[found->0], collection)
            }
        }),
{
    law_position_is_the_first(documents, id_of(reading.document));
    if let Some(index) = position(documents, id_of(reading.document)) {
        assert(lacking(documents, index, limit) =~= dropped(documents, index, limit));
    }
}

/// An insertion that does not match changes nothing and tells nobody.
pub proof fn law_insertion_that_does_not_match_changes_nothing(
    documents: Seq<Fields>,
    reading: ReadingView,
    collection: Seq<char>,
    limit: Option<usize>,
)
    requires
        !reading.matches,
    ensures
        ends(
            completed(documents, ReadEventView::Insert(reading), collection, limit),
            documents,
            0,
            false,
        ),
{
}

/// The documents of other `_id`s.
pub open spec fn beside(
    documents: Seq<Fields>,
    document: Fields,
    limit: Option<usize>,
) -> Seq<Fields> {
    match position(documents, id_of(document)) {
        Some(index) => lacking(documents, index, limit),
        None => documents,
    }
}

/// How the documents of other `_id`s sort.
pub open spec fn order_beside(
    documents: Seq<Fields>,
    document: Fields,
    order: Seq<Order>,
) -> Seq<Order> {
    match position(documents, id_of(document)) {
        Some(index) => order.take(index) + order.skip(index + 1),
        None => order,
    }
}

/// Where a document goes in a list: where it sorts under a limit, and at the end otherwise.
pub open spec fn place_in(list: Seq<Fields>, order: Seq<Order>, limit: Option<usize>) -> int {
    if limit is Some {
        insertion_point(order)
    } else {
        list.len() as int
    }
}

/// A list with a document put in.
pub open spec fn joined(list: Seq<Fields>, place: int, document: Fields) -> Seq<Fields> {
    list.take(place) + seq![document] + list.skip(place)
}

/// A matching insertion is put among the documents of other `_id`s and takes the place of one of
/// its own. The mergeboxes are told that it comes, then that the one before goes, and then that the
/// last document goes if there are too many. One whose place is past the limit does not come. One
/// without an `_id` is a failure.
pub proof fn law_insertion_joins_the_others(
    documents: Seq<Fields>,
    reading: ReadingView,
    collection: Seq<char>,
    limit: Option<usize>,
)
    requires
        reading.matches,
        is_readable(documents, ReadEventView::Insert(reading), limit),
    ensures
        ({
            let event = ReadEventView::Insert(reading);
            let outcome = completed(documents, event, collection, limit);
            let document = reading.document;
            let earlier = position(documents, id_of(document));
            let others = beside(documents, document, limit);
            let place = place_in(
                others,
                order_beside(documents, document, reading.order),
                limit,
            );
            let all = joined(others, place, document);
            if limit is Some && place == limit->0 {
                if earlier is Some && document.contains_key("_id"@) {
                    &&& ends(outcome, others, 1, false)
                    &&& goes(outcome.effects[0], documents[earlier->0], collection)
                } else {
                    ends(outcome, others, 0, false)
                }
            } else if !document.contains_key("_id"@) {
                fails(outcome, all, 0, document)
            } else {
                &&& outcome.effects[0].id == document["_id"@]
                &&& comes(outcome.effects[0], document, collection)
                &&& earlier is Some ==> goes(
                    outcome.effects[1],
                    documents[earlier->0],
                    collection,
                )
                &&& ends_cut(
                    outcome,
                    all,
                    if earlier is Some {
                        2
                    } else {
                        1
                    },
                    collection,
                    limit,
                )
                &&& on_event(documents, event, collection, limit).documents == all
            }
        }),
{
    let document = reading.document;
    let order = order_beside(documents, document, reading.order);
    let others = beside(documents, document, limit);
    law_position_is_the_first(documents, id_of(document));
    if let Some(index) = position(documents, id_of(document)) {
        assert(lacking(documents, index, limit) =~= dropped(documents, index, limit));
        if limit is Some {
            assert(order =~= reading.order.remove(index));
        }
    }
    lemma_insertion_point_range(order);
    let place = place_in(others, order, limit);
    let all = joined(others, place, document);
    assert(all =~= others.insert(place, document));
    if limit is None {
        assert(all =~= others.push(document));
    }
    assert(all.take(all.len() - 1) =~= all.drop_last());
}

/// A matching update is put into the list, and the document of its `_id` from before goes. The
/// mergeboxes are told that it comes, then that the one before goes; if there was none, that the
/// last document goes if there are too many. If the place is past the limit, a cursor that has the
/// document asks for its documents, and another stays as it is. One without an `_id` is a failure.
pub proof fn law_update_takes_the_place_of_the_document(
    documents: Seq<Fields>,
    reading: ReadingView,
    collection: Seq<char>,
    limit: Option<usize>,
)
    requires
        reading.matches,
        is_readable(documents, ReadEventView::Update(reading), limit),
    ensures
        ({
            let event = ReadEventView::Update(reading);
            let outcome = completed(documents, event, collection, limit);
            let document = reading.document;
            let earlier = position(documents, id_of(document));
            let place = place_in(documents, reading.order, limit);
            let all = joined(documents, place, document);
            if limit is Some && place == limit->0 {
                ends(outcome, documents, 0, earlier is Some)
            } else if !document.contains_key("_id"@) {
                fails(outcome, all, 0, document)
            } else {
                &&& outcome.effects[0].id == document["_id"@]
                &&& comes(outcome.effects[0], document, collection)
                &&& if earlier is Some {
                    &&& ends(
                        outcome,
                        lacking(
                            all,
                            if place <= earlier->0 {
                                earlier->0 + 1
                            } else {
                                earlier->0
                            },
                            limit,
                        ),
                        2,
                        false,
                    )
                    &&& goes(outcome.effects[1], documents[earlier->0], collection)
                } else {
                    ends_cut(outcome, all, 1, collection, limit)
                }
                &&& on_event(documents, event, collection, limit).documents == all
            }
        }),
{
    let document = reading.document;
    law_position_is_the_first(documents, id_of(document));
    lemma_insertion_point_range(reading.order);
    let place = place_in(documents, reading.order, limit);
    let all = joined(documents, place, document);
    assert(all =~= documents.insert(place, document));
    if limit is None {
        assert(all =~= documents.push(document));
    }
    assert(all.take(all.len() - 1) =~= all.drop_last());
    if let Some(index) = position(documents, id_of(document)) {
        let at = if place <= index {
            index + 1
        } else {
            index
        };
        assert(lacking(all, at, limit) =~= dropped(all, at, limit));
        assert(all[at] == documents[index]);
    }
}

/// An update without a limit changes one document and leaves every other where it is.
pub proof fn law_unlimited_update_stays_in_place(
    documents: Seq<Fields>,
    reading: ReadingView,
    collection: Seq<char>,
    index: int,
)
    requires
        reading.matches,
        reading.document.contains_key("_id"@),
        position(documents, id_of(reading.document)) == Some(index),
    ensures
        ({
            let after = completed(
                documents,
                ReadEventView::Update(reading),
                collection,
                None,
            ).documents;
            &&& after.len() == documents.len()
            &&& after[index] == reading.document
            &&& forall|i: int|
                0 <= i < documents.len() && i != index ==> #[trigger] after[i] == documents[i]
        }),
{
    law_position_is_the_first(documents, id_of(reading.document));
    law_update_takes_the_place_of_the_document(documents, reading, collection, None);
}

/// What is left of an event takes one document out of the list, the last or that at a place, and
/// tells the mergeboxes that it goes. A last one without an `_id` goes too, but is a failure.
pub proof fn law_rest_of_an_event_takes_one_document_out(
    documents: Seq<Fields>,
    index: int,
    id: serde_json::Value,
    collection: Seq<char>,
    limit: Option<usize>,
)
    requires
        0 <= index < documents.len(),
    ensures
        ({
            let last = on_pending(documents, PendingView::Trim, collection, limit);
            let others = documents.take(documents.len() - 1);
            if documents.last().contains_key("_id"@) {
                &&& ends(last, others, 1, false)
                &&& goes(last.effects[0], documents.last(), collection)
            } else {
                fails(last, others, 0, documents.last())
            }
        }),
        ({
            let one = on_pending(
                documents,
                PendingView::Discard { index, id },
                collection,
                limit,
            );
            &&& ends(one, lacking(documents, index, limit), 1, false)
            &&& one.effects[0].kind is Remove
            &&& one.effects[0].collection == collection
            &&& one.effects[0].id == id
            &&& one.effects[0].project
            &&& is_rest_of(one.effects[0].fields, documents[index])
        }),
{
    assert(documents.take(documents.len() - 1) =~= documents.drop_last());
    assert(lacking(documents, index, limit) =~= dropped(documents, index, limit));
}

/// A reading has to say how the documents sort only if its document matches and the cursor has a
/// limit.
pub proof fn law_order_is_needed_only_to_sort(
    documents: Seq<Fields>,
    reading: ReadingView,
    event: ReadEventView,
    limit: Option<usize>,
)
    ensures
        event == ReadEventView::Insert(reading) || event == ReadEventView::Update(reading) ==> (
        is_readable(documents, event, limit) <==> !reading.matches || limit is None
            || reading.order.len() == documents.len()),
        !(event is Insert) && !(event is Update) ==> is_readable(documents, event, limit),
{
}

/// The view of an event, of what is left of it and of where it leads is the thing itself, with the
/// contents of its documents.
pub proof fn law_event_is_seen_as_it_is(
    reading: Reading,
    document: JsonDocument,
    boundary: Option<Timestamp>,
    index: usize,
    id: serde_json::Value,
    refetch: bool,
    error: FetchError,
    pending: Pending,
)
    ensures
        reading@.document == fields(reading.document),
        reading@.matches == reading.matches,
        reading@.order == reading.order@,
        ReadEvent::Clear@ is Clear,
        ReadEvent::Delete(document)@ == ReadEventView::Delete(fields(document)),
        ReadEvent::Insert(reading)@ == ReadEventView::Insert(reading@),
        ReadEvent::Resync(boundary)@ == ReadEventView::Resync(boundary),
        ReadEvent::Update(reading)@ == ReadEventView::Update(reading@),
        Pending::Trim@ is Trim,
        (Pending::Discard { index, id })@ == (PendingView::Discard { index: index as int, id }),
        Next::Done(refetch)@ == NextView::Done(refetch),
        Next::Fail(error)@ == NextView::Fail(error@),
        Next::Continue(pending)@ == NextView::Continue(pending@),
{
}

/// Documents and a step that meet an outcome agree with it in everything.
pub proof fn law_step_agrees_with_its_outcome(
    documents: Seq<JsonDocument>,
    step: Step,
    outcome: Outcome,
)
    ensures
        meets(documents, step, outcome) ==> {
            &&& documents.len() == outcome.documents.len()
            &&& forall|i: int|
                0 <= i < documents.len() ==> fields(#[trigger] documents[i])
                    == outcome.documents[i]
            &&& step.effects.len() == outcome.effects.len()
            &&& forall|i: int|
                0 <= i < step.effects.len() ==> (#[trigger] step.effects[i])@
                    == outcome.effects[i]
            &&& step.next@ == outcome.next
        },
{
    if meets(documents, step, outcome) {
        assert forall|i: int| 0 <= i < documents.len() implies fields(#[trigger] documents[i])
            == outcome.documents[i] by {
            assert(contents(documents)[i] == fields(documents[i]));
        }
        assert forall|i: int| 0 <= i < step.effects.len() implies (#[trigger] step.effects[i])@
            == outcome.effects[i] by {
            assert(effect_views(step.effects@)[i] == step.effects@[i]@);
        }
    }
}

} // verus!
