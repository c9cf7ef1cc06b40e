//! What holds of every event that a cursor handles.
use vstd::multiset::Multiset;
use vstd::prelude::*;
use vstd::seq_lib::{to_multiset_build, to_multiset_insert, to_multiset_remove};

use crate::cursor::effect::{announcement, announcements, EffectKind, EffectView};
use crate::cursor::order::{
    insertion_point, law_insertion_point_is_a_search_result, lemma_insertion_point_range, Order,
};
use crate::cursor::process::{
    departure, is_readable, on_event, on_pending, order_without_earlier, shifted, swap_removed,
    without_earlier, NextView, Outcome, PendingView, ReadEventView, ReadingView,
};
use crate::json::{
    all_identified, id_of, identified, json_class, lemma_identified_from, lemma_position_from,
    position, same_id, without_id, Fields,
};

verus! {

/// What an event comes to in the end: the documents, all its effects, and how it ends.
pub open spec fn completed(
    documents: Seq<Fields>,
    event: ReadEventView,
    collection: Seq<char>,
    limit: Option<usize>,
) -> Outcome {
    let first = on_event(documents, event, collection, limit);
    match first.next {
        NextView::Continue(pending) => {
            let second = on_pending(first.documents, pending, collection, limit);
            Outcome {
                documents: second.documents,
                effects: first.effects + second.effects,
                next: second.next,
            }
        },
        _ => first,
    }
}

/// Whether no two documents have the same `_id`.
pub open spec fn distinct_ids(documents: Seq<Fields>) -> bool {
    forall|i: int, j: int|
        0 <= i < j < documents.len() ==> !same_id(
            id_of(#[trigger] documents[i]),
            id_of(#[trigger] documents[j]),
        )
}

/// Whether no document has the given `_id`.
pub open spec fn has_no(documents: Seq<Fields>, id: Option<serde_json::Value>) -> bool {
    forall|i: int| 0 <= i < documents.len() ==> !same_id(id_of(#[trigger] documents[i]), id)
}

proof fn lemma_found(documents: Seq<Fields>, id: Option<serde_json::Value>)
    ensures
        match position(documents, id) {
            Some(index) => 0 <= index < documents.len() && same_id(id_of(documents[index]), id),
            None => has_no(documents, id),
        },
{
    lemma_position_from(documents, id, 0);
}

proof fn lemma_distinct_remove(documents: Seq<Fields>, index: int)
    requires
        distinct_ids(documents),
        0 <= index < documents.len(),
    ensures
        distinct_ids(documents.remove(index)),
        has_no(documents.remove(index), id_of(documents[index])),
        distinct_ids(swap_removed(documents, index)),
        has_no(swap_removed(documents, index), id_of(documents[index])),
{
    let rest = documents.remove(index);
    assert forall|i: int| 0 <= i < rest.len() implies #[trigger] rest[i] == documents[if i < index {
        i
    } else {
        i + 1
    }] by {}
    let swapped = swap_removed(documents, index);
    assert forall|i: int| 0 <= i < swapped.len() implies #[trigger] swapped[i] == documents[if i
        == index {
        documents.len() - 1
    } else {
        i
    }] by {}
}

proof fn lemma_distinct_insert(documents: Seq<Fields>, index: int, document: Fields)
    requires
        distinct_ids(documents),
        0 <= index <= documents.len(),
        has_no(documents, id_of(document)),
    ensures
        distinct_ids(documents.insert(index, document)),
{
    let all = documents.insert(index, document);
    assert forall|i: int| 0 <= i < all.len() && i != index implies #[trigger] all[i]
        == documents[if i < index {
        i
    } else {
        i - 1
    }] by {}
}

/// A document that is pushed and whose earlier state is then swapped out takes its place.
proof fn lemma_replaced(documents: Seq<Fields>, document: Fields, index: int)
    requires
        0 <= index < documents.len(),
    ensures
        swap_removed(documents.push(document), index) =~= documents.update(index, document),
{
}

/// A document that goes in where it sorts and whose earlier state is then taken out stands among
/// the others.
proof fn lemma_moved(documents: Seq<Fields>, document: Fields, from: int, to: int)
    requires
        0 <= from < documents.len(),
        0 <= to <= documents.len(),
    ensures
        to <= from ==> documents.insert(to, document).remove(from + 1) =~= documents.remove(
            from,
        ).insert(to, document),
        to > from ==> documents.insert(to, document).remove(from) =~= documents.remove(
            from,
        ).insert(to - 1, document),
{
}

/// An event that succeeds never leaves a cursor with two documents of the same `_id`.
pub proof fn law_ids_stay_distinct(
    documents: Seq<Fields>,
    event: ReadEventView,
    collection: Seq<char>,
    limit: Option<usize>,
)
    requires
        distinct_ids(documents),
        is_readable(documents, event, limit),
        completed(documents, event, collection, limit).next is Done,
    ensures
        distinct_ids(completed(documents, event, collection, limit).documents),
{
    match event {
        ReadEventView::Clear | ReadEventView::Resync(_) => {},
        ReadEventView::Delete(key) => {
            lemma_found(documents, id_of(key));
            if let Some(index) = position(documents, id_of(key)) {
                lemma_distinct_remove(documents, index);
            }
        },
        ReadEventView::Insert(reading) => {
            let document = reading.document;
            lemma_found(documents, id_of(document));
            if let Some(index) = position(documents, id_of(document)) {
                lemma_distinct_remove(documents, index);
            }
            let others = without_earlier(documents, document, limit);
            let order = order_without_earlier(documents, document, reading.order);
            lemma_insertion_point_range(order);
            if reading.matches {
                if limit is Some {
                    if insertion_point(order) != limit->0 {
                        lemma_distinct_insert(others, insertion_point(order), document);
                    }
                } else {
                    lemma_distinct_insert(others, others.len() as int, document);
                    assert(others.push(document) =~= others.insert(others.len() as int, document));
                }
            }
        },
        ReadEventView::Update(reading) => {
            let document = reading.document;
            lemma_found(documents, id_of(document));
            lemma_insertion_point_range(reading.order);
            let to = insertion_point(reading.order);
            match position(documents, id_of(document)) {
                Some(index) => {
                    lemma_distinct_remove(documents, index);
                    if reading.matches && limit is None {
                        lemma_replaced(documents, document, index);
                        let rest = documents.remove(index);
                        lemma_distinct_insert(rest, index, document);
                        assert(rest.insert(index, document) =~= documents.update(index, document));
                    } else if reading.matches && to != limit->0 {
                        lemma_moved(documents, document, index, to);
                        lemma_distinct_insert(
                            documents.remove(index),
                            if to <= index {
                                to
                            } else {
                                to - 1
                            },
                            document,
                        );
                    }
                },
                None => {
                    if reading.matches {
                        lemma_distinct_insert(documents, documents.len() as int, document);
                        assert(documents.push(document) =~= documents.insert(
                            documents.len() as int,
                            document,
                        ));
                        if limit is Some {
                            lemma_distinct_insert(documents, to, document);
                            let all = documents.insert(to, document);
                            lemma_distinct_remove(all, all.len() - 1);
                            assert(all.drop_last() =~= all.remove(all.len() - 1));
                        }
                    }
                },
            }
        },
    }
}

/// If every document of a cursor has an `_id`, so it is after every event that succeeds.
pub proof fn law_every_document_keeps_an_id(
    documents: Seq<Fields>,
    event: ReadEventView,
    collection: Seq<char>,
    limit: Option<usize>,
)
    requires
        all_identified(documents),
        is_readable(documents, event, limit),
        completed(documents, event, collection, limit).next is Done,
    ensures
        all_identified(completed(documents, event, collection, limit).documents),
{
    match event {
        ReadEventView::Clear | ReadEventView::Resync(_) => {},
        ReadEventView::Delete(key) => {
            lemma_found(documents, id_of(key));
        },
        ReadEventView::Insert(reading) => {
            lemma_found(documents, id_of(reading.document));
            lemma_insertion_point_range(
                order_without_earlier(documents, reading.document, reading.order),
            );
        },
        ReadEventView::Update(reading) => {
            lemma_found(documents, id_of(reading.document));
            lemma_insertion_point_range(reading.order);
        },
    }
}

/// How a cursor's projection changes the fields of a document.
pub type Projection = spec_fn(Fields) -> Fields;

/// What becomes of the fields of an effect: they are projected if they still have to be.
pub open spec fn as_told(projection: Projection, project: bool) -> Projection {
    if project {
        projection
    } else {
        |fields: Fields| fields
    }
}

/// What a mergebox tells a document by: the class of its `_id`, and its projected fields.
pub type Entry = (int, Fields);

/// What a mergebox tells a document by.
pub open spec fn entry(document: Fields, projection: Projection) -> Entry {
    (json_class(id_of(document)->0), projection(without_id(document)))
}

/// What a mergebox tells the document of an effect by.
pub open spec fn effect_entry(effect: EffectView, projection: Projection) -> Entry {
    (json_class(effect.id), as_told(projection, effect.project)(effect.fields))
}

/// What a mergebox counts of a cursor that has these documents.
pub open spec fn shown(documents: Seq<Fields>, projection: Projection) -> Multiset<Entry> {
    documents.map_values(|document: Fields| entry(document, projection)).to_multiset()
}

/// What a mergebox counts after it was told of an effect.
pub open spec fn told(
    counted: Multiset<Entry>,
    effect: EffectView,
    projection: Projection,
) -> Multiset<Entry> {
    match effect.kind {
        EffectKind::Insert => counted.insert(effect_entry(effect, projection)),
        EffectKind::Remove => counted.remove(effect_entry(effect, projection)),
    }
}

/// What a mergebox counts after it was told of effects, one after the other.
pub open spec fn told_all(
    counted: Multiset<Entry>,
    effects: Seq<EffectView>,
    projection: Projection,
) -> Multiset<Entry>
    decreases effects.len(),
{
    if effects.len() == 0 {
        counted
    } else {
        told(told_all(counted, effects.drop_last(), projection), effects.last(), projection)
    }
}

/// Effects can be told in two parts.
pub proof fn lemma_told_in_parts(
    counted: Multiset<Entry>,
    first: Seq<EffectView>,
    second: Seq<EffectView>,
    projection: Projection,
)
    ensures
        told_all(counted, first + second, projection) == told_all(
            told_all(counted, first, projection),
            second,
            projection,
        ),
    decreases second.len(),
{
    if second.len() == 0 {
        assert(first + second =~= first);
    } else {
        assert((first + second).drop_last() =~= first + second.drop_last());
        lemma_told_in_parts(counted, first, second.drop_last(), projection);
    }
}

proof fn lemma_told_one(counted: Multiset<Entry>, effect: EffectView, projection: Projection)
    ensures
        told_all(counted, seq![effect], projection) == told(counted, effect, projection),
        told_all(counted, seq![], projection) == counted,
{
    assert(seq![effect].drop_last() =~= seq![]);
    reveal_with_fuel(told_all, 2);
}

proof fn lemma_shown_push(documents: Seq<Fields>, document: Fields, projection: Projection)
    ensures
        shown(documents.push(document), projection) == shown(documents, projection).insert(
            entry(document, projection),
        ),
{
    let entries = documents.map_values(|document: Fields| entry(document, projection));
    assert(documents.push(document).map_values(|document: Fields| entry(document, projection))
        =~= entries.push(entry(document, projection)));
    to_multiset_build(entries, entry(document, projection));
}

proof fn lemma_shown_insert(
    documents: Seq<Fields>,
    index: int,
    document: Fields,
    projection: Projection,
)
    requires
        0 <= index <= documents.len(),
    ensures
        shown(documents.insert(index, document), projection) == shown(
            documents,
            projection,
        ).insert(entry(document, projection)),
{
    let entries = documents.map_values(|document: Fields| entry(document, projection));
    let longer = documents.insert(index, document);
    assert(longer.map_values(|document: Fields| entry(document, projection)) =~= entries.insert(
        index,
        entry(document, projection),
    ));
    to_multiset_insert(entries, index, entry(document, projection));
}

proof fn lemma_shown_remove(documents: Seq<Fields>, index: int, projection: Projection)
    requires
        0 <= index < documents.len(),
    ensures
        shown(documents.remove(index), projection) == shown(documents, projection).remove(
            entry(documents[index], projection),
        ),
        shown(swap_removed(documents, index), projection) == shown(documents, projection).remove(
            entry(documents[index], projection),
        ),
        shown(documents, projection).contains(entry(documents[index], projection)),
{
    broadcast use vstd::multiset::group_multiset_axioms;

    let entries = documents.map_values(|document: Fields| entry(document, projection));
    let removed = entries.remove(index);
    assert(documents.remove(index).map_values(|document: Fields| entry(document, projection))
        =~= removed);
    to_multiset_remove(entries, index);
    assert(removed.insert(index, entries[index]) =~= entries);
    to_multiset_insert(removed, index, entries[index]);
    let last = documents.len() - 1;
    let swapped = swap_removed(documents, index).map_values(
        |document: Fields| entry(document, projection),
    );
    if index == last {
        assert(swapped =~= removed);
    } else {
        let shorter = removed.drop_last();
        assert(swapped =~= shorter.insert(index, entries.last()));
        to_multiset_insert(shorter, index, entries.last());
        assert(removed =~= shorter.push(entries.last()));
        to_multiset_build(shorter, entries.last());
    }
}

proof fn lemma_shown_empty(projection: Projection)
    ensures
        shown(seq![], projection) == Multiset::<Entry>::empty(),
{
    let entries = Seq::<Fields>::empty().map_values(|document: Fields| entry(document, projection));
    assert(entries =~= Seq::<Entry>::empty());
    vstd::seq_lib::to_multiset_len(entries);
    broadcast use vstd::multiset::group_multiset_axioms;
    broadcast use vstd::multiset::group_multiset_properties;
    assert(shown(seq![], projection) =~= Multiset::<Entry>::empty());
}

/// If each document has an `_id`, each is announced.
pub proof fn lemma_all_announced(
    documents: Seq<Fields>,
    kind: EffectKind,
    collection: Seq<char>,
    project: bool,
)
    requires
        all_identified(documents),
    ensures
        identified(documents) == documents.len(),
        announcements(documents, kind, collection, project) == documents.map_values(
            |document: Fields| announcement(document, kind, collection, project),
        ),
{
    lemma_identified_from(documents, 0);
    assert(announcements(documents, kind, collection, project) =~= documents.map_values(
        |document: Fields| announcement(document, kind, collection, project),
    ));
}

proof fn lemma_announced_drop_last(
    documents: Seq<Fields>,
    kind: EffectKind,
    collection: Seq<char>,
    project: bool,
)
    requires
        all_identified(documents),
        documents.len() > 0,
    ensures
        all_identified(documents.drop_last()),
        announcements(documents, kind, collection, project).drop_last() == announcements(
            documents.drop_last(),
            kind,
            collection,
            project,
        ),
        announcements(documents, kind, collection, project).len() == documents.len(),
        announcements(documents, kind, collection, project).last() == announcement(
            documents.last(),
            kind,
            collection,
            project,
        ),
{
    let shorter = documents.drop_last();
    assert forall|i: int| 0 <= i < shorter.len() implies id_of(#[trigger] shorter[i]) is Some by {
        assert(shorter[i] == documents[i]);
    }
    lemma_all_announced(documents, kind, collection, project);
    lemma_all_announced(shorter, kind, collection, project);
    assert(announcements(documents, kind, collection, project).drop_last() =~= announcements(
        shorter,
        kind,
        collection,
        project,
    ));
}

/// A mergebox that is told that documents come counts them on top of what it counted.
pub proof fn lemma_told_of_insertions(
    counted: Multiset<Entry>,
    documents: Seq<Fields>,
    collection: Seq<char>,
    project: bool,
    projection: Projection,
)
    requires
        all_identified(documents),
    ensures
        told_all(
            counted,
            announcements(documents, EffectKind::Insert, collection, project),
            projection,
        ) == counted.add(shown(documents, as_told(projection, project))),
    decreases documents.len(),
{
    broadcast use vstd::multiset::group_multiset_axioms;

    let applied = as_told(projection, project);
    if documents.len() == 0 {
        lemma_all_announced(documents, EffectKind::Insert, collection, project);
        lemma_shown_empty(applied);
        assert(documents =~= seq![]);
        assert(counted.add(shown(documents, applied)) =~= counted);
    } else {
        let shorter = documents.drop_last();
        let last = entry(documents.last(), applied);
        lemma_announced_drop_last(documents, EffectKind::Insert, collection, project);
        lemma_told_of_insertions(counted, shorter, collection, project, projection);
        lemma_shown_push(shorter, documents.last(), applied);
        assert(shorter.push(documents.last()) =~= documents);
        assert(counted.add(shown(shorter, applied)).insert(last) =~= counted.add(
            shown(documents, applied),
        ));
    }
}

/// A mergebox that counts documents on top of others and is told that they go is left with the
/// others.
pub proof fn lemma_told_of_removals(
    counted: Multiset<Entry>,
    documents: Seq<Fields>,
    collection: Seq<char>,
    project: bool,
    projection: Projection,
)
    requires
        all_identified(documents),
    ensures
        told_all(
            counted.add(shown(documents, as_told(projection, project))),
            announcements(documents, EffectKind::Remove, collection, project),
            projection,
        ) == counted,
    decreases documents.len(),
{
    broadcast use vstd::multiset::group_multiset_axioms;

    let applied = as_told(projection, project);
    if documents.len() == 0 {
        lemma_all_announced(documents, EffectKind::Remove, collection, project);
        lemma_shown_empty(applied);
        assert(documents =~= seq![]);
        assert(counted.add(shown(documents, applied)) =~= counted);
    } else {
        let shorter = documents.drop_last();
        let last = entry(documents.last(), applied);
        lemma_announced_drop_last(documents, EffectKind::Remove, collection, project);
        lemma_told_of_removals(counted.insert(last), shorter, collection, project, projection);
        lemma_shown_push(shorter, documents.last(), applied);
        assert(shorter.push(documents.last()) =~= documents);
        assert(counted.add(shown(documents, applied)) =~= counted.insert(last).add(
            shown(shorter, applied),
        ));
        assert(counted.insert(last).remove(last) =~= counted);
    }
}

/// A mergebox that counts the documents after a step still does when the last of them has gone.
proof fn lemma_trimmed(
    counted: Multiset<Entry>,
    first: Outcome,
    collection: Seq<char>,
    projection: Projection,
)
    requires
        first.documents.len() > 0,
        told_all(counted, first.effects, projection) == shown(first.documents, projection),
    ensures
        told_all(
            counted,
            first.effects + seq![
                announcement(first.documents.last(), EffectKind::Remove, collection, true),
            ],
            projection,
        ) == shown(first.documents.drop_last(), projection),
{
    let all = first.documents;
    let gone = announcement(all.last(), EffectKind::Remove, collection, true);
    lemma_shown_remove(all, all.len() - 1, projection);
    assert(all.drop_last() =~= all.remove(all.len() - 1));
    lemma_told_in_parts(counted, first.effects, seq![gone], projection);
    lemma_told_one(shown(all, projection), gone, projection);
}

/// What a mergebox counts of a cursor is the cursor's documents, projected, before and after every
/// event that succeeds.
pub proof fn law_mergeboxes_keep_step(
    documents: Seq<Fields>,
    event: ReadEventView,
    collection: Seq<char>,
    limit: Option<usize>,
    projection: Projection,
)
    requires
        all_identified(documents),
        is_readable(documents, event, limit),
        completed(documents, event, collection, limit).next is Done,
    ensures
        ({
            let outcome = completed(documents, event, collection, limit);
            told_all(shown(documents, projection), outcome.effects, projection) == shown(
                outcome.documents,
                projection,
            )
        }),
{
    broadcast use vstd::multiset::group_multiset_axioms;

    let outcome = completed(documents, event, collection, limit);
    let first = on_event(documents, event, collection, limit);
    let counted = shown(documents, projection);
    reveal_with_fuel(told_all, 3);
    match event {
        ReadEventView::Clear => {
            lemma_all_announced(documents, EffectKind::Remove, collection, true);
            lemma_told_of_removals(Multiset::empty(), documents, collection, true, projection);
            lemma_shown_empty(projection);
            assert(Multiset::empty().add(counted) =~= counted);
        },
        ReadEventView::Resync(_) => {},
        ReadEventView::Delete(key) => {
            lemma_found(documents, id_of(key));
            if let Some(index) = position(documents, id_of(key)) {
                lemma_shown_remove(documents, index, projection);
                if outcome.effects.len() > 0 {
                    lemma_told_one(counted, outcome.effects[0], projection);
                }
            }
        },
        ReadEventView::Insert(reading) => {
            let document = reading.document;
            let others = without_earlier(documents, document, limit);
            let order = order_without_earlier(documents, document, reading.order);
            let gone = departure(documents, document, collection);
            lemma_found(documents, id_of(document));
            lemma_insertion_point_range(order);
            if reading.matches {
                if let Some(index) = position(documents, id_of(document)) {
                    lemma_shown_remove(documents, index, projection);
                }
                if limit is Some {
                    lemma_shown_insert(others, insertion_point(order), document, projection);
                } else {
                    lemma_shown_push(others, document, projection);
                }
                let come = announcement(document, EffectKind::Insert, collection, true);
                if gone.len() > 0 {
                    lemma_told_one(counted, gone[0], projection);
                    lemma_told_one(told(counted, come, projection), gone[0], projection);
                }
                lemma_told_one(counted, come, projection);
                lemma_told_in_parts(counted, seq![come], gone, projection);
                let all = first.documents;
                if first.effects == seq![come] + gone {
                    assert(gone.len() == 0 ==> first.effects =~= seq![come]);
                    assert(told_all(counted, first.effects, projection) =~= shown(
                        all,
                        projection,
                    ));
                }
                if first.next is Continue {
                    lemma_trimmed(counted, first, collection, projection);
                }
            }
        },
        ReadEventView::Update(reading) => {
            let document = reading.document;
            lemma_found(documents, id_of(document));
            lemma_insertion_point_range(reading.order);
            let to = insertion_point(reading.order);
            if first.effects.len() > 0 {
                lemma_told_one(counted, first.effects[0], projection);
                if reading.matches {
                    if limit is Some {
                        lemma_shown_insert(documents, to, document, projection);
                    } else {
                        lemma_shown_push(documents, document, projection);
                    }
                    if let Some(index) = position(documents, id_of(document)) {
                        let all = first.documents;
                        let at = shifted(index, reading.order, limit);
                        let second = on_pending(
                            all,
                            PendingView::Discard { index: at, id: id_of(document)->0 },
                            collection,
                            limit,
                        );
                        assert(all[at] == documents[index]);
                        lemma_shown_remove(all, at, projection);
                        lemma_told_in_parts(counted, first.effects, second.effects, projection);
                        lemma_told_one(shown(all, projection), second.effects[0], projection);
                    } else if first.next is Continue {
                        lemma_trimmed(counted, first, collection, projection);
                    }
                } else {
                    let index = position(documents, id_of(document))->0;
                    lemma_shown_remove(documents, index, projection);
                }
            }
        },
    }
}

/// Whether a projection leaves the fields of each document as they are.
pub open spec fn all_projected(documents: Seq<Fields>, projection: Projection) -> bool {
    forall|i: int|
        0 <= i < documents.len() ==> projection(without_id(#[trigger] documents[i]))
            == without_id(documents[i])
}

/// Documents that the projection leaves as they are are counted as they are.
proof fn lemma_shown_as_they_are(documents: Seq<Fields>, projection: Projection)
    requires
        all_projected(documents, projection),
    ensures
        shown(documents, projection) == shown(documents, as_told(projection, false)),
{
    let raw = as_told(projection, false);
    assert(documents.map_values(|document: Fields| entry(document, projection))
        =~= documents.map_values(|document: Fields| entry(document, raw)));
}

/// A snapshot tells the mergeboxes first that the new documents come and then that those from
/// before go; after that they count the new documents. The server has projected these, so the
/// projection leaves them as they are.
pub proof fn law_snapshot_replaces_what_is_shown(
    before: Seq<Fields>,
    after: Seq<Fields>,
    collection: Seq<char>,
    projection: Projection,
)
    requires
        all_identified(before),
        all_identified(after),
        all_projected(after, projection),
    ensures
        told_all(
            shown(before, projection),
            announcements(after, EffectKind::Insert, collection, false) + announcements(
                before,
                EffectKind::Remove,
                collection,
                true,
            ),
            projection,
        ) == shown(after, projection),
{
    broadcast use vstd::multiset::group_multiset_axioms;

    let insertions = announcements(after, EffectKind::Insert, collection, false);
    let removals = announcements(before, EffectKind::Remove, collection, true);
    let counted = shown(before, projection);
    let replaced = shown(after, projection);
    lemma_shown_as_they_are(after, projection);
    lemma_told_in_parts(counted, insertions, removals, projection);
    lemma_told_of_insertions(counted, after, collection, false, projection);
    assert(counted.add(replaced) =~= replaced.add(counted));
    lemma_told_of_removals(replaced, before, collection, true, projection);
}

/// A mergebox that starts to show a cursor counts the cursor's documents, projected, on top of what
/// it counted, as the mergeboxes that were told of the events do. When it no longer shows the
/// cursor it counts what it counted before.
pub proof fn law_unregister_undoes_register(
    counted: Multiset<Entry>,
    documents: Seq<Fields>,
    collection: Seq<char>,
    projection: Projection,
)
    requires
        all_identified(documents),
    ensures
        told_all(
            counted,
            announcements(documents, EffectKind::Insert, collection, true),
            projection,
        ) == counted.add(shown(documents, projection)),
        told_all(
            counted,
            announcements(documents, EffectKind::Insert, collection, true) + announcements(
                documents,
                EffectKind::Remove,
                collection,
                true,
            ),
            projection,
        ) == counted,
{
    let insertions = announcements(documents, EffectKind::Insert, collection, true);
    let removals = announcements(documents, EffectKind::Remove, collection, true);
    lemma_told_in_parts(counted, insertions, removals, projection);
    lemma_told_of_insertions(counted, documents, collection, true, projection);
    lemma_told_of_removals(counted, documents, collection, true, projection);
}

/// A cursor never has more documents than its limit allows.
pub proof fn law_limit_holds(
    documents: Seq<Fields>,
    event: ReadEventView,
    collection: Seq<char>,
    limit: usize,
)
    requires
        documents.len() <= limit,
        is_readable(documents, event, Some(limit)),
        completed(documents, event, collection, Some(limit)).next is Done,
    ensures
        completed(documents, event, collection, Some(limit)).documents.len() <= limit,
{
    match event {
        ReadEventView::Clear | ReadEventView::Resync(_) => {},
        ReadEventView::Delete(key) => {
            lemma_found(documents, id_of(key));
        },
        ReadEventView::Insert(reading) => {
            let order = order_without_earlier(documents, reading.document, reading.order);
            lemma_found(documents, id_of(reading.document));
            lemma_insertion_point_range(order);
        },
        ReadEventView::Update(reading) => {
            lemma_found(documents, id_of(reading.document));
            lemma_insertion_point_range(reading.order);
        },
    }
}

/// A list up to the limit.
pub open spec fn up_to(documents: Seq<Fields>, limit: usize) -> Seq<Fields> {
    if documents.len() > limit {
        documents.take(limit as int)
    } else {
        documents
    }
}

/// A limited cursor that hears of an insertion holds the first of its other documents and the
/// inserted one, in their order, as many as its limit allows.
pub proof fn law_limited_cursor_keeps_the_first(
    documents: Seq<Fields>,
    reading: ReadingView,
    collection: Seq<char>,
    limit: usize,
)
    requires
        all_identified(documents),
        documents.len() <= limit,
        reading.matches,
        id_of(reading.document) is Some,
        is_readable(documents, ReadEventView::Insert(reading), Some(limit)),
    ensures
        ({
            let others = without_earlier(documents, reading.document, Some(limit));
            let order = order_without_earlier(documents, reading.document, reading.order);
            let outcome = completed(
                documents,
                ReadEventView::Insert(reading),
                collection,
                Some(limit),
            );
            &&& outcome.next == NextView::Done(false)
            &&& outcome.documents == up_to(
                others.insert(insertion_point(order), reading.document),
                limit,
            )
        }),
{
    let others = without_earlier(documents, reading.document, Some(limit));
    let order = order_without_earlier(documents, reading.document, reading.order);
    lemma_found(documents, id_of(reading.document));
    lemma_insertion_point_range(order);
    let all = others.insert(insertion_point(order), reading.document);
    if insertion_point(order) == limit {
        assert(all.take(limit as int) =~= others);
    } else if all.len() > limit {
        assert(all.take(limit as int) =~= all.drop_last());
    }
}

/// Where a document goes among the others that sorts at a place in the whole list.
pub open spec fn place_among_others(
    documents: Seq<Fields>,
    document: Fields,
    order: Seq<Order>,
) -> int {
    match position(documents, id_of(document)) {
        Some(index) => if insertion_point(order) <= index {
            insertion_point(order)
        } else {
            insertion_point(order) - 1
        },
        None => insertion_point(order),
    }
}

/// A limited cursor that hears of an update holds the first of its other documents and the updated
/// one, in their order, as many as its limit allows, unless it has to fetch its documents again: it
/// does so exactly if it has the document and the updated one sorts past the limit.
pub proof fn law_limited_cursor_moves_an_update(
    documents: Seq<Fields>,
    reading: ReadingView,
    collection: Seq<char>,
    limit: usize,
)
    requires
        all_identified(documents),
        documents.len() <= limit,
        reading.matches,
        id_of(reading.document) is Some,
        is_readable(documents, ReadEventView::Update(reading), Some(limit)),
    ensures
        ({
            let others = without_earlier(documents, reading.document, Some(limit));
            let place = place_among_others(documents, reading.document, reading.order);
            let outcome = completed(
                documents,
                ReadEventView::Update(reading),
                collection,
                Some(limit),
            );
            if insertion_point(reading.order) == limit && position(
                documents,
                id_of(reading.document),
            ) is Some {
                &&& outcome.next == NextView::Done(true)
                &&& outcome.documents == documents
            } else {
                &&& outcome.next == NextView::Done(false)
                &&& outcome.documents == up_to(others.insert(place, reading.document), limit)
            }
        }),
{
    let document = reading.document;
    let to = insertion_point(reading.order);
    lemma_found(documents, id_of(document));
    lemma_insertion_point_range(reading.order);
    match position(documents, id_of(document)) {
        Some(index) => {
            lemma_moved(documents, document, index, to);
        },
        None => {
            let all = documents.insert(to, document);
            if to == limit {
                assert(all.take(limit as int) =~= documents);
            } else if all.len() > limit {
                assert(all.take(limit as int) =~= all.drop_last());
            }
        },
    }
}

/// Whether an event is about a document that the cursor does not show: it does not match, or
/// nothing with its `_id` is there to go.
pub open spec fn is_irrelevant(documents: Seq<Fields>, event: ReadEventView) -> bool {
    match event {
        ReadEventView::Delete(key) => id_of(key) is Some && position(documents, id_of(key)) is None,
        ReadEventView::Insert(reading) => !reading.matches,
        ReadEventView::Update(reading) => {
            &&& !reading.matches
            &&& id_of(reading.document) is Some
            &&& position(documents, id_of(reading.document)) is None
        },
        _ => false,
    }
}

/// An event about a document that the cursor does not show changes nothing and tells nobody.
pub proof fn law_irrelevant_event_changes_nothing(
    documents: Seq<Fields>,
    event: ReadEventView,
    collection: Seq<char>,
    limit: Option<usize>,
)
    requires
        is_irrelevant(documents, event),
    ensures
        completed(documents, event, collection, limit) == (Outcome {
            documents,
            effects: seq![],
            next: NextView::Done(false),
        }),
{
}

/// Whether an event takes a document away from a cursor that shows as many as its limit allows.
pub open spec fn leaves_room(
    documents: Seq<Fields>,
    event: ReadEventView,
    limit: Option<usize>,
) -> bool {
    &&& limit matches Some(limit) && limit == documents.len()
    &&& match event {
        ReadEventView::Delete(key) => id_of(key) is Some && position(documents, id_of(key)) is Some,
        ReadEventView::Update(reading) => {
            &&& !reading.matches
            &&& id_of(reading.document) is Some
            &&& position(documents, id_of(reading.document)) is Some
        },
        _ => false,
    }
}

/// Whether an update moves a document that the cursor has past the limit.
pub open spec fn moves_out(
    documents: Seq<Fields>,
    event: ReadEventView,
    limit: Option<usize>,
) -> bool {
    match event {
        ReadEventView::Update(reading) => {
            &&& reading.matches
            &&& limit matches Some(limit) && insertion_point(reading.order) == limit
            &&& position(documents, id_of(reading.document)) is Some
        },
        _ => false,
    }
}

/// The documents are fetched again exactly on a resync, when a full cursor loses one of them and
/// when one of them moves past the limit; until then nothing changes and nobody is told.
pub proof fn law_refetch_exactly_when_needed(
    documents: Seq<Fields>,
    event: ReadEventView,
    collection: Seq<char>,
    limit: Option<usize>,
)
    ensures
        completed(documents, event, collection, limit).next == NextView::Done(true) <==> (
        event is Resync || leaves_room(documents, event, limit) || moves_out(
            documents,
            event,
            limit,
        )),
        completed(documents, event, collection, limit).next == NextView::Done(true) ==> {
            &&& completed(documents, event, collection, limit).documents == documents
            &&& completed(documents, event, collection, limit).effects.len() == 0
        },
{
}

/// A cursor without a limit that hears of a matching document holds it from then on, as it was
/// told, in place of an earlier one with that `_id` and beside all others.
pub proof fn law_unlimited_cursor_holds_what_it_hears_of(
    documents: Seq<Fields>,
    event: ReadEventView,
    reading: ReadingView,
    collection: Seq<char>,
)
    requires
        distinct_ids(documents),
        event == ReadEventView::Insert(reading) || event == ReadEventView::Update(reading),
        reading.matches,
        id_of(reading.document) is Some,
    ensures
        ({
            let outcome = completed(documents, event, collection, None);
            let id = id_of(reading.document);
            &&& outcome.next == NextView::Done(false)
            &&& outcome.documents.len() == documents.len() + (if position(documents, id) is Some {
                0int
            } else {
                1
            })
            &&& position(outcome.documents, id) matches Some(index) && outcome.documents[index]
                == reading.document
            &&& forall|i: int|
                0 <= i < documents.len() && !same_id(id_of(#[trigger] documents[i]), id)
                    ==> outcome.documents.contains(documents[i])
            &&& forall|i: int|
                0 <= i < outcome.documents.len() ==> #[trigger] outcome.documents[i]
                    == reading.document || documents.contains(outcome.documents[i])
        }),
{
    let document = reading.document;
    let id = id_of(document);
    let after = completed(documents, event, collection, None).documents;
    lemma_found(documents, id);
    match position(documents, id) {
        Some(index) => {
            if event is Update {
                lemma_replaced(documents, document, index);
                assert(after =~= documents.update(index, document));
                assert(after[index] == document);
                assert forall|i: int|
                    0 <= i < documents.len() && !same_id(
                        id_of(#[trigger] documents[i]),
                        id,
                    ) implies after.contains(documents[i]) by {
                    assert(after[i] == documents[i]);
                }
                assert forall|i: int| 0 <= i < after.len() implies #[trigger] after[i] == document
                    || documents.contains(after[i]) by {
                    assert(i != index ==> after[i] == documents[i]);
                }
            } else {
                let others = swap_removed(documents, index);
                assert(after =~= others.push(document));
                assert forall|i: int|
                    0 <= i < documents.len() && !same_id(
                        id_of(#[trigger] documents[i]),
                        id,
                    ) implies after.contains(documents[i]) by {
                    if i == documents.len() - 1 {
                        assert(after[index] == documents[i]);
                    } else {
                        assert(after[i] == documents[i]);
                    }
                }
                assert(after.last() == document);
                assert forall|i: int| 0 <= i < after.len() implies #[trigger] after[i] == document
                    || documents.contains(after[i]) by {
                    if i < others.len() {
                        assert(after[i] == if i == index {
                            documents.last()
                        } else {
                            documents[i]
                        });
                    }
                }
            }
        },
        None => {
            assert(after =~= documents.push(document));
            assert forall|i: int| 0 <= i < documents.len() implies after.contains(
                #[trigger] documents[i],
            ) by {
                assert(after[i] == documents[i]);
            }
            assert(after.last() == document);
            assert forall|i: int| 0 <= i < after.len() implies #[trigger] after[i] == document
                || documents.contains(after[i]) by {
                assert(i < documents.len() ==> after[i] == documents[i]);
            }
        },
    }
    law_ids_stay_distinct(documents, event, collection, None);
    lemma_found(after, id);
    let held = choose|i: int| 0 <= i < after.len() && after[i] == document;
    assert(after[held] == document);
}

/// Where a document goes in the list that it is put into: an insertion is put among the others, an
/// update into the whole list.
pub open spec fn place_of(documents: Seq<Fields>, event: ReadEventView) -> int {
    match event {
        ReadEventView::Insert(reading) => insertion_point(
            order_without_earlier(documents, reading.document, reading.order),
        ),
        ReadEventView::Update(reading) => insertion_point(reading.order),
        _ => 0,
    }
}

/// Where a document goes among the others.
spec fn place_beside(documents: Seq<Fields>, event: ReadEventView, reading: ReadingView) -> int {
    if event is Insert {
        place_of(documents, event)
    } else {
        place_among_others(documents, reading.document, reading.order)
    }
}

/// A limited cursor that hears of a matching document is left with the others alone, if that is
/// past the limit, or with the document among them, up to the limit.
proof fn lemma_limited_outcome(
    documents: Seq<Fields>,
    event: ReadEventView,
    reading: ReadingView,
    collection: Seq<char>,
    limit: usize,
)
    requires
        event == ReadEventView::Insert(reading) || event == ReadEventView::Update(reading),
        reading.matches,
        id_of(reading.document) is Some,
        is_readable(documents, event, Some(limit)),
        completed(documents, event, collection, Some(limit)).next == NextView::Done(false),
    ensures
        ({
            let after = completed(documents, event, collection, Some(limit)).documents;
            let others = without_earlier(documents, reading.document, Some(limit));
            let at = place_beside(documents, event, reading);
            let all = others.insert(at, reading.document);
            &&& 0 <= at <= others.len()
            &&& at <= place_of(documents, event)
            &&& {
                ||| after == others && place_of(documents, event) == limit
                ||| after == all
                ||| after == all.drop_last() && all.len() > limit
            }
        }),
{
    let document = reading.document;
    lemma_found(documents, id_of(document));
    lemma_insertion_point_range(order_without_earlier(documents, document, reading.order));
    lemma_insertion_point_range(reading.order);
    if let Some(index) = position(documents, id_of(document)) {
        lemma_moved(documents, document, index, insertion_point(reading.order));
    }
}

/// The list without an earlier document of the same `_id` has all the others, and none with it.
proof fn lemma_without_earlier(documents: Seq<Fields>, document: Fields, limit: usize)
    requires
        distinct_ids(documents),
    ensures
        ({
            let others = without_earlier(documents, document, Some(limit));
            let earlier = position(documents, id_of(document));
            &&& has_no(others, id_of(document))
            &&& others.len() == documents.len() - (if earlier is Some {
                1int
            } else {
                0
            })
            &&& forall|i: int|
                0 <= i < others.len() ==> #[trigger] others[i] == documents[if earlier is Some
                    && earlier->0 <= i {
                    i + 1
                } else {
                    i
                }]
        }),
{
    lemma_found(documents, id_of(document));
    if let Some(index) = position(documents, id_of(document)) {
        lemma_distinct_remove(documents, index);
    }
}

/// A list that a document was put into, or not, holds no other of its `_id`.
proof fn lemma_list_holds(
    documents: Seq<Fields>,
    others: Seq<Fields>,
    document: Fields,
    at: int,
    after: Seq<Fields>,
)
    requires
        has_no(others, id_of(document)),
        0 <= at <= others.len(),
        forall|i: int| 0 <= i < others.len() ==> documents.contains(#[trigger] others[i]),
        ({
            ||| after == others
            ||| after == others.insert(at, document)
            ||| after == others.insert(at, document).drop_last()
        }),
    ensures
        forall|i: int|
            0 <= i < after.len() ==> #[trigger] after[i] == document || documents.contains(
                after[i],
            ),
        forall|i: int|
            0 <= i < after.len() && same_id(id_of(#[trigger] after[i]), id_of(document))
                ==> after[i] == document,
{
    assert forall|i: int| 0 <= i < after.len() implies (#[trigger] after[i] == document
        || documents.contains(after[i])) && (same_id(id_of(after[i]), id_of(document))
        ==> after[i] == document) by {
        if after != others && i != at {
            assert(after[i] == others[if i < at {
                i
            } else {
                i - 1
            }]);
        }
    }
}

/// A list that a document was put into, up to the limit, holds the document and the others.
proof fn lemma_list_up_to_the_limit(
    documents: Seq<Fields>,
    document: Fields,
    at: int,
    place: int,
    after: Seq<Fields>,
    limit: usize,
)
    requires
        distinct_ids(documents),
        ({
            let others = without_earlier(documents, document, Some(limit));
            let all = others.insert(at, document);
            &&& 0 <= at <= others.len()
            &&& at <= place
            &&& {
                ||| after == others && place == limit
                ||| after == all
                ||| after == all.drop_last() && all.len() > limit
            }
        }),
    ensures
        forall|i: int|
            0 <= i < after.len() && same_id(id_of(#[trigger] after[i]), id_of(document))
                ==> after[i] == document,
        place < limit ==> after.contains(document),
        forall|i: int|
            0 <= i < after.len() ==> #[trigger] after[i] == document || documents.contains(
                after[i],
            ),
        documents.len() <= limit ==> forall|i: int|
            0 <= i < documents.len() && !same_id(
                id_of(#[trigger] documents[i]),
                id_of(document),
            ) && (documents.len() < limit || position(documents, id_of(document)) is Some || i + 1
                < documents.len()) ==> after.contains(documents[i]),
{
    let id = id_of(document);
    let others = without_earlier(documents, document, Some(limit));
    let earlier = position(documents, id);
    lemma_found(documents, id);
    lemma_without_earlier(documents, document, limit);
    assert forall|i: int| 0 <= i < others.len() implies documents.contains(
        #[trigger] others[i],
    ) by {
        assert(others[i] == documents[if earlier is Some && earlier->0 <= i {
            i + 1
        } else {
            i
        }]);
    }
    lemma_list_holds(documents, others, document, at, after);
    if place < limit {
        assert(after[at] == document);
    }
    if documents.len() <= limit {
        assert forall|i: int|
            0 <= i < documents.len() && !same_id(id_of(#[trigger] documents[i]), id) && (
            documents.len() < limit || earlier is Some || i + 1
                < documents.len()) implies after.contains(documents[i]) by {
            let j = if earlier is Some && earlier->0 < i {
                i - 1
            } else {
                i
            };
            assert(others[j] == documents[i]);
            assert(after[if after == others || j < at {
                j
            } else {
                j + 1
            }] == documents[i]);
        }
    }
}

/// A limited cursor that hears of a matching document, and need not fetch its documents again for
/// it, has no other state of that document from then on. It holds the document, as it was told,
/// unless that sorts past the limit. The others stay, but for the last one of a full cursor that
/// makes room.
pub proof fn law_limited_cursor_holds_what_it_hears_of(
    documents: Seq<Fields>,
    event: ReadEventView,
    reading: ReadingView,
    collection: Seq<char>,
    limit: usize,
)
    requires
        distinct_ids(documents),
        event == ReadEventView::Insert(reading) || event == ReadEventView::Update(reading),
        reading.matches,
        id_of(reading.document) is Some,
        is_readable(documents, event, Some(limit)),
        completed(documents, event, collection, Some(limit)).next == NextView::Done(false),
    ensures
        ({
            let outcome = completed(documents, event, collection, Some(limit));
            let id = id_of(reading.document);
            &&& forall|i: int|
                0 <= i < outcome.documents.len() && same_id(
                    id_of(#[trigger] outcome.documents[i]),
                    id,
                ) ==> outcome.documents[i] == reading.document
            &&& place_of(documents, event) < limit ==> outcome.documents.contains(
                reading.document,
            )
            &&& forall|i: int|
                0 <= i < outcome.documents.len() ==> #[trigger] outcome.documents[i]
                    == reading.document || documents.contains(outcome.documents[i])
            &&& documents.len() <= limit ==> forall|i: int|
                0 <= i < documents.len() && !same_id(id_of(#[trigger] documents[i]), id) && (
                documents.len() < limit || position(documents, id) is Some || i + 1
                    < documents.len()) ==> outcome.documents.contains(documents[i])
        }),
{
    let document = reading.document;
    let after = completed(documents, event, collection, Some(limit)).documents;
    let at = place_beside(documents, event, reading);
    let place = place_of(documents, event);
    lemma_limited_outcome(documents, event, reading, collection, limit);
    lemma_list_up_to_the_limit(documents, document, at, place, after, limit);
}

/// Whether an event says that the document with an `_id` is gone, or no longer matches.
pub open spec fn takes_away(event: ReadEventView, id: Option<serde_json::Value>) -> bool {
    match event {
        ReadEventView::Delete(key) => id == id_of(key),
        ReadEventView::Update(reading) => !reading.matches && id == id_of(reading.document),
        _ => false,
    }
}

/// A cursor that hears that a document is gone or no longer matches, and need not fetch its
/// documents again for it, has none with that `_id` from then on. All others stay.
pub proof fn law_lost_document_is_gone(
    documents: Seq<Fields>,
    event: ReadEventView,
    id: Option<serde_json::Value>,
    collection: Seq<char>,
    limit: Option<usize>,
)
    requires
        distinct_ids(documents),
        takes_away(event, id),
        completed(documents, event, collection, limit).next == NextView::Done(false),
    ensures
        ({
            let outcome = completed(documents, event, collection, limit);
            &&& has_no(outcome.documents, id)
            &&& forall|i: int|
                0 <= i < documents.len() && !same_id(id_of(#[trigger] documents[i]), id)
                    ==> outcome.documents.contains(documents[i])
        }),
{
    let after = completed(documents, event, collection, limit).documents;
    lemma_found(documents, id);
    if let Some(index) = position(documents, id) {
        lemma_distinct_remove(documents, index);
        assert forall|i: int|
            0 <= i < documents.len() && !same_id(
                id_of(#[trigger] documents[i]),
                id,
            ) implies after.contains(documents[i]) by {
            if limit is Some {
                assert(after[if i < index {
                    i
                } else {
                    i - 1
                }] == documents[i]);
            } else if i == documents.len() - 1 {
                assert(after[index] == documents[i]);
            } else {
                assert(after[i] == documents[i]);
            }
        }
    } else {
        assert forall|i: int| 0 <= i < documents.len() implies after.contains(
            #[trigger] documents[i],
        ) by {
            assert(after[i] == documents[i]);
        }
    }
}

/// Whether documents are sorted by rank.
pub open spec fn sorted_by(documents: Seq<Fields>, rank: spec_fn(Fields) -> int) -> bool {
    forall|i: int, j: int|
        0 <= i < j < documents.len() ==> rank(#[trigger] documents[i]) <= rank(
            #[trigger] documents[j],
        )
}

/// How a document sorts against another by rank.
pub open spec fn ranked(stored: int, incoming: int) -> Order {
    if stored < incoming {
        Order::Before
    } else if stored == incoming {
        Order::Level
    } else {
        Order::After
    }
}

/// Whether a reading compares by rank.
pub open spec fn is_ranked(
    documents: Seq<Fields>,
    reading: ReadingView,
    rank: spec_fn(Fields) -> int,
) -> bool {
    &&& reading.order.len() == documents.len()
    &&& forall|i: int|
        0 <= i < documents.len() ==> #[trigger] reading.order[i] == ranked(
            rank(documents[i]),
            rank(reading.document),
        )
}

/// Whether the reading of an event, if it has one, compares by rank.
pub open spec fn compares_by(
    documents: Seq<Fields>,
    event: ReadEventView,
    rank: spec_fn(Fields) -> int,
) -> bool {
    match event {
        ReadEventView::Insert(reading) => reading.matches ==> is_ranked(documents, reading, rank),
        ReadEventView::Update(reading) => reading.matches ==> is_ranked(documents, reading, rank),
        _ => true,
    }
}

proof fn lemma_sorted_insert(
    documents: Seq<Fields>,
    document: Fields,
    order: Seq<Order>,
    rank: spec_fn(Fields) -> int,
)
    requires
        sorted_by(documents, rank),
        order.len() == documents.len(),
        forall|i: int|
            0 <= i < documents.len() ==> #[trigger] order[i] == ranked(
                rank(documents[i]),
                rank(document),
            ),
    ensures
        0 <= insertion_point(order) <= documents.len(),
        sorted_by(documents.insert(insertion_point(order), document), rank),
{
    assert(crate::cursor::order::is_sorted(order)) by {
        assert forall|i: int, j: int|
            #![trigger order[i], order[j]]
            0 <= i < j < order.len() implies {
            &&& order[i] is After ==> order[j] is After
            &&& order[j] is Before ==> order[i] is Before
        } by {
            assert(rank(documents[i]) <= rank(documents[j]));
        }
    }
    law_insertion_point_is_a_search_result(order);
    let at = insertion_point(order);
    let all = documents.insert(at, document);
    assert forall|i: int, j: int| 0 <= i < j < all.len() implies rank(#[trigger] all[i]) <= rank(
        #[trigger] all[j],
    ) by {
        if i < at {
            assert(all[i] == documents[i]);
            assert(!(order[i] is After));
        } else if i > at {
            assert(all[i] == documents[i - 1]);
        }
        if j < at {
            assert(all[j] == documents[j]);
        } else if j > at {
            assert(all[j] == documents[j - 1]);
            assert(!(order[j - 1] is Before));
        }
    }
}

proof fn lemma_sorted_remove(documents: Seq<Fields>, index: int, rank: spec_fn(Fields) -> int)
    requires
        sorted_by(documents, rank),
        0 <= index < documents.len(),
    ensures
        sorted_by(documents.remove(index), rank),
{
    let rest = documents.remove(index);
    assert forall|i: int| 0 <= i < rest.len() implies #[trigger] rest[i] == documents[if i < index {
        i
    } else {
        i + 1
    }] by {}
}

/// The documents of a limited cursor stay sorted.
pub proof fn law_limited_cursor_stays_sorted(
    documents: Seq<Fields>,
    event: ReadEventView,
    collection: Seq<char>,
    limit: usize,
    rank: spec_fn(Fields) -> int,
)
    requires
        sorted_by(documents, rank),
        compares_by(documents, event, rank),
    ensures
        sorted_by(completed(documents, event, collection, Some(limit)).documents, rank),
{
    match event {
        ReadEventView::Clear | ReadEventView::Resync(_) => {},
        ReadEventView::Delete(key) => {
            lemma_found(documents, id_of(key));
            if let Some(index) = position(documents, id_of(key)) {
                lemma_sorted_remove(documents, index, rank);
            }
        },
        ReadEventView::Insert(reading) => {
            let document = reading.document;
            lemma_found(documents, id_of(document));
            if reading.matches {
                let others = without_earlier(documents, document, Some(limit));
                let order = order_without_earlier(documents, document, reading.order);
                if let Some(index) = position(documents, id_of(document)) {
                    lemma_sorted_remove(documents, index, rank);
                    assert forall|i: int| 0 <= i < others.len() implies #[trigger] order[i]
                        == ranked(rank(others[i]), rank(document)) by {
                        let at = if i < index {
                            i
                        } else {
                            i + 1
                        };
                        assert(others[i] == documents[at]);
                        assert(order[i] == reading.order[at]);
                    }
                }
                lemma_sorted_insert(others, document, order, rank);
                let all = others.insert(insertion_point(order), document);
                assert(all.drop_last() =~= all.remove(all.len() - 1));
                lemma_sorted_remove(all, all.len() - 1, rank);
            }
        },
        ReadEventView::Update(reading) => {
            let document = reading.document;
            lemma_found(documents, id_of(document));
            if reading.matches {
                lemma_sorted_insert(documents, document, reading.order, rank);
                let all = documents.insert(insertion_point(reading.order), document);
                if let Some(index) = position(documents, id_of(document)) {
                    let at = shifted(index, reading.order, Some(limit));
                    lemma_sorted_remove(all, at, rank);
                }
                assert(all.drop_last() =~= all.remove(all.len() - 1));
                lemma_sorted_remove(all, all.len() - 1, rank);
            } else if let Some(index) = position(documents, id_of(document)) {
                lemma_sorted_remove(documents, index, rank);
            }
        },
    }
}

} // verus!
