//! How one event changes the documents of a cursor, and what the mergeboxes are told.
use vstd::prelude::*;

use bson::Timestamp;

use crate::cursor::description::CursorDescription;
use crate::cursor::effect::{
    announce, announcement, announcements, effect_views, extract_id, missing_id, Effect,
    EffectKind, EffectView, FetchError, FetchErrorView,
};
use crate::cursor::order::{
    find_insertion_point, insertion_point, lemma_insertion_point_range, Order,
};
use crate::json::{
    contents, document_clone, document_get, document_remove, fields, find_position, id_of,
    lemma_position_from, position, value_clone, without_id, Fields, JsonDocument,
};

verus! {

/// An incoming document and what the cursor's query says of it.
pub struct Reading {
    /// The document.
    pub document: JsonDocument,
    /// Whether the document matches the selector.
    pub matches: bool,
    /// How each of the cursor's documents sorts against it. Needed only of a matching document,
    /// by a cursor with a limit.
    pub order: Vec<Order>,
}

/// A [`Reading`] with the contents of its document.
pub struct ReadingView {
    pub document: Fields,
    pub matches: bool,
    pub order: Seq<Order>,
}

impl View for Reading {
    type V = ReadingView;

    open spec fn view(&self) -> ReadingView {
        ReadingView {
            document: fields(self.document),
            matches: self.matches,
            order: self.order@,
        }
    }
}

/// An event whose document was read.
pub enum ReadEvent {
    /// Every document is gone.
    Clear,
    /// The document with this key is gone.
    Delete(JsonDocument),
    /// The document is new.
    Insert(Reading),
    /// Changes may have been missed.
    Resync(Option<Timestamp>),
    /// The document has changed to this.
    Update(Reading),
}

/// A [`ReadEvent`] with the contents of its document.
pub enum ReadEventView {
    Clear,
    Delete(Fields),
    Insert(ReadingView),
    Resync(Option<Timestamp>),
    Update(ReadingView),
}

impl View for ReadEvent {
    type V = ReadEventView;

    open spec fn view(&self) -> ReadEventView {
        match self {
            ReadEvent::Clear => ReadEventView::Clear,
            ReadEvent::Delete(document) => ReadEventView::Delete(fields(*document)),
            ReadEvent::Insert(reading) => ReadEventView::Insert(reading@),
            ReadEvent::Resync(boundary) => ReadEventView::Resync(*boundary),
            ReadEvent::Update(reading) => ReadEventView::Update(reading@),
        }
    }
}

/// What is left to do once the effects of a step have taken place.
pub enum Pending {
    /// The last document goes: there is one more than the limit allows.
    Trim,
    /// The document at this place goes: it is the earlier state of the document with this `_id`.
    Discard { index: usize, id: serde_json::Value },
}

/// A [`Pending`] with its place as a number.
pub enum PendingView {
    Trim,
    Discard { index: int, id: serde_json::Value },
}

impl View for Pending {
    type V = PendingView;

    open spec fn view(&self) -> PendingView {
        match self {
            Pending::Trim => PendingView::Trim,
            Pending::Discard { index, id } => PendingView::Discard {
                index: *index as int,
                id: *id,
            },
        }
    }
}

/// Where a step leads once its effects have taken place.
pub enum Next {
    /// The event is done; whether the documents have to be fetched again.
    Done(bool),
    /// The event cannot be done.
    Fail(FetchError),
    /// There is another step.
    Continue(Pending),
}

/// A [`Next`] with the contents of its document.
pub enum NextView {
    Done(bool),
    Fail(FetchErrorView),
    Continue(PendingView),
}

impl View for Next {
    type V = NextView;

    open spec fn view(&self) -> NextView {
        match self {
            Next::Done(refetch) => NextView::Done(*refetch),
            Next::Fail(error) => NextView::Fail(error@),
            Next::Continue(pending) => NextView::Continue(pending@),
        }
    }
}

/// What the mergeboxes are told, one effect after the other, and where that leads.
pub struct Step {
    pub effects: Vec<Effect>,
    pub next: Next,
}

/// The documents after a step, the effects of the step, and where it leads.
pub struct Outcome {
    pub documents: Seq<Fields>,
    pub effects: Seq<EffectView>,
    pub next: NextView,
}

/// Whether documents and step are those of an outcome.
pub open spec fn meets(documents: Seq<JsonDocument>, step: Step, outcome: Outcome) -> bool {
    &&& contents(documents) == outcome.documents
    &&& effect_views(step.effects@) == outcome.effects
    &&& step.next@ == outcome.next
}

/// The outcome of an event that changes nothing and tells nobody.
pub open spec fn settled(documents: Seq<Fields>, refetch: bool) -> Outcome {
    Outcome { documents, effects: seq![], next: NextView::Done(refetch) }
}

/// The outcome of an event whose document has no `_id`.
pub open spec fn unidentified(documents: Seq<Fields>, document: Fields) -> Outcome {
    Outcome {
        documents,
        effects: seq![],
        next: NextView::Fail(FetchErrorView::MissingId(document)),
    }
}

/// The list without the item at `index`; the last item takes its place.
pub open spec fn swap_removed(documents: Seq<Fields>, index: int) -> Seq<Fields> {
    documents.update(index, documents.last()).drop_last()
}

/// The list without the item at `index`. A limited cursor keeps the order of the others.
pub open spec fn dropped(documents: Seq<Fields>, index: int, limit: Option<usize>) -> Seq<Fields> {
    if limit is Some {
        documents.remove(index)
    } else {
        swap_removed(documents, index)
    }
}

/// The effect that a document goes under the given `_id`.
pub open spec fn removal(
    document: Fields,
    id: serde_json::Value,
    collection: Seq<char>,
) -> EffectView {
    EffectView {
        kind: EffectKind::Remove,
        collection,
        id,
        fields: without_id(document),
        project: true,
    }
}

/// Every document goes, in the order of the list.
pub open spec fn on_clear(documents: Seq<Fields>, collection: Seq<char>) -> Outcome {
    Outcome {
        documents: seq![],
        effects: announcements(documents, EffectKind::Remove, collection, true),
        next: match missing_id(documents) {
            Some(error) => NextView::Fail(error),
            None => NextView::Done(false),
        },
    }
}

/// The document with the `_id` of the key goes. A cursor that shows as many documents as its limit
/// allows may have to show another in its place, so it fetches its documents again.
pub open spec fn on_delete(
    documents: Seq<Fields>,
    key: Fields,
    collection: Seq<char>,
    limit: Option<usize>,
) -> Outcome {
    match (id_of(key), position(documents, id_of(key))) {
        (None, _) => unidentified(documents, key),
        (_, None) => settled(documents, false),
        (Some(id), Some(index)) => if limit matches Some(limit) && limit == documents.len() {
            settled(documents, true)
        } else {
            Outcome {
                documents: dropped(documents, index, limit),
                effects: seq![removal(documents[index], id, collection)],
                next: NextView::Done(false),
            }
        },
    }
}

/// The list with a document put at the end, or, by a cursor with a limit, where it sorts. There is
/// no such list if that place is the first that the limit does not allow.
pub open spec fn placed(
    documents: Seq<Fields>,
    document: Fields,
    order: Seq<Order>,
    limit: Option<usize>,
) -> Option<Seq<Fields>> {
    match limit {
        None => Some(documents.push(document)),
        Some(limit) => if insertion_point(order) == limit {
            None
        } else {
            Some(documents.insert(insertion_point(order), document))
        },
    }
}

/// The list without an earlier document of the same `_id`.
pub open spec fn without_earlier(
    documents: Seq<Fields>,
    document: Fields,
    limit: Option<usize>,
) -> Seq<Fields> {
    match position(documents, id_of(document)) {
        Some(index) => dropped(documents, index, limit),
        None => documents,
    }
}

/// The comparisons without that of an earlier document of the same `_id`.
pub open spec fn order_without_earlier(
    documents: Seq<Fields>,
    document: Fields,
    order: Seq<Order>,
) -> Seq<Order> {
    match position(documents, id_of(document)) {
        Some(index) => order.remove(index),
        None => order,
    }
}

/// The effect that an earlier document of the same `_id` goes, if there is one.
pub open spec fn departure(
    documents: Seq<Fields>,
    document: Fields,
    collection: Seq<char>,
) -> Seq<EffectView> {
    match (id_of(document), position(documents, id_of(document))) {
        (Some(id), Some(index)) => seq![removal(documents[index], id, collection)],
        _ => seq![],
    }
}

/// Where an event leads that has put a document into the list: if there are more documents than the
/// limit allows, the last is to go.
pub open spec fn trimmed(documents: Seq<Fields>, limit: Option<usize>) -> NextView {
    if limit matches Some(limit) && documents.len() > limit {
        NextView::Continue(PendingView::Trim)
    } else {
        NextView::Done(false)
    }
}

/// A matching document takes the place of an earlier one with its `_id`, if there is one, and is
/// put where it belongs. If that is past the limit, it is left out. If there are then more
/// documents than the limit allows, the last is to go.
pub open spec fn on_insert(
    documents: Seq<Fields>,
    reading: ReadingView,
    collection: Seq<char>,
    limit: Option<usize>,
) -> Outcome {
    let document = reading.document;
    let others = without_earlier(documents, document, limit);
    let order = order_without_earlier(documents, document, reading.order);
    let gone = departure(documents, document, collection);
    if !reading.matches {
        settled(documents, false)
    } else {
        match placed(others, document, order, limit) {
            None => Outcome { documents: others, effects: gone, next: NextView::Done(false) },
            Some(documents) => if id_of(document) is None {
                unidentified(documents, document)
            } else {
                Outcome {
                    documents,
                    effects: seq![announcement(document, EffectKind::Insert, collection, true)]
                        + gone,
                    next: trimmed(documents, limit),
                }
            },
        }
    }
}

/// Where the document at `index` stands once another was put in, under a limit where that sorts.
pub open spec fn shifted(index: int, order: Seq<Order>, limit: Option<usize>) -> int {
    if limit is Some && insertion_point(order) <= index {
        index + 1
    } else {
        index
    }
}

/// A matching document is put where it belongs. The document with its `_id` from before is then to
/// be discarded; if there is none, and more documents than the limit allows, the last is to go. If
/// the place is past the limit, a document that the cursor has not got is left out; for one that it
/// has, another may have to be shown, so the cursor fetches its documents again. A document that no
/// longer matches goes; a cursor that shows as many documents as its limit allows fetches its
/// documents again instead.
pub open spec fn on_update(
    documents: Seq<Fields>,
    reading: ReadingView,
    collection: Seq<char>,
    limit: Option<usize>,
) -> Outcome {
    let document = reading.document;
    let earlier = position(documents, id_of(document));
    if reading.matches {
        match placed(documents, document, reading.order, limit) {
            None => settled(documents, earlier is Some),
            Some(documents) => if id_of(document) is None {
                unidentified(documents, document)
            } else {
                Outcome {
                    documents,
                    effects: seq![announcement(document, EffectKind::Insert, collection, true)],
                    next: match earlier {
                        Some(index) => NextView::Continue(
                            PendingView::Discard {
                                index: shifted(index, reading.order, limit),
                                id: id_of(document)->0,
                            },
                        ),
                        None => trimmed(documents, limit),
                    },
                }
            },
        }
    } else if id_of(document) is None {
        unidentified(documents, document)
    } else {
        match earlier {
            None => settled(documents, false),
            Some(index) => if limit matches Some(limit) && limit == documents.len() {
                settled(documents, true)
            } else {
                Outcome {
                    documents: dropped(documents, index, limit),
                    effects: seq![
                        announcement(documents[index], EffectKind::Remove, collection, true),
                    ],
                    next: NextView::Done(false),
                }
            },
        }
    }
}

/// What an event does to the documents of a cursor, up to and with the first effects.
pub open spec fn on_event(
    documents: Seq<Fields>,
    event: ReadEventView,
    collection: Seq<char>,
    limit: Option<usize>,
) -> Outcome {
    match event {
        ReadEventView::Clear => on_clear(documents, collection),
        ReadEventView::Delete(key) => on_delete(documents, key, collection, limit),
        ReadEventView::Insert(reading) => on_insert(documents, reading, collection, limit),
        ReadEventView::Resync(_) => settled(documents, true),
        ReadEventView::Update(reading) => on_update(documents, reading, collection, limit),
    }
}

/// What is left of an event is done: the last document goes, if there is any, or that at a given
/// place.
pub open spec fn on_pending(
    documents: Seq<Fields>,
    pending: PendingView,
    collection: Seq<char>,
    limit: Option<usize>,
) -> Outcome {
    match pending {
        PendingView::Trim => if documents.len() == 0 {
            settled(documents, false)
        } else if id_of(documents.last()) is None {
            unidentified(documents.drop_last(), documents.last())
        } else {
            Outcome {
                documents: documents.drop_last(),
                effects: seq![
                    announcement(documents.last(), EffectKind::Remove, collection, true),
                ],
                next: NextView::Done(false),
            }
        },
        PendingView::Discard { index, id } => Outcome {
            documents: dropped(documents, index, limit),
            effects: seq![removal(documents[index], id, collection)],
            next: NextView::Done(false),
        },
    }
}

/// Whether a reading says how every document sorts, where that is needed.
pub open spec fn is_compared(
    documents: Seq<Fields>,
    reading: ReadingView,
    limit: Option<usize>,
) -> bool {
    reading.matches && limit is Some ==> reading.order.len() == documents.len()
}

/// Whether the reading of an event, if it has one, says how every document sorts, where that is
/// needed.
pub open spec fn is_readable(
    documents: Seq<Fields>,
    event: ReadEventView,
    limit: Option<usize>,
) -> bool {
    match event {
        ReadEventView::Insert(reading) => is_compared(documents, reading, limit),
        ReadEventView::Update(reading) => is_compared(documents, reading, limit),
        _ => true,
    }
}

/// The place that what is left refers to exists.
pub open spec fn is_pending_in(pending: PendingView, documents: Seq<Fields>) -> bool {
    pending matches PendingView::Discard { index, .. } ==> 0 <= index < documents.len()
}

/// What an event leaves to do refers to a place that exists.
pub proof fn lemma_pending_exists(
    documents: Seq<Fields>,
    event: ReadEventView,
    collection: Seq<char>,
    limit: Option<usize>,
)
    requires
        is_readable(documents, event, limit),
    ensures
        ({
            let outcome = on_event(documents, event, collection, limit);
            outcome.next matches NextView::Continue(pending) ==> is_pending_in(
                pending,
                outcome.documents,
            )
        }),
{
    if let ReadEventView::Update(reading) = event {
        lemma_position_from(documents, id_of(reading.document), 0);
        lemma_insertion_point_range(reading.order);
    }
}

/// A step without effects that ends the event.
fn done(refetch: bool) -> (step: Step)
    ensures
        effect_views(step.effects@) == Seq::<EffectView>::empty(),
        step.next@ == NextView::Done(refetch),
{
    let effects: Vec<Effect> = Vec::new();
    assert(effect_views(effects@) =~= Seq::<EffectView>::empty());
    Step { effects, next: Next::Done(refetch) }
}

/// A step without effects that fails.
fn fail(error: FetchError) -> (step: Step)
    ensures
        effect_views(step.effects@) == Seq::<EffectView>::empty(),
        step.next@ == NextView::Fail(error@),
{
    let effects: Vec<Effect> = Vec::new();
    assert(effect_views(effects@) =~= Seq::<EffectView>::empty());
    Step { effects, next: Next::Fail(error) }
}

/// A step with one effect, on a document whose `_id` was taken out.
fn single(
    kind: EffectKind,
    collection: &String,
    id: serde_json::Value,
    document: JsonDocument,
    next: Next,
) -> (step: Step)
    ensures
        effect_views(step.effects@) == seq![
            EffectView {
                kind,
                collection: collection@,
                id,
                fields: fields(document),
                project: true,
            },
        ],
        step.next == next,
{
    let mut effects: Vec<Effect> = Vec::new();
    effects.push(
        Effect { kind, collection: collection.clone(), id, fields: document, project: true },
    );
    let step = Step { effects, next };
    assert(effect_views(step.effects@) =~= seq![effects@[0]@]);
    step
}

/// Takes the document at `index` out of the list.
fn drop_document(
    documents: &mut Vec<JsonDocument>,
    index: usize,
    limit: Option<usize>,
) -> (document: JsonDocument)
    requires
        index < old(documents).len(),
    ensures
        document == old(documents)@[index as int],
        final(documents).len() == old(documents).len() - 1,
        contents(final(documents)@) == dropped(contents(old(documents)@), index as int, limit),
{
    let document = if limit.is_some() {
        documents.remove(index)
    } else {
        documents.swap_remove(index)
    };
    assert(contents(documents@) =~= dropped(contents(old(documents)@), index as int, limit));
    document
}

/// Puts a document at the end of the list, or, under a limit, where it sorts, and says where that
/// is. Leaves the list as it is if that place is the first that the limit does not allow.
fn place(
    documents: &mut Vec<JsonDocument>,
    document: &JsonDocument,
    order: &Vec<Order>,
    limit: Option<usize>,
) -> (place: Option<usize>)
    requires
        limit is Some ==> order.len() == old(documents).len(),
    ensures
        match placed(contents(old(documents)@), fields(*document), order@, limit) {
            Some(all) => {
                &&& place matches Some(at) && (limit is Some ==> at == insertion_point(order@))
                &&& contents(final(documents)@) == all
            },
            None => place is None && contents(final(documents)@) == contents(old(documents)@),
        },
{
    match limit {
        Some(limit) => {
            let index = find_insertion_point(order);
            if index == limit {
                return None;
            }
            documents.insert(index, document_clone(document));
            assert(contents(documents@) =~= contents(old(documents)@).insert(
                index as int,
                fields(*document),
            ));
            Some(index)
        },
        None => {
            let index = documents.len();
            documents.push(document_clone(document));
            assert(contents(documents@) =~= contents(old(documents)@).push(fields(*document)));
            Some(index)
        },
    }
}

/// Where an event leads that has put a document into the list.
fn trim(documents: &Vec<JsonDocument>, limit: Option<usize>) -> (next: Next)
    ensures
        next@ == trimmed(contents(documents@), limit),
{
    match limit {
        Some(limit) if documents.len() > limit => Next::Continue(Pending::Trim),
        _ => Next::Done(false),
    }
}

/// Handles [`ReadEvent::Clear`].
fn process_clear(description: &CursorDescription, documents: &mut Vec<JsonDocument>) -> (step: Step)
    ensures
        meets(
            final(documents)@,
            step,
            on_clear(contents(old(documents)@), description.collection@),
        ),
{
    let (effects, failure) = announce(
        documents,
        EffectKind::Remove,
        &description.collection,
        true,
    );
    documents.clear();
    assert(contents(documents@) =~= Seq::<Fields>::empty());
    let next = match failure {
        Some(error) => Next::Fail(error),
        None => Next::Done(false),
    };
    Step { effects, next }
}

/// Handles [`ReadEvent::Delete`].
fn process_delete(
    key: JsonDocument,
    description: &CursorDescription,
    documents: &mut Vec<JsonDocument>,
) -> (step: Step)
    ensures
        meets(
            final(documents)@,
            step,
            on_delete(
                contents(old(documents)@),
                fields(key),
                description.collection@,
                description.limit,
            ),
        ),
{
    let mut key = key;
    let id = match extract_id(&mut key) {
        Ok(id) => id,
        Err(error) => {
            return fail(error);
        },
    };
    let index = match find_position(documents, Some(&id)) {
        Some(index) => index,
        None => {
            return done(false);
        },
    };
    if let Some(limit) = description.limit() {
        if limit == documents.len() {
            return done(true);
        }
    }
    let mut document = drop_document(documents, index, description.limit());
    document_remove(&mut document, "_id");
    single(EffectKind::Remove, &description.collection, id, document, Next::Done(false))
}

/// Handles [`ReadEvent::Insert`].
fn process_insert(
    reading: Reading,
    description: &CursorDescription,
    documents: &mut Vec<JsonDocument>,
) -> (step: Step)
    requires
        is_compared(contents(old(documents)@), reading@, description.limit),
    ensures
        meets(
            final(documents)@,
            step,
            on_insert(
                contents(old(documents)@),
                reading@,
                description.collection@,
                description.limit,
            ),
        ),
{
    if !reading.matches {
        return done(false);
    }
    let ghost gone = departure(
        contents(documents@),
        reading@.document,
        description.collection@,
    );
    let limit = description.limit();
    let mut order = reading.order;
    let mut document = reading.document;
    let earlier = match find_position(documents, document_get(&document, "_id")) {
        Some(index) => {
            if limit.is_some() {
                order.remove(index);
            }
            Some(drop_document(documents, index, limit))
        },
        None => None,
    };
    let is_placed = place(documents, &document, &order, limit).is_some();
    let id = match extract_id(&mut document) {
        Ok(id) => id,
        Err(error) => {
            return if is_placed {
                fail(error)
            } else {
                done(false)
            };
        },
    };
    match earlier {
        None => if is_placed {
            let next = trim(documents, limit);
            let step = single(EffectKind::Insert, &description.collection, id, document, next);
            assert(effect_views(step.effects@) + gone =~= effect_views(step.effects@));
            step
        } else {
            done(false)
        },
        Some(mut earlier) => {
            document_remove(&mut earlier, "_id");
            if is_placed {
                let next = trim(documents, limit);
                let mut step = single(
                    EffectKind::Insert,
                    &description.collection,
                    value_clone(&id),
                    document,
                    next,
                );
                let ghost effects = step.effects@;
                let removed = Effect {
                    kind: EffectKind::Remove,
                    collection: description.collection.clone(),
                    id,
                    fields: earlier,
                    project: true,
                };
                step.effects.push(removed);
                assert(gone =~= seq![removed@]);
                assert(effect_views(step.effects@) =~= effect_views(effects) + gone);
                step
            } else {
                single(EffectKind::Remove, &description.collection, id, earlier, Next::Done(false))
            }
        },
    }
}

/// Handles [`ReadEvent::Update`].
fn process_update(
    reading: Reading,
    description: &CursorDescription,
    documents: &mut Vec<JsonDocument>,
) -> (step: Step)
    requires
        is_compared(contents(old(documents)@), reading@, description.limit),
    ensures
        meets(
            final(documents)@,
            step,
            on_update(
                contents(old(documents)@),
                reading@,
                description.collection@,
                description.limit,
            ),
        ),
{
    let limit = description.limit();
    let mut document = reading.document;
    let earlier = find_position(documents, document_get(&document, "_id"));
    if reading.matches {
        let at = match place(documents, &document, &reading.order, limit) {
            Some(at) => at,
            None => {
                return done(earlier.is_some());
            },
        };
        let id = match extract_id(&mut document) {
            Ok(id) => id,
            Err(error) => {
                return fail(error);
            },
        };
        let next = match earlier {
            Some(index) => {
                let index = if limit.is_some() && at <= index {
                    index + 1
                } else {
                    index
                };
                Next::Continue(Pending::Discard { index, id: value_clone(&id) })
            },
            None => trim(documents, limit),
        };
        single(EffectKind::Insert, &description.collection, id, document, next)
    } else {
        if let Err(error) = extract_id(&mut document) {
            return fail(error);
        }
        let index = match earlier {
            Some(index) => index,
            None => {
                return done(false);
            },
        };
        if let Some(limit) = limit {
            if limit == documents.len() {
                return done(true);
            }
        }
        proof {
            lemma_position_from(contents(documents@), id_of(reading@.document), 0);
        }
        let mut document = drop_document(documents, index, limit);
        match extract_id(&mut document) {
            Ok(id) => single(
                EffectKind::Remove,
                &description.collection,
                id,
                document,
                Next::Done(false),
            ),
            Err(error) => fail(error),
        }
    }
}

/// Handles an event, up to the first effects.
pub fn process(
    event: ReadEvent,
    description: &CursorDescription,
    documents: &mut Vec<JsonDocument>,
) -> (step: Step)
    requires
        is_readable(contents(old(documents)@), event@, description.limit),
    ensures
        meets(
            final(documents)@,
            step,
            on_event(
                contents(old(documents)@),
                event@,
                description.collection@,
                description.limit,
            ),
        ),
{
    match event {
        ReadEvent::Clear => process_clear(description, documents),
        ReadEvent::Delete(key) => process_delete(key, description, documents),
        ReadEvent::Insert(reading) => process_insert(reading, description, documents),
        ReadEvent::Resync(_) => done(true),
        ReadEvent::Update(reading) => process_update(reading, description, documents),
    }
}

/// Does what is left of an event, once the effects of the step before have taken place.
pub fn resume(
    pending: Pending,
    description: &CursorDescription,
    documents: &mut Vec<JsonDocument>,
) -> (step: Step)
    requires
        is_pending_in(pending@, contents(old(documents)@)),
    ensures
        meets(
            final(documents)@,
            step,
            on_pending(
                contents(old(documents)@),
                pending@,
                description.collection@,
                description.limit,
            ),
        ),
{
    match pending {
        Pending::Trim => match documents.pop() {
            None => done(false),
            Some(document) => {
                assert(contents(documents@) =~= contents(old(documents)@).drop_last());
                let mut document = document;
                match extract_id(&mut document) {
                    Ok(id) => single(
                        EffectKind::Remove,
                        &description.collection,
                        id,
                        document,
                        Next::Done(false),
                    ),
                    Err(error) => fail(error),
                }
            },
        },
        Pending::Discard { index, id } => {
            let mut document = drop_document(documents, index, description.limit());
            document_remove(&mut document, "_id");
            single(EffectKind::Remove, &description.collection, id, document, Next::Done(false))
        },
    }
}

} // verus!
