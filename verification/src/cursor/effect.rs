//! What a cursor asks of the mergeboxes that show its documents.
use vstd::prelude::*;

use crate::json::{
    contents, document_clone, document_remove, fields, id_of, identified, identified_from,
    json_class, lemma_identified_from, without_id, Fields, JsonDocument,
};

verus! {

/// Why following a cursor's documents failed.
#[derive(Debug)]
pub enum FetchError {
    /// A document has no `_id`.
    MissingId(JsonDocument),
    /// The channel that hands out change events was closed.
    ReceiverClosed,
}

/// A [`FetchError`] with the contents of its document.
pub enum FetchErrorView {
    MissingId(Fields),
    ReceiverClosed,
}

impl View for FetchError {
    type V = FetchErrorView;

    open spec fn view(&self) -> FetchErrorView {
        match self {
            FetchError::MissingId(document) => FetchErrorView::MissingId(fields(*document)),
            FetchError::ReceiverClosed => FetchErrorView::ReceiverClosed,
        }
    }
}

/// Which way a document moves.
#[derive(Clone, Copy, Debug, PartialEq, Eq, Structural)]
pub enum EffectKind {
    /// A mergebox starts to show the document.
    Insert,
    /// A mergebox no longer shows the document.
    Remove,
}

/// One call on the mergeboxes.
#[derive(Debug)]
pub struct Effect {
    /// Whether the document comes or goes.
    pub kind: EffectKind,
    /// The collection of the document.
    pub collection: String,
    /// The document's `_id`.
    pub id: serde_json::Value,
    /// The document without its `_id`.
    pub fields: JsonDocument,
    /// Whether the cursor's projection is still to be applied to the fields. A cursor whose query
    /// cannot be asked about a single document has only fields that the server has projected, and
    /// these are shown as they are.
    pub project: bool,
}

/// An [`Effect`] with the contents of its document.
pub struct EffectView {
    pub kind: EffectKind,
    pub collection: Seq<char>,
    pub id: serde_json::Value,
    pub fields: Fields,
    pub project: bool,
}

impl View for Effect {
    type V = EffectView;

    open spec fn view(&self) -> EffectView {
        EffectView {
            kind: self.kind,
            collection: self.collection@,
            id: self.id,
            fields: fields(self.fields),
            project: self.project,
        }
    }
}

/// The views of a list of effects.
pub open spec fn effect_views(effects: Seq<Effect>) -> Seq<EffectView> {
    effects.map_values(|effect: Effect| effect@)
}

/// The effect that lets a document come or go.
pub open spec fn announcement(
    document: Fields,
    kind: EffectKind,
    collection: Seq<char>,
    project: bool,
) -> EffectView {
    EffectView { kind, collection, id: id_of(document)->0, fields: without_id(document), project }
}

/// The effects that let the documents of a list come or go one after the other, up to the first
/// that has no `_id`.
pub open spec fn announcements(
    documents: Seq<Fields>,
    kind: EffectKind,
    collection: Seq<char>,
    project: bool,
) -> Seq<EffectView> {
    Seq::new(
        identified(documents) as nat,
        |i: int| announcement(documents[i], kind, collection, project),
    )
}

/// The failure that a list of documents leads to: that of the first without an `_id`.
pub open spec fn missing_id(documents: Seq<Fields>) -> Option<FetchErrorView> {
    if identified(documents) < documents.len() {
        Some(FetchErrorView::MissingId(documents[identified(documents)]))
    } else {
        None
    }
}

/// The view of an optional failure.
pub open spec fn failure_view(failure: Option<FetchError>) -> Option<FetchErrorView> {
    match failure {
        Some(failure) => Some(failure@),
        None => None,
    }
}

/// Whether fields are those of a document, but for its `_id`.
pub open spec fn is_rest_of(rest: Fields, document: Fields) -> bool {
    forall|key: Seq<char>|
        #![trigger rest.contains_key(key)]
        #![trigger document.contains_key(key)]
        {
            &&& rest.contains_key(key) <==> document.contains_key(key) && key != "_id"@
            &&& rest.contains_key(key) ==> rest[key] == document[key]
        }
}

/// Whether an effect moves a document: under its `_id` and with its other fields.
pub open spec fn moves(
    effect: EffectView,
    document: Fields,
    kind: EffectKind,
    collection: Seq<char>,
    project: bool,
) -> bool {
    &&& effect.kind == kind
    &&& effect.collection == collection
    &&& effect.project == project
    &&& document.contains_key("_id"@)
    &&& json_class(effect.id) == json_class(document["_id"@])
    &&& is_rest_of(effect.fields, document)
}

/// Documents are announced one for one and in their order, up to the first that has no `_id`. That
/// one is the failure; there is none exactly if every document has an `_id`.
pub proof fn law_documents_are_announced_one_for_one(
    documents: Seq<Fields>,
    kind: EffectKind,
    collection: Seq<char>,
    project: bool,
)
    ensures
        ({
            let effects = announcements(documents, kind, collection, project);
            &&& effects.len() <= documents.len()
            &&& forall|i: int|
                0 <= i < effects.len() ==> moves(
                    #[trigger] effects[i],
                    documents[i],
                    kind,
                    collection,
                    project,
                )
            &&& forall|i: int|
                0 <= i < effects.len() ==> (#[trigger] effects[i]).id == documents[i]["_id"@]
            &&& effects.len() < documents.len() ==> {
                &&& !documents[effects.len() as int].contains_key("_id"@)
                &&& missing_id(documents) == Some(
                    FetchErrorView::MissingId(documents[effects.len() as int]),
                )
            }
            &&& effects.len() == documents.len() ==> missing_id(documents) is None
        }),
{
    lemma_identified_from(documents, 0);
}

/// An effect's view is the effect, with the contents of its document.
pub proof fn law_effect_is_seen_as_it_is(effect: Effect, effects: Seq<Effect>, error: FetchError)
    ensures
        effect@.kind == effect.kind,
        effect@.collection == effect.collection@,
        effect@.id == effect.id,
        effect@.fields == fields(effect.fields),
        effect@.project == effect.project,
        effect_views(effects).len() == effects.len(),
        forall|i: int|
            0 <= i < effects.len() ==> #[trigger] effect_views(effects)[i] == effects[i]@,
        error matches FetchError::MissingId(document) ==> error@ == FetchErrorView::MissingId(
            fields(document),
        ),
        error is ReceiverClosed ==> error@ is ReceiverClosed,
        failure_view(Some(error)) == Some(error@),
        failure_view(None) is None,
{
}

/// Takes the `_id` out of a document, or reports the document as it is.
pub fn extract_id(document: &mut JsonDocument) -> (result: Result<serde_json::Value, FetchError>)
    ensures
        match id_of(fields(*old(document))) {
            Some(id) => result == Ok::<serde_json::Value, FetchError>(id),
            None => result matches Err(error) && error@ == FetchErrorView::MissingId(
                fields(*old(document)),
            ),
        },
        fields(*final(document)) == without_id(fields(*old(document))),
{
    match document_remove(document, "_id") {
        Some(id) => Ok(id),
        None => {
            assert(without_id(fields(*old(document))) =~= fields(*old(document)));
            Err(FetchError::MissingId(document_clone(document)))
        },
    }
}

/// Lets every document of a list come or go, one after the other. Stops at the first that has no
/// `_id` and reports it.
pub fn announce(
    documents: &Vec<JsonDocument>,
    kind: EffectKind,
    collection: &String,
    project: bool,
) -> (plan: (Vec<Effect>, Option<FetchError>))
    ensures
        effect_views(plan.0@) == announcements(
            contents(documents@),
            kind,
            collection@,
            project,
        ),
        failure_view(plan.1) == missing_id(contents(documents@)),
{
    let ghost all = contents(documents@);
    let mut effects: Vec<Effect> = Vec::new();
    let mut index: usize = 0;
    proof {
        lemma_identified_from(all, 0);
    }
    while index < documents.len()
        invariant
            all == contents(documents@),
            index == effects.len(),
            index <= identified(all) <= all.len(),
            identified(all) == identified_from(all, index as int),
            forall|i: int|
                0 <= i < index ==> (#[trigger] effects@[i])@ == announcement(
                    all[i],
                    kind,
                    collection@,
                    project,
                ),
        decreases documents.len() - index,
    {
        assert(all[index as int] == fields(documents@[index as int]));
        let mut document = document_clone(&documents[index]);
        match extract_id(&mut document) {
            Ok(id) => {
                proof {
                    lemma_identified_from(all, index + 1);
                }
                effects.push(
                    Effect { kind, collection: collection.clone(), id, fields: document, project },
                );
                index += 1;
            },
            Err(error) => {
                assert(effect_views(effects@) =~= announcements(all, kind, collection@, project));
                return (effects, Some(error));
            },
        }
    }
    assert(effect_views(effects@) =~= announcements(all, kind, collection@, project));
    (effects, None)
}

} // verus!
