//! EJSON documents, as `serde_json` holds them, and what the cursor logic reads of them.
use vstd::prelude::*;

verus! {

/// `serde_json::Map`, known to proofs only through [`fields`].
#[verifier::external_type_specification]
#[verifier::external_body]
#[verifier::reject_recursive_types(K)]
#[verifier::reject_recursive_types(V)]
pub struct ExMap<K, V>(serde_json::Map<K, V>);

/// `serde_json::Value`, carried as it is.
#[verifier::external_type_specification]
#[verifier::external_body]
pub struct ExValue(serde_json::Value);

/// A document in EJSON form.
pub type JsonDocument = serde_json::Map<String, serde_json::Value>;

/// The contents of a document: its value under each of its keys.
pub type Fields = Map<Seq<char>, serde_json::Value>;

/// What a `serde_json::Map` holds.
pub uninterp spec fn fields(document: serde_json::Map<String, serde_json::Value>) -> Map<
    Seq<char>,
    serde_json::Value,
>;

/// Which of the values that `==` of `serde_json::Value` calls equal this one is: two values are
/// equal exactly if they have the same class. Numbers are compared within their representation, so
/// `1` and `1.0` differ in class, while `0.0` and `-0.0` do not.
pub uninterp spec fn json_class(value: serde_json::Value) -> int;

/// Calls `<serde_json::Value as PartialEq>::eq`, which tells the values apart by class: `Value`
/// implements `Eq`, its floats being always finite, so its `==` is an equivalence.
#[verifier::external_body]
pub(crate) fn value_equal(left: &serde_json::Value, right: &serde_json::Value) -> (equal: bool)
    ensures
        equal == (json_class(*left) == json_class(*right)),
{
    left == right
}

/// Calls `<serde_json::Value as Clone>::clone`, which hands out the same value again.
#[verifier::external_body]
pub(crate) fn value_clone(value: &serde_json::Value) -> (copy: serde_json::Value)
    ensures
        copy == *value,
{
    value.clone()
}

/// Calls `<serde_json::Map as Clone>::clone`, which keeps every key and its value.
#[verifier::external_body]
pub(crate) fn document_clone(document: &JsonDocument) -> (copy: JsonDocument)
    ensures
        fields(copy) == fields(*document),
{
    document.clone()
}

/// Calls `serde_json::Map::get`: the value under `key`, if the key is there.
#[verifier::external_body]
pub(crate) fn document_get<'a>(document: &'a JsonDocument, key: &str) -> (value: Option<
    &'a serde_json::Value,
>)
    ensures
        value == (if fields(*document).contains_key(key@) {
            Some(&fields(*document)[key@])
        } else {
            None
        }),
{
    document.get(key)
}

/// Calls `serde_json::Map::remove`: takes `key` out and hands back the value that it had. Every
/// other key keeps its value.
#[verifier::external_body]
pub(crate) fn document_remove(document: &mut JsonDocument, key: &str) -> (value: Option<
    serde_json::Value,
>)
    ensures
        value == (if fields(*old(document)).contains_key(key@) {
            Some(fields(*old(document))[key@])
        } else {
            None
        }),
        fields(*final(document)) == fields(*old(document)).remove(key@),
{
    document.remove(key)
}

/// The contents of each document of a list.
pub open spec fn contents(documents: Seq<JsonDocument>) -> Seq<Fields> {
    documents.map_values(|document: JsonDocument| fields(document))
}

/// The `_id` of a document, if it has one.
pub open spec fn id_of(document: Fields) -> Option<serde_json::Value> {
    if document.contains_key("_id"@) {
        Some(document["_id"@])
    } else {
        None
    }
}

/// A document without its `_id`.
pub open spec fn without_id(document: Fields) -> Fields {
    document.remove("_id"@)
}

/// Whether two `_id`s, either of which may be absent, are the same.
pub open spec fn same_id(
    left: Option<serde_json::Value>,
    right: Option<serde_json::Value>,
) -> bool {
    match (left, right) {
        (Some(left), Some(right)) => json_class(left) == json_class(right),
        (None, None) => true,
        _ => false,
    }
}

/// The first place at or after `from` of a document whose `_id` is `id`.
pub open spec fn position_from(
    documents: Seq<Fields>,
    id: Option<serde_json::Value>,
    from: int,
) -> Option<int>
    decreases documents.len() - from,
{
    if from < 0 || from >= documents.len() {
        None
    } else if same_id(id_of(documents[from]), id) {
        Some(from)
    } else {
        position_from(documents, id, from + 1)
    }
}

/// The first place of a document whose `_id` is `id`.
pub open spec fn position(documents: Seq<Fields>, id: Option<serde_json::Value>) -> Option<int> {
    position_from(documents, id, 0)
}

/// What is known of a found place, and of a search that found none.
pub proof fn lemma_position_from(
    documents: Seq<Fields>,
    id: Option<serde_json::Value>,
    from: int,
)
    requires
        0 <= from,
    ensures
        match position_from(documents, id, from) {
            Some(index) => {
                &&& from <= index < documents.len()
                &&& same_id(id_of(documents[index]), id)
                &&& forall|i: int|
                    from <= i < index ==> !same_id(id_of(#[trigger] documents[i]), id)
            },
            None => forall|i: int|
                from <= i < documents.len() ==> !same_id(id_of(#[trigger] documents[i]), id),
        },
    decreases documents.len() - from,
{
    if from < documents.len() && !same_id(id_of(documents[from]), id) {
        lemma_position_from(documents, id, from + 1);
    }
}

/// How many documents from the start of the list have an `_id`, up to the first that has none.
pub open spec fn identified_from(documents: Seq<Fields>, from: int) -> int
    decreases documents.len() - from,
{
    if from < 0 || from >= documents.len() || id_of(documents[from]) is None {
        from
    } else {
        identified_from(documents, from + 1)
    }
}

/// How many documents come before the first without an `_id`; all of them, if each has one.
pub open spec fn identified(documents: Seq<Fields>) -> int {
    identified_from(documents, 0)
}

/// What the count of identified documents says of them.
pub proof fn lemma_identified_from(documents: Seq<Fields>, from: int)
    requires
        0 <= from <= documents.len(),
    ensures
        from <= identified_from(documents, from) <= documents.len(),
        forall|i: int|
            from <= i < identified_from(documents, from) ==> id_of(#[trigger] documents[i]) is Some,
        identified_from(documents, from) < documents.len() ==> id_of(
            documents[identified_from(documents, from)],
        ) is None,
    decreases documents.len() - from,
{
    if from < documents.len() && id_of(documents[from]) is Some {
        lemma_identified_from(documents, from + 1);
    }
}

/// Whether every document has an `_id`.
pub open spec fn all_identified(documents: Seq<Fields>) -> bool {
    forall|i: int| 0 <= i < documents.len() ==> id_of(#[trigger] documents[i]) is Some
}

/// The value behind a borrowed `_id`.
pub open spec fn borrowed(id: Option<&serde_json::Value>) -> Option<serde_json::Value> {
    match id {
        Some(id) => Some(*id),
        None => None,
    }
}

/// The `_id` of a document is what it has under that key, and a document without its `_id` has all
/// its other keys, each with its value, and no more.
pub proof fn law_id_is_one_field(document: Fields, key: Seq<char>)
    ensures
        id_of(document) is Some <==> document.contains_key("_id"@),
        id_of(document) matches Some(id) ==> id == document["_id"@],
        id_of(without_id(document)) is None,
        key != "_id"@ ==> {
            &&& without_id(document).contains_key(key) <==> document.contains_key(key)
            &&& document.contains_key(key) ==> without_id(document)[key] == document[key]
        },
{
}

/// Two `_id`s are the same exactly if both are absent, or both are there and equal as values. Every
/// `_id` is the same as itself, and whether two are the same does not depend on their order.
pub proof fn law_ids_are_compared_as_values(
    left: Option<serde_json::Value>,
    right: Option<serde_json::Value>,
)
    ensures
        left is None ==> (same_id(left, right) <==> right is None),
        left is Some && right is Some ==> (same_id(left, right) <==> json_class(left->0)
            == json_class(right->0)),
        same_id(left, left),
        same_id(left, right) == same_id(right, left),
        left matches Some(value) ==> borrowed(Some(&value)) == left,
        borrowed(None) is None,
{
}

/// The place of an `_id` is the first of a document that has it, and there is none exactly if no
/// document has it.
pub proof fn law_position_is_the_first(documents: Seq<Fields>, id: Option<serde_json::Value>)
    ensures
        position(documents, id) matches Some(index) ==> {
            &&& 0 <= index < documents.len()
            &&& same_id(id_of(documents[index]), id)
            &&& forall|i: int| 0 <= i < index ==> !same_id(id_of(#[trigger] documents[i]), id)
        },
        position(documents, id) is None <==> forall|i: int|
            0 <= i < documents.len() ==> !same_id(id_of(#[trigger] documents[i]), id),
{
    lemma_position_from(documents, id, 0);
}

/// The contents of a list are those of its documents, one for one.
pub proof fn law_contents_are_those_of_each(documents: Seq<JsonDocument>)
    ensures
        contents(documents).len() == documents.len(),
        forall|i: int|
            0 <= i < documents.len() ==> #[trigger] contents(documents)[i] == fields(documents[i]),
{
}

/// Whether a document's `_id` is `id`.
fn has_id(document: &JsonDocument, id: Option<&serde_json::Value>) -> (equal: bool)
    ensures
        equal == same_id(id_of(fields(*document)), borrowed(id)),
{
    match (document_get(document, "_id"), id) {
        (Some(left), Some(right)) => value_equal(left, right),
        (None, None) => true,
        _ => false,
    }
}

/// Looks for the first document whose `_id` is `id`.
pub fn find_position(documents: &Vec<JsonDocument>, id: Option<&serde_json::Value>) -> (index:
    Option<usize>)
    ensures
        match index {
            Some(index) => index < documents.len() && position(contents(documents@), borrowed(id))
                == Some(index as int),
            None => position(contents(documents@), borrowed(id)) is None,
        },
{
    let ghost all = contents(documents@);
    let mut index: usize = 0;
    while index < documents.len()
        invariant
            index <= documents.len(),
            all == contents(documents@),
            position(all, borrowed(id)) == position_from(all, borrowed(id), index as int),
        decreases documents.len() - index,
    {
        assert(all[index as int] == fields(documents@[index as int]));
        if has_id(&documents[index], id) {
            return Some(index);
        }
        index += 1;
    }
    None
}

} // verus!
