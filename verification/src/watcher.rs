//! The events of a collection and the change streams that they come from.
use vstd::prelude::*;

use bson::{Document, Timestamp};
use mongodb::options::FullDocumentType;

use crate::stream_task::{StreamTask, TaskView};

verus! {

/// A change of a collection, as its cursors hear of it.
#[derive(Clone, Debug, PartialEq)]
pub enum Event {
    /// Every document is gone.
    Clear,
    /// The document with this key is gone.
    Delete(Document),
    /// The document is new.
    Insert(Document),
    /// Changes may have been missed: the documents are to be read again, as they are at this
    /// operation time or later.
    Resync(Option<Timestamp>),
    /// The document has changed to this.
    Update(Document),
}

/// The operations that a change stream reports.
#[derive(Clone, Copy, Debug, PartialEq, Eq, Structural)]
pub enum OperationType {
    Insert,
    Update,
    Replace,
    Delete,
    Drop,
    Rename,
    DropDatabase,
    Invalidate,
    Other,
}

/// What is read of a change that a stream reports.
pub struct ChangeEvent {
    /// The operation.
    pub operation_type: OperationType,
    /// The key of the document that it changed.
    pub document_key: Option<Document>,
    /// The document after it.
    pub full_document: Option<Document>,
}

/// What a change comes to.
pub enum BufferedChange {
    /// An event for the cursors.
    Event(Event),
    /// The end of the stream.
    Invalidate,
    /// Nothing.
    Ignore,
}

/// What a change comes to. One that lacks the document that its event would carry is ignored.
pub open spec fn classified(change: ChangeEvent) -> BufferedChange {
    match change.operation_type {
        OperationType::Delete => match change.document_key {
            Some(document_key) => BufferedChange::Event(Event::Delete(document_key)),
            None => BufferedChange::Ignore,
        },
        OperationType::Drop | OperationType::DropDatabase => BufferedChange::Event(Event::Clear),
        OperationType::Insert => match change.full_document {
            Some(full_document) => BufferedChange::Event(Event::Insert(full_document)),
            None => BufferedChange::Ignore,
        },
        OperationType::Invalidate => BufferedChange::Invalidate,
        OperationType::Replace | OperationType::Update => match change.full_document {
            Some(full_document) => BufferedChange::Event(Event::Update(full_document)),
            None => BufferedChange::Ignore,
        },
        OperationType::Rename | OperationType::Other => BufferedChange::Ignore,
    }
}

/// Says what a change comes to.
pub fn classify_change_event(change: ChangeEvent) -> (buffered: BufferedChange)
    ensures
        buffered == classified(change),
{
    match (change.operation_type, change.document_key, change.full_document) {
        (OperationType::Delete, Some(document_key), _) => BufferedChange::Event(
            Event::Delete(document_key),
        ),
        (OperationType::Drop | OperationType::DropDatabase, _, _) => BufferedChange::Event(
            Event::Clear,
        ),
        (OperationType::Insert, _, Some(full_document)) => BufferedChange::Event(
            Event::Insert(full_document),
        ),
        (OperationType::Invalidate, _, _) => BufferedChange::Invalidate,
        (
            OperationType::Replace | OperationType::Update,
            _,
            Some(full_document),
        ) => BufferedChange::Event(Event::Update(full_document)),
        _ => BufferedChange::Ignore,
    }
}

/// What a change comes to says what it was: a deletion carries the key of the document that a
/// deletion names, an insertion the document of an insertion, an update that of an update or a
/// replacement. Every cursor is cleared exactly by the end of the collection or the database, and
/// the stream is at its end exactly by an invalidation. No change asks for a resync.
pub proof fn law_change_comes_to_its_event(change: ChangeEvent, document: Document)
    ensures
        classified(change) == BufferedChange::Event(Event::Delete(document)) <==> (
        change.operation_type is Delete && change.document_key == Some(document)),
        classified(change) == BufferedChange::Event(Event::Insert(document)) <==> (
        change.operation_type is Insert && change.full_document == Some(document)),
        classified(change) == BufferedChange::Event(Event::Update(document)) <==> ((
        change.operation_type is Update || change.operation_type is Replace)
            && change.full_document == Some(document)),
        classified(change) == BufferedChange::Event(Event::Clear) <==> (
        change.operation_type is Drop || change.operation_type is DropDatabase),
        classified(change) is Invalidate <==> change.operation_type is Invalidate,
        classified(change) matches BufferedChange::Event(event) ==> !(event is Resync),
{
}

/// Of two changes by the same operation that carry the same document where the operation has it,
/// whatever else they carry, both come to the same. A replacement comes to what an update comes to,
/// and the end of the database to what the end of the collection comes to.
pub proof fn law_change_depends_on_its_document_alone(change: ChangeEvent, other: ChangeEvent)
    requires
        change.operation_type == other.operation_type || {
            ||| change.operation_type is Replace && other.operation_type is Update
            ||| change.operation_type is DropDatabase && other.operation_type is Drop
        },
        change.operation_type is Delete ==> change.document_key == other.document_key,
        change.operation_type is Insert || change.operation_type is Update
            || change.operation_type is Replace ==> change.full_document == other.full_document,
    ensures
        classified(change) == classified(other),
{
}

/// What the server calls an operation.
pub open spec fn operation_name(operation_type: OperationType) -> Option<Seq<char>> {
    match operation_type {
        OperationType::Insert => Some("insert"@),
        OperationType::Update => Some("update"@),
        OperationType::Replace => Some("replace"@),
        OperationType::Delete => Some("delete"@),
        OperationType::Drop => Some("drop"@),
        OperationType::Rename => Some("rename"@),
        OperationType::DropDatabase => Some("dropDatabase"@),
        OperationType::Invalidate => Some("invalidate"@),
        OperationType::Other => None,
    }
}

/// The characters of each of a list of texts.
pub open spec fn texts(strings: Seq<String>) -> Seq<Seq<char>> {
    strings.map_values(|string: String| string@)
}

/// The names of the operations that a stream asks the server for.
pub open spec fn watched_names() -> Seq<Seq<char>> {
    seq![
        "delete"@,
        "drop"@,
        "dropDatabase"@,
        "insert"@,
        "invalidate"@,
        "replace"@,
        "update"@,
    ]
}

/// The names of the fields of a change that a stream asks the server for.
pub open spec fn projected_names() -> Seq<Seq<char>> {
    seq!["_id"@, "documentKey"@, "fullDocument"@, "ns"@, "operationType"@]
}

/// The operations that a stream asks the server for.
pub fn watched_operations() -> (names: Vec<String>)
    ensures
        texts(names@) == watched_names(),
{
    let names: Vec<String> = vec![
        "delete".to_owned(),
        "drop".to_owned(),
        "dropDatabase".to_owned(),
        "insert".to_owned(),
        "invalidate".to_owned(),
        "replace".to_owned(),
        "update".to_owned(),
    ];
    assert(texts(names@) =~= watched_names());
    names
}

/// The fields of a change that a stream asks the server for.
pub fn projected_fields() -> (names: Vec<String>)
    ensures
        texts(names@) == projected_names(),
{
    let names: Vec<String> = vec![
        "_id".to_owned(),
        "documentKey".to_owned(),
        "fullDocument".to_owned(),
        "ns".to_owned(),
        "operationType".to_owned(),
    ];
    assert(texts(names@) =~= projected_names());
    names
}

/// A stream asks the server for an operation exactly if some change by that operation comes to
/// something.
pub proof fn law_watched_operations_are_those_handled(operation_type: OperationType)
    ensures
        (operation_name(operation_type) matches Some(name) && watched_names().contains(name))
            <==> exists|change: ChangeEvent|
            change.operation_type == operation_type && !(#[trigger] classified(
                change,
            ) is Ignore),
{
    let names = watched_names();
    assert(names[0] == "delete"@);
    assert(names[1] == "drop"@);
    assert(names[2] == "dropDatabase"@);
    assert(names[3] == "insert"@);
    assert(names[4] == "invalidate"@);
    assert(names[5] == "replace"@);
    assert(names[6] == "update"@);
    let document: Document = arbitrary();
    let change = ChangeEvent {
        operation_type,
        document_key: Some(document),
        full_document: Some(document),
    };
    let handled = !(operation_type is Rename) && !(operation_type is Other);
    assert(handled == !(classified(change) is Ignore));
    if operation_type is Rename {
        reveal_strlit("rename");
        reveal_strlit("delete");
        reveal_strlit("drop");
        reveal_strlit("dropDatabase");
        reveal_strlit("insert");
        reveal_strlit("invalidate");
        reveal_strlit("replace");
        reveal_strlit("update");
        assert("rename"@[2] == 'n');
        assert forall|i: int| 0 <= i < names.len() implies #[trigger] names[i] != "rename"@ by {
            assert(names[0][0] == 'd');
            assert(names[1][0] == 'd');
            assert(names[2][0] == 'd');
            assert(names[3][0] == 'i');
            assert(names[4][0] == 'i');
            assert(names[5][2] == 'p');
            assert(names[6][0] == 'u');
            assert("rename"@[0] == 'r');
        }
    }
}

/// What a task that ends without a word is taken for.
pub open spec fn lost_startup() -> Seq<char> {
    "change stream startup task terminated before reporting readiness"@
}

/// The characters of the text of a refusal.
pub open spec fn ready_view(ready: Result<Timestamp, String>) -> Result<Timestamp, Seq<char>> {
    match ready {
        Ok(timestamp) => Ok(timestamp),
        Err(text) => Err(text@),
    }
}

/// What a stream's task reported about its start, if it reported anything.
pub open spec fn awaited(report: Option<Result<Timestamp, String>>) -> Result<
    Timestamp,
    Seq<char>,
> {
    match report {
        Some(report) => ready_view(report),
        None => Err(lost_startup()),
    }
}

/// What a task reports is passed on as it is, and silence is a failure.
pub proof fn law_report_is_passed_on(timestamp: Timestamp, text: String)
    ensures
        awaited(Some(Ok(timestamp))) == Ok::<Timestamp, Seq<char>>(timestamp),
        awaited(Some(Err(text))) == Err::<Timestamp, Seq<char>>(text@),
        awaited(None) is Err,
        ready_view(Ok(timestamp)) == Ok::<Timestamp, Seq<char>>(timestamp),
        ready_view(Err(text)) == Err::<Timestamp, Seq<char>>(text@),
{
}

/// What became of the start of a stream: what its task reported, or, if it ended without a report,
/// a text that says so.
pub fn await_ready(report: Option<Result<Timestamp, String>>) -> (ready: Result<Timestamp, String>)
    ensures
        ready_view(ready) == awaited(report),
{
    match report {
        Some(report) => report,
        None => Err(
            "change stream startup task terminated before reporting readiness".to_owned(),
        ),
    }
}

/// A place in the audience of a collection's events.
pub struct WatchSubscription<R> {
    /// Where the events come in.
    pub receiver: R,
    /// The operation time from which on the events are complete, for the first in the audience.
    pub start_at_operation_time: Option<Timestamp>,
}

/// A collection whose events are sent out.
struct CollectionWatcher<S> {
    collection: String,
    sender: S,
}

/// The collections that are watched, each through one stream, with what their events are sent
/// through.
pub struct Watcher<S> {
    change_streams: Vec<CollectionWatcher<S>>,
    full_document: Option<FullDocumentType>,
}

/// A [`Watcher`] as a map from the names of its collections.
#[verifier::reject_recursive_types(S)]
pub struct WatcherView<S> {
    /// What the events of each watched collection are sent through.
    pub senders: Map<Seq<char>, S>,
    /// How updates carry their document.
    pub full_document: Option<FullDocumentType>,
}

impl<S> WatcherView<S> {
    /// What the events of a collection are sent through, if it is watched.
    pub open spec fn sender_of(self, collection: Seq<char>) -> Option<S> {
        if self.senders.contains_key(collection) {
            Some(self.senders[collection])
        } else {
            None
        }
    }

    /// From here on a collection is watched.
    pub open spec fn watching(self, collection: Seq<char>, sender: S) -> WatcherView<S> {
        WatcherView { senders: self.senders.insert(collection, sender), ..self }
    }
}

/// A collection that is watched is watched through one stream, which all of its cursors share. It
/// makes no difference to the other collections.
pub proof fn law_cursors_share_a_stream<S>(
    watcher: WatcherView<S>,
    collection: Seq<char>,
    sender: S,
    other: Seq<char>,
)
    ensures
        watcher.watching(collection, sender).sender_of(collection) == Some(sender),
        other != collection ==> watcher.watching(collection, sender).sender_of(other)
            == watcher.sender_of(other),
        watcher.watching(collection, sender).full_document == watcher.full_document,
        watcher.sender_of(collection) is Some <==> watcher.senders.contains_key(collection),
{
}

/// The first place at or after `from` of a collection.
spec fn stream_from<S>(
    streams: Seq<CollectionWatcher<S>>,
    collection: Seq<char>,
    from: int,
) -> Option<int>
    decreases streams.len() - from,
{
    if from < 0 || from >= streams.len() {
        None
    } else if streams[from].collection@ == collection {
        Some(from)
    } else {
        stream_from(streams, collection, from + 1)
    }
}

/// What the first place of a collection says of the list.
proof fn lemma_stream_from<S>(
    streams: Seq<CollectionWatcher<S>>,
    collection: Seq<char>,
    from: int,
)
    requires
        0 <= from,
    ensures
        match stream_from(streams, collection, from) {
            Some(index) => from <= index < streams.len() && streams[index].collection@
                == collection,
            None => forall|i: int|
                from <= i < streams.len() ==> (#[trigger] streams[i]).collection@ != collection,
        },
    decreases streams.len() - from,
{
    if from < streams.len() && streams[from].collection@ != collection {
        lemma_stream_from(streams, collection, from + 1);
    }
}

/// What a list says of another collection does not change when one is added at its end.
proof fn lemma_stream_from_push<S>(
    streams: Seq<CollectionWatcher<S>>,
    added: CollectionWatcher<S>,
    collection: Seq<char>,
    from: int,
)
    requires
        0 <= from <= streams.len(),
    ensures
        stream_from(streams.push(added), collection, from) == (match stream_from(
            streams,
            collection,
            from,
        ) {
            Some(index) => Some(index),
            None => if added.collection@ == collection {
                Some(streams.len() as int)
            } else {
                None
            },
        }),
    decreases streams.len() - from,
{
    reveal_with_fuel(stream_from, 2);
    if from < streams.len() {
        lemma_stream_from_push(streams, added, collection, from + 1);
    }
}

/// Where a list has a collection does not depend on what its events are sent through.
proof fn lemma_stream_from_update<S>(
    streams: Seq<CollectionWatcher<S>>,
    index: int,
    updated: CollectionWatcher<S>,
    collection: Seq<char>,
    from: int,
)
    requires
        0 <= from,
        0 <= index < streams.len(),
        streams[index].collection@ == updated.collection@,
    ensures
        stream_from(streams.update(index, updated), collection, from) == stream_from(
            streams,
            collection,
            from,
        ),
    decreases streams.len() - from,
{
    if from < streams.len() {
        lemma_stream_from_update(streams, index, updated, collection, from + 1);
    }
}

impl<S> View for Watcher<S> {
    type V = WatcherView<S>;

    closed spec fn view(&self) -> WatcherView<S> {
        let streams = self.change_streams@;
        WatcherView {
            senders: Map::new(
                |collection: Seq<char>| stream_from(streams, collection, 0) is Some,
                |collection: Seq<char>| streams[stream_from(streams, collection, 0)->0].sender,
            ),
            full_document: self.full_document,
        }
    }
}

impl<S> Watcher<S> {
    /// A watcher of no collection yet.
    pub fn new(full_document: Option<FullDocumentType>) -> (watcher: Self)
        ensures
            watcher@.senders == Map::<Seq<char>, S>::empty(),
            watcher@.full_document == full_document,
    {
        let watcher = Watcher { change_streams: Vec::new(), full_document };
        assert(watcher@.senders =~= Map::<Seq<char>, S>::empty());
        watcher
    }

    /// The place of a collection.
    fn find(&self, collection: &String) -> (index: Option<usize>)
        ensures
            match index {
                Some(index) => index < self.change_streams.len() && stream_from(
                    self.change_streams@,
                    collection@,
                    0,
                ) == Some(index as int),
                None => stream_from(self.change_streams@, collection@, 0) is None,
            },
    {
        let mut index: usize = 0;
        while index < self.change_streams.len()
            invariant
                index <= self.change_streams.len(),
                stream_from(self.change_streams@, collection@, 0) == stream_from(
                    self.change_streams@,
                    collection@,
                    index as int,
                ),
            decreases self.change_streams.len() - index,
        {
            if self.change_streams[index].collection == *collection {
                return Some(index);
            }
            index += 1;
        }
        None
    }

    /// What the events of a collection are sent through, if it is watched already. If it is not,
    /// its stream is to be started.
    pub fn watch(&self, collection: &String) -> (sender: Option<&S>)
        ensures
            sender == (match self@.sender_of(collection@) {
                Some(sender) => Some(&sender),
                None => None,
            }),
    {
        match self.find(collection) {
            Some(index) => Some(&self.change_streams[index].sender),
            None => None,
        }
    }

    /// The task of a stream that is to be started.
    pub fn start(&self) -> (task: StreamTask)
        ensures
            task@ == TaskView::initial(self@.full_document),
            task@.well_formed(),
    {
        let full_document = match &self.full_document {
            Some(full_document) => Some(full_document.clone()),
            None => None,
        };
        StreamTask::new(full_document)
    }

    /// A place in the audience of a collection that is watched already: nothing is known of the
    /// events from before.
    pub fn join<R>(receiver: R) -> (subscription: WatchSubscription<R>)
        ensures
            subscription.receiver == receiver,
            subscription.start_at_operation_time is None,
    {
        WatchSubscription { receiver, start_at_operation_time: None }
    }

    /// The task of a collection's stream reported on its start, or ended without a report. If the
    /// stream has started, the collection is watched from here on; otherwise nothing changes.
    pub fn started<R>(
        &mut self,
        collection: String,
        sender: S,
        receiver: R,
        report: Option<Result<Timestamp, String>>,
    ) -> (subscription: Result<WatchSubscription<R>, String>)
        ensures
            match awaited(report) {
                Ok(timestamp) => {
                    &&& subscription == Ok::<WatchSubscription<R>, String>(
                        WatchSubscription {
                            receiver,
                            start_at_operation_time: Some(timestamp),
                        },
                    )
                    &&& final(self)@ == old(self)@.watching(collection@, sender)
                },
                Err(text) => {
                    &&& subscription matches Err(error) && error@ == text
                    &&& final(self)@ == old(self)@
                },
            },
    {
        let timestamp = match await_ready(report) {
            Ok(timestamp) => timestamp,
            Err(text) => {
                return Err(text);
            },
        };
        let ghost streams = self.change_streams@;
        let ghost name = collection@;
        match self.find(&collection) {
            Some(index) => {
                let added = CollectionWatcher { collection, sender };
                self.change_streams.set(index, added);
                proof {
                    assert forall|other: Seq<char>|
                        #[trigger] stream_from(self.change_streams@, other, 0) == stream_from(
                            streams,
                            other,
                            0,
                        ) by {
                        lemma_stream_from(streams, name, 0);
                        lemma_stream_from_update(streams, index as int, added, other, 0);
                    }
                    assert forall|other: Seq<char>|
                        other != name && stream_from(
                            streams,
                            other,
                            0,
                        ) is Some implies #[trigger] stream_from(streams, other, 0) != Some(
                        index as int,
                    ) by {
                        lemma_stream_from(streams, other, 0);
                        lemma_stream_from(streams, name, 0);
                    }
                    assert forall|other: Seq<char>|
                        #[trigger] stream_from(streams, other, 0) is Some implies 0
                        <= stream_from(streams, other, 0)->0 < streams.len() by {
                        lemma_stream_from(streams, other, 0);
                    }
                }
            },
            None => {
                let added = CollectionWatcher { collection, sender };
                self.change_streams.push(added);
                proof {
                    assert forall|other: Seq<char>|
                        #[trigger] stream_from(self.change_streams@, other, 0) == (
                        match stream_from(streams, other, 0) {
                            Some(at) => Some(at),
                            None => if name == other {
                                Some(streams.len() as int)
                            } else {
                                None
                            },
                        }) by {
                        lemma_stream_from_push(streams, added, other, 0);
                    }
                    assert forall|other: Seq<char>|
                        #[trigger] stream_from(streams, other, 0) is Some implies 0
                        <= stream_from(streams, other, 0)->0 < streams.len() by {
                        lemma_stream_from(streams, other, 0);
                    }
                }
            },
        }
        assert(self@.senders =~= old(self)@.senders.insert(name, sender));
        Ok(WatchSubscription { receiver, start_at_operation_time: Some(timestamp) })
    }
}

} // verus!
