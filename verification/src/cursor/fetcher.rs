//! The documents of a cursor, and how they are fetched and kept up to date.
//!
//! A [`CursorFetcher`] decides and waits: each of its calls hands out one [`Action`], and whoever
//! performs it hands back what came of it as an [`Input`].
use vstd::prelude::*;

use bson::{Document, Timestamp};

use crate::cursor::description::CursorDescription;
use crate::cursor::effect::{
    announce, announcements, effect_views, failure_view, missing_id, Effect, EffectKind, EffectView,
    FetchError, FetchErrorView,
};
use crate::cursor::fetch_state::{FetchPhase, FetchState};
use crate::cursor::process::{
    is_compared, is_pending_in, lemma_pending_exists, on_event, on_pending, process, resume, Next,
    NextView, Outcome, ReadEvent, ReadEventView, Reading, ReadingView, Step,
};
use crate::json::{contents, Fields, JsonDocument};
use crate::watcher::Event;

verus! {

/// The events that carry a document.
#[derive(Clone, Copy, Debug, PartialEq, Eq, Structural)]
pub enum DocumentEvent {
    Delete,
    Insert,
    Update,
}

/// What came out of the channel that hands out change events.
pub enum Received {
    /// An event.
    Event(Event),
    /// There will be no more events.
    Closed,
    /// There is no event yet.
    Empty,
    /// So many events were lost.
    Lagged(u64),
}

/// What is to be done next.
pub enum Action {
    /// Fetch the documents of the cursor, as they are at this operation time or later.
    Fetch(Option<Timestamp>),
    /// Carry out the effects one after the other, up to the first that fails.
    Perform(Vec<Effect>),
    /// Look for an event without waiting for one.
    Receive,
    /// Read the document that an event carries, and ask the cursor's query about it.
    Read(DocumentEvent, Document),
    /// Nothing: all is done.
    Finished,
    /// Nothing: it failed.
    Failed(FetchError),
}

/// An [`Action`] with the contents of its documents.
pub enum ActionView {
    Fetch(Option<Timestamp>),
    Perform(Seq<EffectView>),
    Receive,
    Read(DocumentEvent, Document),
    Finished,
    Failed(FetchErrorView),
}

impl View for Action {
    type V = ActionView;

    open spec fn view(&self) -> ActionView {
        match self {
            Action::Fetch(boundary) => ActionView::Fetch(*boundary),
            Action::Perform(effects) => ActionView::Perform(effect_views(effects@)),
            Action::Receive => ActionView::Receive,
            Action::Read(event, document) => ActionView::Read(*event, *document),
            Action::Finished => ActionView::Finished,
            Action::Failed(error) => ActionView::Failed(error@),
        }
    }
}

/// What came of an action.
pub enum Input {
    /// The documents that were fetched.
    Fetched(Vec<JsonDocument>),
    /// All effects were carried out.
    Performed,
    /// What the look for an event found.
    Received(Received),
    /// The document that was read, and what the query says of it.
    Read(Reading),
}

/// An [`Input`] with the contents of its documents.
pub enum InputView {
    Fetched(Seq<Fields>),
    Performed,
    Received(Received),
    Read(ReadingView),
}

impl View for Input {
    type V = InputView;

    open spec fn view(&self) -> InputView {
        match self {
            Input::Fetched(documents) => InputView::Fetched(contents(documents@)),
            Input::Performed => InputView::Performed,
            Input::Received(received) => InputView::Received(*received),
            Input::Read(reading) => InputView::Read(reading@),
        }
    }
}

/// Where an event comes from.
enum Origin {
    Direct,
    Replay(Vec<Event>),
}

/// Where an event comes from.
pub enum OriginView {
    /// It was handed in.
    Direct,
    /// It was kept while the documents were fetched; these are still to come.
    Replay(Seq<Event>),
}

impl Origin {
    spec fn view(&self) -> OriginView {
        match self {
            Origin::Direct => OriginView::Direct,
            Origin::Replay(events) => OriginView::Replay(events@),
        }
    }
}

/// What a fetcher waits for.
enum Activity {
    Idle,
    Querying { replay: bool },
    Inserting { snapshot: Vec<JsonDocument>, replay: bool },
    Removing { replay: bool },
    Failing(FetchError),
    Draining,
    Reading { event: DocumentEvent, origin: Origin },
    Settling { next: Next, origin: Origin },
}

/// What a fetcher waits for.
pub enum ActivityView {
    /// Nothing.
    Idle,
    /// The documents are being fetched; whether a replay follows.
    Querying { replay: bool },
    /// The mergeboxes are told of the documents that were fetched.
    Inserting { snapshot: Seq<Fields>, replay: bool },
    /// The mergeboxes are told that the documents from before go.
    Removing { replay: bool },
    /// The mergeboxes are told of the documents ahead of one that has no `_id`.
    Failing(FetchErrorView),
    /// The events that came in meanwhile are collected.
    Draining,
    /// The document of an event is being read.
    Reading { event: DocumentEvent, origin: OriginView },
    /// The mergeboxes are told of an event.
    Settling { next: NextView, origin: OriginView },
}

impl Activity {
    spec fn view(&self) -> ActivityView {
        match self {
            Activity::Idle => ActivityView::Idle,
            Activity::Querying { replay } => ActivityView::Querying { replay: *replay },
            Activity::Inserting { snapshot, replay } => ActivityView::Inserting {
                snapshot: contents(snapshot@),
                replay: *replay,
            },
            Activity::Removing { replay } => ActivityView::Removing { replay: *replay },
            Activity::Failing(error) => ActivityView::Failing(error@),
            Activity::Draining => ActivityView::Draining,
            Activity::Reading { event, origin } => ActivityView::Reading {
                event: *event,
                origin: origin.view(),
            },
            Activity::Settling { next, origin } => ActivityView::Settling {
                next: next@,
                origin: origin.view(),
            },
        }
    }
}

/// How a cursor hears of changes.
pub enum WatchPlan {
    /// It subscribes to the change events of this collection.
    Subscribe(String),
    /// It fetches its documents again every so many milliseconds.
    Poll(u64),
}

/// A cursor's documents and what it does to keep them up to date.
pub struct CursorFetcher {
    activity: Activity,
    description: CursorDescription,
    documents: Vec<JsonDocument>,
    fetch_state: FetchState,
    viewable: bool,
}

/// A [`CursorFetcher`] with the contents of its documents.
pub struct FetcherView {
    /// The name of the collection.
    pub collection: Seq<char>,
    /// The most documents that the cursor shows.
    pub limit: Option<usize>,
    /// How often it polls, in milliseconds, if it has to.
    pub interval: u64,
    /// Whether its query can be asked about a single document.
    pub viewable: bool,
    /// Its documents.
    pub documents: Seq<Fields>,
    /// The phase.
    pub phase: FetchPhase,
    /// The events that wait to be replayed.
    pub buffered: Seq<Event>,
    /// What it waits for.
    pub activity: ActivityView,
}

impl View for CursorFetcher {
    type V = FetcherView;

    closed spec fn view(&self) -> FetcherView {
        FetcherView {
            collection: self.description.collection@,
            limit: self.description.limit,
            interval: self.description.interval(),
            viewable: self.viewable,
            documents: contents(self.documents@),
            phase: self.fetch_state.phase,
            buffered: self.fetch_state.buffered_events@,
            activity: self.activity.view(),
        }
    }
}

/// Replayed events come in the phase of that name, when none is left to be collected.
pub open spec fn is_origin_of(origin: OriginView, fetcher: FetcherView) -> bool {
    origin is Replay ==> fetcher.phase == FetchPhase::Replaying && fetcher.buffered.len() == 0
}

impl FetcherView {
    /// What holds of a fetcher at all times.
    pub open spec fn well_formed(self) -> bool {
        match self.activity {
            ActivityView::Idle | ActivityView::Failing(_) => true,
            ActivityView::Querying { replay }
            | ActivityView::Inserting { replay, .. }
            | ActivityView::Removing { replay } => replay ==> self.phase == FetchPhase::Querying
                && self.buffered.len() == 0,
            ActivityView::Draining => self.phase == FetchPhase::Querying,
            ActivityView::Reading { origin, .. } => self.viewable && is_origin_of(origin, self),
            ActivityView::Settling { next, origin } => {
                &&& self.viewable
                &&& is_origin_of(origin, self)
                &&& next matches NextView::Continue(pending) ==> is_pending_in(
                    pending,
                    self.documents,
                )
            },
        }
    }

    /// Whether an input is what the fetcher waits for. Events can be replayed only if the query can
    /// be asked about a single document.
    pub open spec fn accepts(self, input: InputView) -> bool {
        match (self.activity, input) {
            (ActivityView::Querying { .. }, InputView::Fetched(_)) => true,
            (ActivityView::Inserting { .. }, InputView::Performed) => true,
            (ActivityView::Removing { .. }, InputView::Performed) => true,
            (ActivityView::Failing(_), InputView::Performed) => true,
            (ActivityView::Draining, InputView::Received(received)) => received is Empty
                ==> self.viewable || self.buffered.len() == 0,
            (ActivityView::Reading { event, .. }, InputView::Read(reading)) => event
                != DocumentEvent::Delete ==> is_compared(self.documents, reading, self.limit),
            (ActivityView::Settling { .. }, InputView::Performed) => true,
            _ => false,
        }
    }

    /// The documents are fetched, as they are at this operation time or later, and take the place
    /// of those from before.
    pub open spec fn snapshot(self, boundary: Option<Timestamp>) -> (FetcherView, ActionView) {
        (
            FetcherView { activity: ActivityView::Querying { replay: false }, ..self },
            ActionView::Fetch(boundary),
        )
    }

    /// The documents are fetched and then the events that came in meanwhile are replayed. Events
    /// from before are forgotten.
    pub open spec fn refetch(self, boundary: Option<Timestamp>) -> (FetcherView, ActionView) {
        (
            FetcherView {
                phase: FetchPhase::Querying,
                buffered: seq![],
                activity: ActivityView::Querying { replay: true },
                ..self
            },
            ActionView::Fetch(boundary),
        )
    }

    /// The mergeboxes are told what a step of an event says.
    pub open spec fn settle(self, outcome: Outcome, origin: OriginView) -> (
        FetcherView,
        ActionView,
    ) {
        (
            FetcherView {
                documents: outcome.documents,
                activity: ActivityView::Settling { next: outcome.next, origin },
                ..self
            },
            ActionView::Perform(outcome.effects),
        )
    }

    /// An event is handled: at once, if it carries no document, and otherwise when the document
    /// was read.
    pub open spec fn begin(self, event: Event, origin: OriginView) -> (FetcherView, ActionView) {
        match event {
            Event::Clear => self.settle(
                on_event(self.documents, ReadEventView::Clear, self.collection, self.limit),
                origin,
            ),
            Event::Resync(boundary) => self.settle(
                on_event(
                    self.documents,
                    ReadEventView::Resync(boundary),
                    self.collection,
                    self.limit,
                ),
                origin,
            ),
            Event::Delete(document) => self.read(DocumentEvent::Delete, document, origin),
            Event::Insert(document) => self.read(DocumentEvent::Insert, document, origin),
            Event::Update(document) => self.read(DocumentEvent::Update, document, origin),
        }
    }

    /// The document of an event is read.
    pub open spec fn read(
        self,
        event: DocumentEvent,
        document: Document,
        origin: OriginView,
    ) -> (FetcherView, ActionView) {
        (
            FetcherView { activity: ActivityView::Reading { event, origin }, ..self },
            ActionView::Read(event, document),
        )
    }

    /// The next of the events is replayed. After the last one the documents are up to date.
    pub open spec fn replay(self, events: Seq<Event>) -> (FetcherView, ActionView) {
        if events.len() == 0 {
            (
                FetcherView {
                    phase: FetchPhase::Steady,
                    activity: ActivityView::Idle,
                    ..self
                },
                ActionView::Finished,
            )
        } else {
            self.begin(events[0], OriginView::Replay(events.drop_first()))
        }
    }

    /// All is done, or it failed.
    pub open spec fn stop(self, action: ActionView) -> (FetcherView, ActionView) {
        (FetcherView { activity: ActivityView::Idle, ..self }, action)
    }

    /// An event is handed in. A resync starts all over; anything else is handled as it is.
    pub open spec fn on_handed(self, event: Event) -> (FetcherView, ActionView) {
        match event {
            Event::Resync(boundary) => self.refetch(boundary),
            event => self.begin(event, OriginView::Direct),
        }
    }

    /// The documents came in, projected by the server. The mergeboxes are told of each of them, up
    /// to the first without an `_id`; if there is one, that is a failure and the documents from
    /// before stay.
    pub open spec fn on_fetched(self, snapshot: Seq<Fields>, replay: bool) -> (
        FetcherView,
        ActionView,
    ) {
        (
            FetcherView {
                activity: match missing_id(snapshot) {
                    Some(error) => ActivityView::Failing(error),
                    None => ActivityView::Inserting { snapshot, replay },
                },
                ..self
            },
            ActionView::Perform(
                announcements(snapshot, EffectKind::Insert, self.collection, false),
            ),
        )
    }

    /// The mergeboxes know of the new documents, which take the place of those from before. The
    /// mergeboxes are told that each of these goes, projected as it was when it came.
    pub open spec fn on_inserted(self, snapshot: Seq<Fields>, replay: bool) -> (
        FetcherView,
        ActionView,
    ) {
        (
            FetcherView {
                documents: snapshot,
                activity: match missing_id(self.documents) {
                    Some(error) => ActivityView::Failing(error),
                    None => ActivityView::Removing { replay },
                },
                ..self
            },
            ActionView::Perform(
                announcements(self.documents, EffectKind::Remove, self.collection, true),
            ),
        )
    }

    /// The new documents are in place. If a replay follows, its events are collected.
    pub open spec fn on_removed(self, replay: bool) -> (FetcherView, ActionView) {
        if replay {
            (FetcherView { activity: ActivityView::Draining, ..self }, ActionView::Receive)
        } else {
            self.stop(ActionView::Finished)
        }
    }

    /// The look for an event found something. An event is kept for the replay. A resync and lost
    /// events start all over. When there is none left, the replay starts.
    pub open spec fn on_received(self, received: Received) -> (FetcherView, ActionView) {
        match received {
            Received::Event(Event::Resync(boundary)) => self.refetch(boundary),
            Received::Event(event) => (
                FetcherView { buffered: self.buffered.push(event), ..self },
                ActionView::Receive,
            ),
            Received::Closed => self.stop(ActionView::Failed(FetchErrorView::ReceiverClosed)),
            Received::Empty => FetcherView {
                phase: FetchPhase::Replaying,
                buffered: seq![],
                ..self
            }.replay(self.buffered),
            Received::Lagged(_) => self.refetch(None),
        }
    }

    /// The document of an event was read.
    pub open spec fn on_read(
        self,
        event: DocumentEvent,
        reading: ReadingView,
        origin: OriginView,
    ) -> (FetcherView, ActionView) {
        self.settle(
            on_event(
                self.documents,
                match event {
                    DocumentEvent::Delete => ReadEventView::Delete(reading.document),
                    DocumentEvent::Insert => ReadEventView::Insert(reading),
                    DocumentEvent::Update => ReadEventView::Update(reading),
                },
                self.collection,
                self.limit,
            ),
            origin,
        )
    }

    /// The mergeboxes know of a step of an event. If the event asks for it, the documents are
    /// fetched again; otherwise what is left of the event is done, and then what comes after it.
    pub open spec fn on_settled(self, next: NextView, origin: OriginView) -> (
        FetcherView,
        ActionView,
    ) {
        match next {
            NextView::Continue(pending) => self.settle(
                on_pending(self.documents, pending, self.collection, self.limit),
                origin,
            ),
            NextView::Fail(error) => self.stop(ActionView::Failed(error)),
            NextView::Done(true) => self.refetch(None),
            NextView::Done(false) => match origin {
                OriginView::Direct => self.stop(ActionView::Finished),
                OriginView::Replay(events) => self.replay(events),
            },
        }
    }

    /// What the fetcher does with an input that it waits for.
    pub open spec fn advanced(self, input: InputView) -> (FetcherView, ActionView) {
        match (self.activity, input) {
            (
                ActivityView::Querying { replay },
                InputView::Fetched(snapshot),
            ) => self.on_fetched(snapshot, replay),
            (
                ActivityView::Inserting { snapshot, replay },
                InputView::Performed,
            ) => self.on_inserted(snapshot, replay),
            (ActivityView::Removing { replay }, InputView::Performed) => self.on_removed(replay),
            (ActivityView::Failing(error), InputView::Performed) => self.stop(
                ActionView::Failed(error),
            ),
            (ActivityView::Draining, InputView::Received(received)) => self.on_received(received),
            (
                ActivityView::Reading { event, origin },
                InputView::Read(reading),
            ) => self.on_read(event, reading, origin),
            (
                ActivityView::Settling { next, origin },
                InputView::Performed,
            ) => self.on_settled(next, origin),
            _ => (self, ActionView::Finished),
        }
    }
}

/// A fetcher that goes on with an input stays well formed.
pub proof fn lemma_advanced_well_formed(fetcher: FetcherView, input: InputView)
    requires
        fetcher.well_formed(),
        fetcher.accepts(input),
    ensures
        fetcher.advanced(input).0.well_formed(),
{
    match (fetcher.activity, input) {
        (ActivityView::Reading { event, .. }, InputView::Read(reading)) => {
            let read = match event {
                DocumentEvent::Delete => ReadEventView::Delete(reading.document),
                DocumentEvent::Insert => ReadEventView::Insert(reading),
                DocumentEvent::Update => ReadEventView::Update(reading),
            };
            lemma_pending_exists(fetcher.documents, read, fetcher.collection, fetcher.limit);
        },
        _ => {},
    }
}

impl CursorFetcher {
    /// A fetcher without documents. `viewable` says whether the cursor's query can be asked about
    /// a single document.
    pub fn new(description: CursorDescription, viewable: bool) -> (fetcher: Self)
        ensures
            fetcher@ == (FetcherView {
                collection: description.collection@,
                limit: description.limit,
                interval: description.interval(),
                viewable,
                documents: seq![],
                phase: FetchPhase::Steady,
                buffered: seq![],
                activity: ActivityView::Idle,
            }),
            fetcher@.well_formed(),
    {
        let documents: Vec<JsonDocument> = Vec::new();
        assert(contents(documents@) =~= Seq::<Fields>::empty());
        CursorFetcher {
            activity: Activity::Idle,
            description,
            documents,
            fetch_state: FetchState::default(),
            viewable,
        }
    }

    /// The documents, in the order in which the cursor holds them.
    pub fn documents(&self) -> (documents: &Vec<JsonDocument>)
        ensures
            contents(documents@) == self@.documents,
    {
        &self.documents
    }

    /// The phase.
    pub fn phase(&self) -> (phase: FetchPhase)
        ensures
            phase == self@.phase,
    {
        self.fetch_state.phase
    }

    /// The collection's name.
    pub fn collection(&self) -> (collection: &String)
        ensures
            collection@ == self@.collection,
    {
        &self.description.collection
    }

    /// The most documents that the cursor shows.
    pub fn limit(&self) -> (limit: Option<usize>)
        ensures
            limit == self@.limit,
    {
        self.description.limit()
    }

    /// Whether an input is what the fetcher waits for.
    pub fn accepts(&self, input: &Input) -> (accepted: bool)
        ensures
            accepted == self@.accepts(input@),
    {
        match (&self.activity, input) {
            (Activity::Querying { .. }, Input::Fetched(_)) => true,
            (Activity::Inserting { .. }, Input::Performed) => true,
            (Activity::Removing { .. }, Input::Performed) => true,
            (Activity::Failing(_), Input::Performed) => true,
            (Activity::Draining, Input::Received(received)) => match received {
                Received::Empty => self.viewable || self.fetch_state.buffered_events.len() == 0,
                _ => true,
            },
            (Activity::Reading { event, .. }, Input::Read(reading)) => *event
                == DocumentEvent::Delete || !reading.matches || self.description.limit().is_none()
                || reading.order.len() == self.documents.len(),
            (Activity::Settling { .. }, Input::Performed) => true,
            _ => false,
        }
    }

    /// Tells the mergeboxes what a step says and waits for that.
    fn settle(&mut self, step: Step, origin: Origin) -> (action: Action)
        ensures
            final(self)@ == (FetcherView {
                activity: ActivityView::Settling { next: step.next@, origin: origin.view() },
                ..old(self)@
            }),
            action@ == ActionView::Perform(effect_views(step.effects@)),
    {
        self.activity = Activity::Settling { next: step.next, origin };
        Action::Perform(step.effects)
    }

    /// Waits for the document of an event.
    fn read(&mut self, event: DocumentEvent, document: Document, origin: Origin) -> (action: Action)
        ensures
            (final(self)@, action@) == old(self)@.read(event, document, origin.view()),
    {
        self.activity = Activity::Reading { event, origin };
        Action::Read(event, document)
    }

    /// Handles an event.
    fn begin(&mut self, event: Event, origin: Origin) -> (action: Action)
        ensures
            (final(self)@, action@) == old(self)@.begin(event, origin.view()),
    {
        match event {
            Event::Clear => {
                let step = process(ReadEvent::Clear, &self.description, &mut self.documents);
                self.settle(step, origin)
            },
            Event::Resync(boundary) => {
                let step = process(
                    ReadEvent::Resync(boundary),
                    &self.description,
                    &mut self.documents,
                );
                self.settle(step, origin)
            },
            Event::Delete(document) => self.read(DocumentEvent::Delete, document, origin),
            Event::Insert(document) => self.read(DocumentEvent::Insert, document, origin),
            Event::Update(document) => self.read(DocumentEvent::Update, document, origin),
        }
    }

    /// Replays the next of the events.
    fn replay(&mut self, events: Vec<Event>) -> (action: Action)
        ensures
            (final(self)@, action@) == old(self)@.replay(events@),
    {
        let mut events = events;
        if events.len() == 0 {
            self.fetch_state.finish_steady();
            self.activity = Activity::Idle;
            Action::Finished
        } else {
            let ghost all = events@;
            let event = events.remove(0);
            assert(events@ =~= all.drop_first());
            self.begin(event, Origin::Replay(events))
        }
    }

    /// Starts to fetch the documents, as they are at this operation time or later. They take the
    /// place of those that the cursor has.
    pub fn fetch_snapshot(&mut self, boundary: Option<Timestamp>) -> (action: Action)
        ensures
            (final(self)@, action@) == old(self)@.snapshot(boundary),
            final(self)@.well_formed(),
    {
        self.activity = Activity::Querying { replay: false };
        Action::Fetch(boundary)
    }

    /// Starts to fetch the documents, as they are at this operation time or later, and to replay
    /// what happens meanwhile.
    pub fn refetch_and_replay(&mut self, boundary: Option<Timestamp>) -> (action: Action)
        ensures
            (final(self)@, action@) == old(self)@.refetch(boundary),
            final(self)@.well_formed(),
    {
        self.fetch_state.start_querying();
        self.activity = Activity::Querying { replay: true };
        Action::Fetch(boundary)
    }

    /// Starts to handle an event. Anything but a resync takes a query that can be asked about a
    /// single document.
    pub fn handle_event(&mut self, event: Event) -> (action: Action)
        requires
            event is Resync || old(self)@.viewable,
        ensures
            (final(self)@, action@) == old(self)@.on_handed(event),
            final(self)@.well_formed(),
    {
        match event {
            Event::Resync(boundary) => self.refetch_and_replay(boundary),
            event => self.begin(event, Origin::Direct),
        }
    }

    /// What came out of the look for an event.
    fn received(&mut self, received: Received) -> (action: Action)
        ensures
            (final(self)@, action@) == (FetcherView {
                activity: ActivityView::Draining,
                ..old(self)@
            }).on_received(received),
    {
        match received {
            Received::Event(Event::Resync(boundary)) => {
                self.fetch_state.clear();
                self.refetch_and_replay(boundary)
            },
            Received::Event(event) => {
                self.fetch_state.buffer(event);
                self.activity = Activity::Draining;
                Action::Receive
            },
            Received::Closed => {
                self.activity = Activity::Idle;
                Action::Failed(FetchError::ReceiverClosed)
            },
            Received::Empty => {
                self.fetch_state.start_replay();
                let events = self.fetch_state.take_buffered();
                self.replay(events)
            },
            Received::Lagged(_) => {
                self.fetch_state.clear();
                self.refetch_and_replay(None)
            },
        }
    }

    /// Goes on with what came of the action before.
    pub fn advance(&mut self, input: Input) -> (action: Action)
        requires
            old(self)@.well_formed(),
            old(self)@.accepts(input@),
        ensures
            (final(self)@, action@) == old(self)@.advanced(input@),
            final(self)@.well_formed(),
    {
        proof {
            lemma_advanced_well_formed(self@, input@);
        }
        let mut activity = Activity::Idle;
        std::mem::swap(&mut activity, &mut self.activity);
        match (activity, input) {
            (Activity::Querying { replay }, Input::Fetched(snapshot)) => {
                let (effects, failure) = announce(
                    &snapshot,
                    EffectKind::Insert,
                    &self.description.collection,
                    false,
                );
                self.activity = match failure {
                    Some(error) => Activity::Failing(error),
                    None => Activity::Inserting { snapshot, replay },
                };
                Action::Perform(effects)
            },
            (Activity::Inserting { snapshot, replay }, Input::Performed) => {
                let (effects, failure) = announce(
                    &self.documents,
                    EffectKind::Remove,
                    &self.description.collection,
                    true,
                );
                self.documents = snapshot;
                self.activity = match failure {
                    Some(error) => Activity::Failing(error),
                    None => Activity::Removing { replay },
                };
                Action::Perform(effects)
            },
            (Activity::Removing { replay }, Input::Performed) => {
                if replay {
                    self.activity = Activity::Draining;
                    Action::Receive
                } else {
                    Action::Finished
                }
            },
            (Activity::Failing(error), Input::Performed) => Action::Failed(error),
            (Activity::Draining, Input::Received(received)) => self.received(received),
            (Activity::Reading { event, origin }, Input::Read(reading)) => {
                let event = match event {
                    DocumentEvent::Delete => ReadEvent::Delete(reading.document),
                    DocumentEvent::Insert => ReadEvent::Insert(reading),
                    DocumentEvent::Update => ReadEvent::Update(reading),
                };
                let step = process(event, &self.description, &mut self.documents);
                self.settle(step, origin)
            },
            (Activity::Settling { next, origin }, Input::Performed) => match next {
                Next::Continue(pending) => {
                    let step = resume(pending, &self.description, &mut self.documents);
                    self.settle(step, origin)
                },
                Next::Fail(error) => Action::Failed(error),
                Next::Done(refetch) => {
                    if refetch {
                        self.refetch_and_replay(None)
                    } else {
                        match origin {
                            Origin::Direct => Action::Finished,
                            Origin::Replay(events) => self.replay(events),
                        }
                    }
                },
            },
            _ => Action::Finished,
        }
    }

    /// What a mergebox that starts to show the cursor is told: each of the documents comes,
    /// projected, up to the first that has no `_id`, which is the failure.
    pub fn register(&self) -> (plan: (Vec<Effect>, Option<FetchError>))
        ensures
            effect_views(plan.0@) == announcements(
                self@.documents,
                EffectKind::Insert,
                self@.collection,
                true,
            ),
            failure_view(plan.1) == missing_id(self@.documents),
    {
        announce(&self.documents, EffectKind::Insert, &self.description.collection, true)
    }

    /// What a mergebox that no longer shows the cursor is told: each of the documents goes,
    /// projected, up to the first that has no `_id`, which is the failure.
    pub fn unregister(&self) -> (plan: (Vec<Effect>, Option<FetchError>))
        ensures
            effect_views(plan.0@) == announcements(
                self@.documents,
                EffectKind::Remove,
                self@.collection,
                true,
            ),
            failure_view(plan.1) == missing_id(self@.documents),
    {
        announce(&self.documents, EffectKind::Remove, &self.description.collection, true)
    }

    /// How the cursor hears of changes: from a change stream, if its query can be asked about a
    /// single document, and otherwise by polling.
    pub fn watch(&self) -> (plan: WatchPlan)
        ensures
            match plan {
                WatchPlan::Subscribe(collection) => self@.viewable && collection@
                    == self@.collection,
                WatchPlan::Poll(interval) => !self@.viewable && interval == self@.interval,
            },
    {
        if self.viewable {
            WatchPlan::Subscribe(self.description.collection.clone())
        } else {
            WatchPlan::Poll(self.description.polling_interval())
        }
    }

    /// How the cursor hears of changes if it cannot subscribe to a change stream: it polls every
    /// so many milliseconds.
    pub fn polling_interval(&self) -> (interval: u64)
        ensures
            interval == self@.interval,
    {
        self.description.polling_interval()
    }
}

} // verus!
