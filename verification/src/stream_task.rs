//! How a change stream is opened, followed and opened again.
//!
//! A [`StreamTask`] decides and waits: each of its steps hands out one [`StreamAction`], and
//! whoever performs it hands back what came of it as a [`StreamInput`].
use vstd::prelude::*;

use bson::Timestamp;
use mongodb::change_stream::event::ResumeToken;
use mongodb::options::{ChangeStreamOptions, FullDocumentType};

use crate::checkpoint::{invalidated, moved, StreamCheckpoint, StreamCheckpointState};
use crate::recovery::{
    requires_fresh_recovery, Failure, FailureKind, FailureKindView, FailureView,
};
use crate::watcher::{
    classified, classify_change_event, ready_view, BufferedChange, ChangeEvent, Event,
};

verus! {

/// How long to wait, in milliseconds, before a stream that could not be opened again is tried once
/// more.
pub const RECOVERY_RETRY_DELAY_MS: u64 = 500;

/// Where a stream is opened.
#[derive(Clone, Copy, Debug, PartialEq, Eq, Structural)]
pub enum OpenMode {
    /// At the present operation time.
    Fresh,
    /// At the place that the stream before had come to.
    StoredCheckpoint,
}

/// What the cursors are told once the stream is open again.
#[derive(Clone, Copy, Debug, PartialEq, Eq, Structural)]
pub enum PendingResync {
    /// To read their documents again, as they are when the stream starts or later.
    FreshBoundary,
    /// To read their documents again.
    StoredCheckpoint,
}

/// What a task waits for.
#[derive(Debug)]
pub enum StreamPhase {
    /// To begin, or to begin again after a delay.
    Waiting,
    /// The present operation time.
    Timing,
    /// The stream, which is being opened at this place.
    Opening(StreamCheckpoint),
    /// What the stream reports.
    Polling,
    /// Nothing: it has ended.
    Stopped,
}

/// What a stream reports.
pub enum Polled {
    /// A change.
    Change(ChangeEvent),
    /// No change; whether the stream is still alive.
    Quiet(bool),
    /// A failure.
    Failed(FailureKind),
}

/// What came of an action.
pub enum StreamInput {
    /// It is time to open the stream.
    Begin,
    /// The operation time that the server reported, if it reported one.
    OperationTime(Option<Timestamp>),
    /// Neither operation time nor stream could be had.
    Failed(Failure),
    /// The stream is open.
    Opened,
    /// The stream reported something and has come to this token, if it has one.
    Polled(Polled, Option<ResumeToken>),
}

/// A [`Polled`] with its texts as characters.
pub enum PolledView {
    Change(ChangeEvent),
    Quiet(bool),
    Failed(FailureKindView),
}

/// A [`StreamInput`] with its texts as characters.
pub enum StreamInputView {
    Begin,
    OperationTime(Option<Timestamp>),
    Failed(FailureView),
    Opened,
    Polled(PolledView, Option<ResumeToken>),
}

impl View for Polled {
    type V = PolledView;

    open spec fn view(&self) -> PolledView {
        match self {
            Polled::Change(change) => PolledView::Change(*change),
            Polled::Quiet(alive) => PolledView::Quiet(*alive),
            Polled::Failed(kind) => PolledView::Failed(kind@),
        }
    }
}

impl View for StreamInput {
    type V = StreamInputView;

    open spec fn view(&self) -> StreamInputView {
        match self {
            StreamInput::Begin => StreamInputView::Begin,
            StreamInput::OperationTime(timestamp) => StreamInputView::OperationTime(*timestamp),
            StreamInput::Failed(failure) => StreamInputView::Failed(failure@),
            StreamInput::Opened => StreamInputView::Opened,
            StreamInput::Polled(polled, resume_token) => StreamInputView::Polled(
                polled@,
                *resume_token,
            ),
        }
    }
}

/// What is to be done next.
pub enum StreamAction {
    /// Ask the server for its operation time.
    CaptureOperationTime,
    /// Open the stream.
    Open(ChangeStreamOptions),
    /// Wait for so many milliseconds.
    Sleep(u64),
    /// Ask the stream for a change.
    Poll,
    /// End, for this reason.
    Stop(String),
}

/// A [`StreamAction`] with its text as characters.
pub enum StreamActionView {
    CaptureOperationTime,
    Open(ChangeStreamOptions),
    Sleep(u64),
    Poll,
    Stop(Seq<char>),
}

impl View for StreamAction {
    type V = StreamActionView;

    open spec fn view(&self) -> StreamActionView {
        match self {
            StreamAction::CaptureOperationTime => StreamActionView::CaptureOperationTime,
            StreamAction::Open(options) => StreamActionView::Open(*options),
            StreamAction::Sleep(milliseconds) => StreamActionView::Sleep(*milliseconds),
            StreamAction::Poll => StreamActionView::Poll,
            StreamAction::Stop(reason) => StreamActionView::Stop(reason@),
        }
    }
}

/// What a task says, and what it wants done next.
pub struct StreamStep {
    /// The report on the start of the stream, if it is due: the operation time at which it starts,
    /// or why it does not.
    pub ready: Option<Result<Timestamp, String>>,
    /// The event that the cursors are to hear of.
    pub broadcast: Option<Event>,
    /// What is to be done next.
    pub action: StreamAction,
}

/// A [`StreamStep`] with its texts as characters.
pub struct StreamStepView {
    pub ready: Option<Result<Timestamp, Seq<char>>>,
    pub broadcast: Option<Event>,
    pub action: StreamActionView,
}

impl View for StreamStep {
    type V = StreamStepView;

    open spec fn view(&self) -> StreamStepView {
        StreamStepView {
            ready: match self.ready {
                Some(ready) => Some(ready_view(ready)),
                None => None,
            },
            broadcast: self.broadcast,
            action: self.action@,
        }
    }
}

/// The step that says nothing.
pub open spec fn quietly(action: StreamActionView) -> StreamStepView {
    StreamStepView { ready: None, broadcast: None, action }
}

/// What a server that reports no operation time is taken for.
pub open spec fn no_operation_time() -> FailureView {
    FailureView {
        kind: FailureKindView::Other,
        text: "MongoDB session did not report an operation time"@,
    }
}

/// What a first stream that does not start at an operation time is taken for.
pub open spec fn no_start_time() -> Seq<char> {
    "change stream startup did not capture an operation time"@
}

/// How a collection's change stream stands.
pub struct StreamTask {
    checkpoint: StreamCheckpointState,
    full_document: Option<FullDocumentType>,
    next_open_mode: OpenMode,
    pending_resync: Option<PendingResync>,
    phase: StreamPhase,
    reported: bool,
}

/// A [`StreamTask`] as it appears from outside.
pub struct TaskView {
    /// The place that the stream has come to.
    pub checkpoint: Option<StreamCheckpoint>,
    /// How updates carry their document.
    pub full_document: Option<FullDocumentType>,
    /// Where the stream is opened next.
    pub mode: OpenMode,
    /// What the cursors are told once it is open.
    pub pending: Option<PendingResync>,
    /// What the task waits for.
    pub phase: StreamPhase,
    /// Whether the start was reported on.
    pub reported: bool,
}

impl View for StreamTask {
    type V = TaskView;

    closed spec fn view(&self) -> TaskView {
        TaskView {
            checkpoint: self.checkpoint.checkpoint,
            full_document: self.full_document,
            mode: self.next_open_mode,
            pending: self.pending_resync,
            phase: self.phase,
            reported: self.reported,
        }
    }
}

impl TaskView {
    /// A task that has not begun.
    pub open spec fn initial(full_document: Option<FullDocumentType>) -> TaskView {
        TaskView {
            checkpoint: None,
            full_document,
            mode: OpenMode::Fresh,
            pending: None,
            phase: StreamPhase::Waiting,
            reported: false,
        }
    }

    /// What holds of a task at all times, unless it has ended. The first stream is opened fresh.
    /// Every later one has a place to be opened at, and one that is opened fresh is announced by a
    /// resync at its start.
    pub open spec fn well_formed(self) -> bool {
        self.phase is Stopped || {
            &&& !self.reported ==> {
                &&& self.mode == OpenMode::Fresh
                &&& self.pending is None
                &&& !(self.phase is Polling)
            }
            &&& self.reported ==> self.checkpoint is Some
            &&& self.reported && !(self.phase is Polling) && self.mode == OpenMode::Fresh
                ==> self.pending == Some(PendingResync::FreshBoundary)
            &&& self.pending == Some(PendingResync::FreshBoundary) ==> self.mode == OpenMode::Fresh
            &&& self.phase is Polling ==> self.pending is None
            &&& self.phase is Timing ==> self.mode == OpenMode::Fresh
            &&& self.phase matches StreamPhase::Opening(checkpoint) ==> {
                &&& self.checkpoint == Some(checkpoint)
                &&& self.mode == OpenMode::Fresh ==> checkpoint is OperationTime
            }
        }
    }

    /// Whether an input is what the task waits for.
    pub open spec fn accepts(self, input: StreamInputView) -> bool {
        match (self.phase, input) {
            (StreamPhase::Waiting, StreamInputView::Begin) => true,
            (StreamPhase::Timing, StreamInputView::OperationTime(_)) => true,
            (StreamPhase::Timing, StreamInputView::Failed(_)) => true,
            (StreamPhase::Opening(_), StreamInputView::Opened) => true,
            (StreamPhase::Opening(_), StreamInputView::Failed(_)) => true,
            (StreamPhase::Polling, StreamInputView::Polled(_, _)) => true,
            _ => false,
        }
    }

    /// The stream is opened at a place.
    pub open spec fn open_at(self, checkpoint: StreamCheckpoint) -> (TaskView, StreamStepView) {
        (
            TaskView { phase: StreamPhase::Opening(checkpoint), ..self },
            quietly(StreamActionView::Open(checkpoint.options(self.full_document))),
        )
    }

    /// The stream is opened: at the place that was kept, if it may be and there is one, and
    /// otherwise at the present operation time.
    pub open spec fn open(self) -> (TaskView, StreamStepView) {
        match (self.mode, self.checkpoint) {
            (OpenMode::StoredCheckpoint, Some(checkpoint)) => self.open_at(checkpoint),
            _ => (
                TaskView { phase: StreamPhase::Timing, ..self },
                quietly(StreamActionView::CaptureOperationTime),
            ),
        }
    }

    /// The server reported its operation time, which is kept, and the stream is opened there.
    pub open spec fn on_operation_time(self, timestamp: Option<Timestamp>) -> (
        TaskView,
        StreamStepView,
    ) {
        match timestamp {
            Some(timestamp) => {
                let checkpoint = StreamCheckpoint::OperationTime(timestamp);
                TaskView { checkpoint: Some(checkpoint), ..self }.open_at(checkpoint)
            },
            None => self.on_failed(no_operation_time()),
        }
    }

    /// The stream cannot pick up where it was: it is opened fresh, and the cursors are told.
    pub open spec fn afresh(self) -> TaskView {
        TaskView {
            mode: OpenMode::Fresh,
            pending: Some(PendingResync::FreshBoundary),
            ..self
        }
    }

    /// The stream could not be opened. The first one is given up, and that is reported. A later
    /// one is tried again after a while, and afresh if it cannot pick up where it was.
    pub open spec fn on_failed(self, failure: FailureView) -> (TaskView, StreamStepView) {
        if !self.reported {
            (
                TaskView { phase: StreamPhase::Stopped, reported: true, ..self },
                StreamStepView {
                    ready: Some(Err(failure.text)),
                    broadcast: None,
                    action: StreamActionView::Stop(failure.text),
                },
            )
        } else {
            let next = if self.mode == OpenMode::StoredCheckpoint
                && failure.kind.requires_fresh_recovery() {
                self.afresh()
            } else {
                self
            };
            (
                TaskView { phase: StreamPhase::Waiting, ..next },
                quietly(StreamActionView::Sleep(RECOVERY_RETRY_DELAY_MS)),
            )
        }
    }

    /// The stream is open. The start of the first one is reported on, with its operation time. The
    /// cursors are told what they have to be told. Then the stream is followed.
    pub open spec fn on_opened(self, checkpoint: StreamCheckpoint) -> (TaskView, StreamStepView) {
        if !self.reported && checkpoint.time() is None {
            (
                TaskView { phase: StreamPhase::Stopped, reported: true, ..self },
                quietly(StreamActionView::Stop(no_start_time())),
            )
        } else {
            (
                TaskView { pending: None, phase: StreamPhase::Polling, reported: true, ..self },
                StreamStepView {
                    ready: if self.reported {
                        None
                    } else {
                        Some(Ok(checkpoint.time()->0))
                    },
                    broadcast: match self.pending {
                        Some(PendingResync::FreshBoundary) => Some(
                            Event::Resync(checkpoint.time()),
                        ),
                        Some(PendingResync::StoredCheckpoint) => Some(Event::Resync(None)),
                        None => None,
                    },
                    action: StreamActionView::Poll,
                },
            )
        }
    }

    /// The stream reported something. Its place is kept first. An event goes to the cursors. At its
    /// end, by invalidation, by a failure or otherwise, the stream is opened again.
    pub open spec fn on_polled(self, polled: PolledView, token: Option<ResumeToken>) -> (
        TaskView,
        StreamStepView,
    ) {
        let task = TaskView { checkpoint: moved(self.checkpoint, token), ..self };
        match polled {
            PolledView::Change(change) => match classified(change) {
                BufferedChange::Event(event) => (
                    task,
                    StreamStepView {
                        ready: None,
                        broadcast: Some(event),
                        action: StreamActionView::Poll,
                    },
                ),
                BufferedChange::Invalidate => if token is Some {
                    TaskView {
                        checkpoint: invalidated(task.checkpoint, token),
                        mode: OpenMode::StoredCheckpoint,
                        pending: Some(PendingResync::StoredCheckpoint),
                        ..task
                    }.open()
                } else {
                    task.afresh().open()
                },
                BufferedChange::Ignore => (task, quietly(StreamActionView::Poll)),
            },
            PolledView::Quiet(alive) => if alive {
                (task, quietly(StreamActionView::Poll))
            } else {
                TaskView { mode: OpenMode::StoredCheckpoint, ..task }.open()
            },
            PolledView::Failed(kind) => if kind.requires_fresh_recovery() {
                task.afresh().open()
            } else {
                TaskView { mode: OpenMode::StoredCheckpoint, ..task }.open()
            },
        }
    }

    /// What the task does with an input that it waits for.
    pub open spec fn advanced(self, input: StreamInputView) -> (TaskView, StreamStepView) {
        match (self.phase, input) {
            (StreamPhase::Waiting, StreamInputView::Begin) => self.open(),
            (
                StreamPhase::Timing,
                StreamInputView::OperationTime(timestamp),
            ) => self.on_operation_time(timestamp),
            (StreamPhase::Timing, StreamInputView::Failed(failure)) => self.on_failed(failure),
            (StreamPhase::Opening(checkpoint), StreamInputView::Opened) => self.on_opened(
                checkpoint,
            ),
            (StreamPhase::Opening(_), StreamInputView::Failed(failure)) => self.on_failed(failure),
            (StreamPhase::Polling, StreamInputView::Polled(polled, token)) => self.on_polled(
                polled,
                token,
            ),
            _ => (self, quietly(StreamActionView::Poll)),
        }
    }
}

/// A step that says nothing.
fn quiet_step(action: StreamAction) -> (step: StreamStep)
    ensures
        step@ == quietly(action@),
{
    StreamStep { ready: None, broadcast: None, action }
}

impl StreamTask {
    /// A task that has not begun.
    pub fn new(full_document: Option<FullDocumentType>) -> (task: Self)
        ensures
            task@ == TaskView::initial(full_document),
            task@.well_formed(),
    {
        StreamTask {
            checkpoint: StreamCheckpointState::default(),
            full_document,
            next_open_mode: OpenMode::Fresh,
            pending_resync: None,
            phase: StreamPhase::Waiting,
            reported: false,
        }
    }

    /// Whether an input is what the task waits for.
    pub fn accepts(&self, input: &StreamInput) -> (accepted: bool)
        ensures
            accepted == self@.accepts(input@),
    {
        match (&self.phase, input) {
            (StreamPhase::Waiting, StreamInput::Begin) => true,
            (StreamPhase::Timing, StreamInput::OperationTime(_)) => true,
            (StreamPhase::Timing, StreamInput::Failed(_)) => true,
            (StreamPhase::Opening(_), StreamInput::Opened) => true,
            (StreamPhase::Opening(_), StreamInput::Failed(_)) => true,
            (StreamPhase::Polling, StreamInput::Polled(_, _)) => true,
            _ => false,
        }
    }

    /// Opens the stream at a place.
    fn open_at(&mut self, checkpoint: StreamCheckpoint) -> (step: StreamStep)
        ensures
            (final(self)@, step@) == old(self)@.open_at(checkpoint),
    {
        let full_document = match &self.full_document {
            Some(full_document) => Some(full_document.clone()),
            None => None,
        };
        let options = checkpoint.clone().into_options(full_document);
        self.phase = StreamPhase::Opening(checkpoint);
        quiet_step(StreamAction::Open(options))
    }

    /// Opens the stream.
    fn open(&mut self) -> (step: StreamStep)
        ensures
            (final(self)@, step@) == old(self)@.open(),
    {
        if self.next_open_mode == OpenMode::StoredCheckpoint {
            if let Some(checkpoint) = self.checkpoint.checkpoint() {
                return self.open_at(checkpoint);
            }
        }
        self.phase = StreamPhase::Timing;
        quiet_step(StreamAction::CaptureOperationTime)
    }

    /// Has the stream opened fresh, and the cursors told.
    fn afresh(&mut self)
        ensures
            final(self)@ == old(self)@.afresh(),
    {
        self.next_open_mode = OpenMode::Fresh;
        self.pending_resync = Some(PendingResync::FreshBoundary);
    }

    /// The stream could not be opened.
    fn failed(&mut self, failure: Failure) -> (step: StreamStep)
        ensures
            (final(self)@, step@) == old(self)@.on_failed(failure@),
    {
        if !self.reported {
            self.reported = true;
            self.phase = StreamPhase::Stopped;
            return StreamStep {
                ready: Some(Err(failure.text.clone())),
                broadcast: None,
                action: StreamAction::Stop(failure.text),
            };
        }
        if self.next_open_mode == OpenMode::StoredCheckpoint && requires_fresh_recovery(
            &failure.kind,
        ) {
            self.afresh();
        }
        self.phase = StreamPhase::Waiting;
        quiet_step(StreamAction::Sleep(RECOVERY_RETRY_DELAY_MS))
    }

    /// The server reported its operation time, if it did.
    fn operation_time(&mut self, timestamp: Option<Timestamp>) -> (step: StreamStep)
        ensures
            (final(self)@, step@) == old(self)@.on_operation_time(timestamp),
    {
        match timestamp {
            Some(timestamp) => {
                let checkpoint = StreamCheckpoint::OperationTime(timestamp);
                self.checkpoint.set_checkpoint(checkpoint.clone());
                self.open_at(checkpoint)
            },
            None => self.failed(
                Failure {
                    kind: FailureKind::Other,
                    text: "MongoDB session did not report an operation time".to_owned(),
                },
            ),
        }
    }

    /// The stream is open.
    fn opened(&mut self, checkpoint: StreamCheckpoint) -> (step: StreamStep)
        ensures
            (final(self)@, step@) == old(self)@.on_opened(checkpoint),
    {
        let start_at_operation_time = checkpoint.start_at_operation_time();
        let mut ready: Option<Result<Timestamp, String>> = None;
        if !self.reported {
            self.reported = true;
            match start_at_operation_time {
                Some(timestamp) => {
                    ready = Some(Ok(timestamp));
                },
                None => {
                    self.phase = StreamPhase::Stopped;
                    return quiet_step(
                        StreamAction::Stop(
                            "change stream startup did not capture an operation time".to_owned(),
                        ),
                    );
                },
            }
        }
        let broadcast = match self.pending_resync.take() {
            Some(PendingResync::FreshBoundary) => Some(Event::Resync(start_at_operation_time)),
            Some(PendingResync::StoredCheckpoint) => Some(Event::Resync(None)),
            None => None,
        };
        self.phase = StreamPhase::Polling;
        StreamStep { ready, broadcast, action: StreamAction::Poll }
    }

    /// The stream reported something.
    fn polled(&mut self, polled: Polled, resume_token: Option<ResumeToken>) -> (step: StreamStep)
        ensures
            (final(self)@, step@) == old(self)@.on_polled(polled@, resume_token),
    {
        let token = match &resume_token {
            Some(token) => Some(token.clone()),
            None => None,
        };
        self.checkpoint.update_resume_token(token);
        match polled {
            Polled::Change(change) => match classify_change_event(change) {
                BufferedChange::Event(event) => StreamStep {
                    ready: None,
                    broadcast: Some(event),
                    action: StreamAction::Poll,
                },
                BufferedChange::Invalidate => {
                    if self.checkpoint.mark_invalidated(resume_token) {
                        self.next_open_mode = OpenMode::StoredCheckpoint;
                        self.pending_resync = Some(PendingResync::StoredCheckpoint);
                    } else {
                        self.afresh();
                    }
                    self.open()
                },
                BufferedChange::Ignore => quiet_step(StreamAction::Poll),
            },
            Polled::Quiet(alive) => {
                if alive {
                    quiet_step(StreamAction::Poll)
                } else {
                    self.next_open_mode = OpenMode::StoredCheckpoint;
                    self.open()
                }
            },
            Polled::Failed(kind) => {
                self.next_open_mode = OpenMode::StoredCheckpoint;
                if requires_fresh_recovery(&kind) {
                    self.afresh();
                }
                self.open()
            },
        }
    }

    /// Goes on with what came of the action before.
    pub fn advance(&mut self, input: StreamInput) -> (step: StreamStep)
        requires
            old(self)@.well_formed(),
            old(self)@.accepts(input@),
        ensures
            (final(self)@, step@) == old(self)@.advanced(input@),
            final(self)@.well_formed(),
    {
        let mut phase = StreamPhase::Polling;
        std::mem::swap(&mut phase, &mut self.phase);
        match (phase, input) {
            (StreamPhase::Waiting, StreamInput::Begin) => self.open(),
            (StreamPhase::Timing, StreamInput::OperationTime(timestamp)) => self.operation_time(
                timestamp,
            ),
            (StreamPhase::Opening(checkpoint), StreamInput::Opened) => self.opened(checkpoint),
            (_, StreamInput::Failed(failure)) => self.failed(failure),
            (_, StreamInput::Polled(polled, resume_token)) => self.polled(polled, resume_token),
            _ => quiet_step(StreamAction::Poll),
        }
    }
}

} // verus!
