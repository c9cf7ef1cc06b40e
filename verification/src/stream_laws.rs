//! What holds of a task that follows a change stream.
use vstd::prelude::*;

use bson::Timestamp;
use mongodb::change_stream::event::ResumeToken;
use mongodb::options::{ChangeStreamOptions, FullDocumentType};

use crate::checkpoint::{moved, StreamCheckpoint};
use crate::mongo::stream_options;
use crate::recovery::{Failure, FailureKind, FailureKindView, FailureView};
use crate::stream_task::{
    quietly, OpenMode, PendingResync, Polled, PolledView, StreamAction, StreamActionView,
    StreamInput, StreamInputView, StreamPhase, StreamStep, StreamStepView, TaskView,
    RECOVERY_RETRY_DELAY_MS,
};
use crate::watcher::{classified, BufferedChange, ChangeEvent, Event};

verus! {

/// What a task comes to that is handed inputs one after the other, and its steps.
pub open spec fn run(task: TaskView, inputs: Seq<StreamInputView>) -> (
    TaskView,
    Seq<StreamStepView>,
)
    decreases inputs.len(),
{
    if inputs.len() == 0 {
        (task, seq![])
    } else {
        let (next, step) = task.advanced(inputs[0]);
        let (end, steps) = run(next, inputs.drop_first());
        (end, seq![step] + steps)
    }
}

/// Whether a task waits for each of the inputs when it is handed it.
pub open spec fn all_accepted(task: TaskView, inputs: Seq<StreamInputView>) -> bool
    decreases inputs.len(),
{
    inputs.len() == 0 || {
        &&& task.accepts(inputs[0])
        &&& all_accepted(task.advanced(inputs[0]).0, inputs.drop_first())
    }
}

/// A task that goes on with an input stays well formed.
pub proof fn law_task_stays_well_formed(task: TaskView, input: StreamInputView)
    requires
        task.well_formed(),
        task.accepts(input),
    ensures
        task.advanced(input).0.well_formed(),
{
}

/// The first stream starts at the operation time that the server reports. That time is reported,
/// and the cursors are told nothing.
pub proof fn law_first_stream_starts_at_the_reported_time(
    full_document: Option<FullDocumentType>,
    time: Timestamp,
)
    ensures
        ({
            let task = TaskView::initial(full_document);
            let inputs = seq![
                StreamInputView::Begin,
                StreamInputView::OperationTime(Some(time)),
                StreamInputView::Opened,
            ];
            let checkpoint = StreamCheckpoint::OperationTime(time);
            &&& all_accepted(task, inputs)
            &&& run(task, inputs) == (
                TaskView {
                    checkpoint: Some(checkpoint),
                    phase: StreamPhase::Polling,
                    reported: true,
                    ..task
                },
                seq![
                    quietly(StreamActionView::CaptureOperationTime),
                    quietly(StreamActionView::Open(checkpoint.options(full_document))),
                    StreamStepView {
                        ready: Some(Ok(time)),
                        broadcast: None,
                        action: StreamActionView::Poll,
                    },
                ],
            )
        }),
{
    let task = TaskView::initial(full_document);
    let inputs = seq![
        StreamInputView::Begin,
        StreamInputView::OperationTime(Some(time)),
        StreamInputView::Opened,
    ];
    reveal_with_fuel(run, 4);
    reveal_with_fuel(all_accepted, 4);
    assert(inputs.drop_first() =~= seq![inputs[1], inputs[2]]);
    assert(inputs.drop_first().drop_first() =~= seq![inputs[2]]);
    assert(inputs.drop_first().drop_first().drop_first() =~= seq![]);
    assert(run(task, inputs).1 =~= seq![
        run(task, inputs).1[0],
        run(task, inputs).1[1],
        run(task, inputs).1[2],
    ]);
}

/// A task ends if and only if its first stream cannot be opened, and then it reports why. Nothing
/// can be handed to a task that has ended.
pub proof fn law_only_a_failed_start_ends_the_task(task: TaskView, input: StreamInputView)
    requires
        task.well_formed(),
        task.accepts(input),
    ensures
        task.advanced(input).0.phase is Stopped <==> task.advanced(input).1.action is Stop,
        task.advanced(input).1.action is Stop <==> !task.reported && (input is Failed || input
            == StreamInputView::OperationTime(None)),
        task.advanced(input).1.action matches StreamActionView::Stop(reason) ==> {
            &&& task.advanced(input).1.ready == Some(Err::<Timestamp, Seq<char>>(reason))
            &&& input matches StreamInputView::Failed(failure) ==> reason == failure.text
        },
        task.advanced(input).0.phase is Stopped ==> forall|next: StreamInputView|
            !(#[trigger] task.advanced(input).0.accepts(next)),
{
}

/// The start is reported on at most once, and the cursors hear of nothing before.
pub proof fn law_start_is_reported_on_once(task: TaskView, inputs: Seq<StreamInputView>)
    requires
        task.well_formed(),
        all_accepted(task, inputs),
    ensures
        ({
            let (end, steps) = run(task, inputs);
            &&& steps.len() == inputs.len()
            &&& task.reported ==> end.reported
            &&& task.reported ==> forall|i: int|
                0 <= i < steps.len() ==> (#[trigger] steps[i]).ready is None
            &&& forall|i: int, j: int|
                0 <= i < j < steps.len() && (#[trigger] steps[i]).ready is Some ==> (
                #[trigger] steps[j]).ready is None
            &&& forall|i: int, j: int|
                0 <= i <= j < steps.len() && (#[trigger] steps[j]).ready is Some ==> (
                #[trigger] steps[i]).broadcast is None
        }),
    decreases inputs.len(),
{
    if inputs.len() > 0 {
        let (next, step) = task.advanced(inputs[0]);
        let rest = run(next, inputs.drop_first());
        let steps = run(task, inputs).1;
        law_start_is_reported_on_once(next, inputs.drop_first());
        assert(steps =~= seq![step] + rest.1);
        assert forall|i: int| 0 < i < steps.len() implies #[trigger] steps[i] == rest.1[i - 1] by {}
    }
}

/// A task that has reported a start goes on for ever.
pub proof fn law_started_task_goes_on(task: TaskView, inputs: Seq<StreamInputView>)
    requires
        task.well_formed(),
        task.reported,
        !(task.phase is Stopped),
        all_accepted(task, inputs),
    ensures
        ({
            let (end, steps) = run(task, inputs);
            &&& !(end.phase is Stopped)
            &&& forall|i: int|
                0 <= i < steps.len() ==> !((#[trigger] steps[i]).action is Stop)
        }),
    decreases inputs.len(),
{
    if inputs.len() > 0 {
        let (next, step) = task.advanced(inputs[0]);
        let rest = run(next, inputs.drop_first());
        let steps = run(task, inputs).1;
        law_started_task_goes_on(next, inputs.drop_first());
        assert(steps =~= seq![step] + rest.1);
        assert forall|i: int| 0 < i < steps.len() implies #[trigger] steps[i] == rest.1[i - 1] by {}
    }
}

/// A stream that is opened again either picks up at the place that was kept, or starts at an
/// operation time and the cursors are told to read their documents as they are then or later.
pub proof fn law_stream_resumes_or_resyncs(task: TaskView)
    requires
        task.well_formed(),
        task.reported,
        task.phase is Opening,
    ensures
        ({
            let place = task.phase->Opening_0;
            let broadcast = task.advanced(StreamInputView::Opened).1.broadcast;
            &&& Some(place) == task.checkpoint
            &&& task.mode == OpenMode::StoredCheckpoint || {
                &&& place is OperationTime
                &&& broadcast == Some(Event::Resync(Some(place->OperationTime_0)))
            }
        }),
{
}

/// A stream that is opened afresh starts at the operation time that the server reports, and that
/// is the time that the cursors are told.
pub proof fn law_fresh_stream_is_announced_with_its_start(task: TaskView, time: Timestamp)
    requires
        task.well_formed(),
        task.reported,
        task.phase is Timing,
    ensures
        ({
            let checkpoint = StreamCheckpoint::OperationTime(time);
            let (opening, open) = task.advanced(StreamInputView::OperationTime(Some(time)));
            let (polling, opened) = opening.advanced(StreamInputView::Opened);
            &&& open == quietly(StreamActionView::Open(checkpoint.options(task.full_document)))
            &&& opened == (StreamStepView {
                ready: None,
                broadcast: Some(Event::Resync(Some(time))),
                action: StreamActionView::Poll,
            })
            &&& polling == (TaskView {
                checkpoint: Some(checkpoint),
                pending: None,
                phase: StreamPhase::Polling,
                ..task
            })
        }),
{
}

/// What the cursors have to be told stays pending until they are told.
pub proof fn law_pending_resync_is_kept(task: TaskView, input: StreamInputView)
    requires
        task.well_formed(),
        task.accepts(input),
        task.pending is Some,
    ensures
        task.advanced(input).0.pending is Some || task.advanced(input).1.broadcast matches Some(
            Event::Resync(_),
        ),
{
}

/// A stream that ends, or fails in a way that it can recover from, picks up at the place that it
/// had come to, and the cursors are told nothing.
pub proof fn law_ended_stream_picks_up(
    task: TaskView,
    polled: PolledView,
    token: Option<ResumeToken>,
)
    requires
        task.well_formed(),
        task.phase is Polling,
        polled == PolledView::Quiet(false) || (polled matches PolledView::Failed(kind)
            && !kind.requires_fresh_recovery()),
    ensures
        ({
            let place = moved(task.checkpoint, token);
            let (opening, open) = task.advanced(StreamInputView::Polled(polled, token));
            let (polling, opened) = opening.advanced(StreamInputView::Opened);
            &&& place is Some
            &&& open == quietly(StreamActionView::Open((place->0).options(task.full_document)))
            &&& opened == quietly(StreamActionView::Poll)
            &&& polling == (TaskView {
                checkpoint: place,
                mode: OpenMode::StoredCheckpoint,
                ..task
            })
        }),
{
}

/// A stream that fails beyond recovery is opened afresh.
pub proof fn law_lost_stream_is_opened_afresh(
    task: TaskView,
    kind: FailureKindView,
    token: Option<ResumeToken>,
)
    requires
        task.well_formed(),
        task.phase is Polling,
        kind.requires_fresh_recovery(),
    ensures
        ({
            let (timing, step) = task.advanced(
                StreamInputView::Polled(PolledView::Failed(kind), token),
            );
            &&& step == quietly(StreamActionView::CaptureOperationTime)
            &&& timing.phase is Timing
            &&& timing.pending == Some(PendingResync::FreshBoundary)
        }),
{
}

/// After an invalidation the stream starts behind it and the cursors are told to read their
/// documents again. If the place of the invalidation is not known, the stream is opened afresh.
pub proof fn law_invalidated_stream_starts_after(
    task: TaskView,
    change: ChangeEvent,
    token: Option<ResumeToken>,
)
    requires
        task.well_formed(),
        task.phase is Polling,
        classified(change) is Invalidate,
    ensures
        ({
            let (opening, open) = task.advanced(
                StreamInputView::Polled(PolledView::Change(change), token),
            );
            let (polling, opened) = opening.advanced(StreamInputView::Opened);
            match token {
                Some(token) => {
                    let place = StreamCheckpoint::StartAfter(token);
                    &&& open == quietly(
                        StreamActionView::Open(place.options(task.full_document)),
                    )
                    &&& opened == (StreamStepView {
                        ready: None,
                        broadcast: Some(Event::Resync(None)),
                        action: StreamActionView::Poll,
                    })
                    &&& polling == (TaskView {
                        checkpoint: Some(place),
                        mode: OpenMode::StoredCheckpoint,
                        ..task
                    })
                },
                None => {
                    &&& open == quietly(StreamActionView::CaptureOperationTime)
                    &&& opening.phase is Timing
                    &&& opening.pending == Some(PendingResync::FreshBoundary)
                },
            }
        }),
{
}

/// A stream that could not be opened again is tried once more after a while: afresh, if it cannot
/// pick up where it was, and otherwise as before.
pub proof fn law_failed_reopening_is_tried_again(task: TaskView, failure: FailureView)
    requires
        task.well_formed(),
        task.reported,
        task.accepts(StreamInputView::Failed(failure)),
    ensures
        ({
            let (waiting, sleep) = task.advanced(StreamInputView::Failed(failure));
            let (trying, again) = waiting.advanced(StreamInputView::Begin);
            &&& sleep == quietly(StreamActionView::Sleep(RECOVERY_RETRY_DELAY_MS))
            &&& if task.mode == OpenMode::Fresh || failure.kind.requires_fresh_recovery() {
                &&& again == quietly(StreamActionView::CaptureOperationTime)
                &&& trying.pending == Some(PendingResync::FreshBoundary)
            } else {
                &&& again == quietly(
                    StreamActionView::Open((task.checkpoint->0).options(task.full_document)),
                )
                &&& trying.pending == task.pending
            }
        }),
{
}

/// What a stream reports that hands out changes, each with the token that it has come to.
pub open spec fn change_inputs(
    changes: Seq<(ChangeEvent, Option<ResumeToken>)>,
) -> Seq<StreamInputView> {
    changes.map_values(
        |change: (ChangeEvent, Option<ResumeToken>)|
            StreamInputView::Polled(PolledView::Change(change.0), change.1),
    )
}

/// The events that changes stand for, in their order.
pub open spec fn events_of(changes: Seq<(ChangeEvent, Option<ResumeToken>)>) -> Seq<Event>
    decreases changes.len(),
{
    if changes.len() == 0 {
        seq![]
    } else {
        let rest = events_of(changes.drop_first());
        match classified(changes[0].0) {
            BufferedChange::Event(event) => seq![event] + rest,
            _ => rest,
        }
    }
}

/// The place that a stream comes to that hands out changes.
pub open spec fn place_after(
    place: Option<StreamCheckpoint>,
    changes: Seq<(ChangeEvent, Option<ResumeToken>)>,
) -> Option<StreamCheckpoint>
    decreases changes.len(),
{
    if changes.len() == 0 {
        place
    } else {
        place_after(moved(place, changes[0].1), changes.drop_first())
    }
}

/// What the cursors hear of, in its order.
pub open spec fn broadcasts(steps: Seq<StreamStepView>) -> Seq<Event>
    decreases steps.len(),
{
    if steps.len() == 0 {
        seq![]
    } else {
        let rest = broadcasts(steps.drop_first());
        match steps[0].broadcast {
            Some(event) => seq![event] + rest,
            None => rest,
        }
    }
}

/// The cursors hear of the changes that a stream hands out, all of them and in their order, and
/// the stream's place is kept as it moves.
pub proof fn law_changes_are_passed_on_in_order(
    task: TaskView,
    changes: Seq<(ChangeEvent, Option<ResumeToken>)>,
)
    requires
        task.phase is Polling,
        forall|i: int|
            0 <= i < changes.len() ==> !(classified((#[trigger] changes[i]).0) is Invalidate),
    ensures
        all_accepted(task, change_inputs(changes)),
        run(task, change_inputs(changes)).0 == (TaskView {
            checkpoint: place_after(task.checkpoint, changes),
            ..task
        }),
        broadcasts(run(task, change_inputs(changes)).1) == events_of(changes),
    decreases changes.len(),
{
    let inputs = change_inputs(changes);
    if changes.len() > 0 {
        assert(!(classified(changes[0].0) is Invalidate));
        let (next, step) = task.advanced(inputs[0]);
        let rest = changes.drop_first();
        assert(inputs.drop_first() =~= change_inputs(rest));
        assert forall|i: int| 0 <= i < rest.len() implies !(classified(
            (#[trigger] rest[i]).0,
        ) is Invalidate) by {
            assert(!(classified(changes[i + 1].0) is Invalidate));
        }
        law_changes_are_passed_on_in_order(next, rest);
        let steps = run(task, inputs).1;
        assert(steps[0] == step);
        assert(steps.drop_first() =~= run(next, change_inputs(rest)).1);
    }
}

/// A task that has not begun knows no place, has nothing to tell and has reported nothing.
pub proof fn law_new_task_knows_nothing(full_document: Option<FullDocumentType>)
    ensures
        ({
            let task = TaskView::initial(full_document);
            &&& task.full_document == full_document
            &&& task.checkpoint is None
            &&& task.pending is None
            &&& task.phase is Waiting
            &&& !task.reported
            &&& task.well_formed()
        }),
{
}

/// Whether an action asks for what a task waits for.
pub open spec fn asks(action: StreamActionView, task: TaskView) -> bool {
    match task.phase {
        StreamPhase::Waiting => action == StreamActionView::Sleep(500),
        StreamPhase::Timing => action is CaptureOperationTime,
        StreamPhase::Opening(StreamCheckpoint::OperationTime(time)) => action
            == StreamActionView::Open(stream_options(task.full_document, Some(time), None, None)),
        StreamPhase::Opening(StreamCheckpoint::ResumeAfter(token)) => action
            == StreamActionView::Open(stream_options(task.full_document, None, Some(token), None)),
        StreamPhase::Opening(StreamCheckpoint::StartAfter(token)) => action
            == StreamActionView::Open(stream_options(task.full_document, None, None, Some(token))),
        StreamPhase::Polling => action is Poll,
        StreamPhase::Stopped => action is Stop,
    }
}

/// Whatever a task is handed, its action asks for what it waits for next: the stream is opened at
/// the place that the task is at, and its updates always carry their document as they were told to
/// at the start.
pub proof fn law_task_asks_for_what_it_waits_for(task: TaskView, input: StreamInputView)
    requires
        task.accepts(input),
    ensures
        asks(task.advanced(input).1.action, task.advanced(input).0),
        task.advanced(input).0.full_document == task.full_document,
{
}

/// A task takes exactly what can come of its action: the time for another try, the operation time,
/// the open stream, what the stream reports, and a failure where it asked for a time or a stream.
pub proof fn law_task_takes_what_it_asked_for(
    task: TaskView,
    action: StreamActionView,
    input: StreamInputView,
)
    requires
        asks(action, task),
    ensures
        task.accepts(input) <==> match action {
            StreamActionView::Sleep(_) => input is Begin,
            StreamActionView::CaptureOperationTime => input is OperationTime || input is Failed,
            StreamActionView::Open(_) => input is Opened || input is Failed,
            StreamActionView::Poll => input is Polled,
            StreamActionView::Stop(_) => false,
        },
{
}

/// When it is time to open the stream, a task whose stream may pick up opens it at its place, and
/// any other asks for the operation time. Nothing else changes.
pub proof fn law_stream_is_opened_where_it_may(task: TaskView)
    requires
        task.well_formed(),
        task.phase is Waiting,
    ensures
        ({
            let (next, step) = task.advanced(StreamInputView::Begin);
            &&& step.ready is None
            &&& step.broadcast is None
            &&& next == (TaskView { phase: next.phase, ..task })
            &&& task.mode is Fresh ==> next.phase is Timing
            &&& task.mode is StoredCheckpoint ==> next.phase == StreamPhase::Opening(
                task.checkpoint->0,
            )
        }),
{
}

/// The operation time becomes the place of the task, and the stream is opened there.
pub proof fn law_operation_time_is_the_place(task: TaskView, time: Timestamp)
    requires
        task.phase is Timing,
    ensures
        ({
            let (next, step) = task.advanced(StreamInputView::OperationTime(Some(time)));
            let place = StreamCheckpoint::OperationTime(time);
            &&& step.ready is None
            &&& step.broadcast is None
            &&& next == (TaskView {
                checkpoint: Some(place),
                phase: StreamPhase::Opening(place),
                ..task
            })
        }),
{
}

/// A server that reports no operation time is taken for one that cannot be reached.
pub proof fn law_missing_operation_time_is_a_failure(task: TaskView)
    requires
        task.well_formed(),
        task.phase is Timing,
    ensures
        ({
            let (next, step) = task.advanced(StreamInputView::OperationTime(None));
            let text = "MongoDB session did not report an operation time"@;
            &&& step.broadcast is None
            &&& !task.reported ==> {
                &&& step.ready == Some(Err::<Timestamp, Seq<char>>(text))
                &&& step.action == StreamActionView::Stop(text)
                &&& next.phase is Stopped
            }
            &&& task.reported ==> {
                &&& step == quietly(StreamActionView::Sleep(500))
                &&& next == (TaskView { phase: StreamPhase::Waiting, ..task })
            }
        }),
{
}

/// A stream that is open is followed, its start is reported if that has not been done, and nothing
/// is left to tell. Nothing else changes.
pub proof fn law_open_stream_is_followed(task: TaskView, place: StreamCheckpoint)
    requires
        task.well_formed(),
        task.phase == StreamPhase::Opening(place),
    ensures
        ({
            let (next, step) = task.advanced(StreamInputView::Opened);
            &&& step.action is Poll
            &&& next == (TaskView {
                pending: None,
                phase: StreamPhase::Polling,
                reported: true,
                ..task
            })
            &&& task.reported ==> step.ready is None
            &&& !task.reported ==> {
                &&& step.ready matches Some(Ok(time))
                &&& place == StreamCheckpoint::OperationTime(time)
            }
            &&& task.pending is None ==> step.broadcast is None
            &&& task.pending == Some(PendingResync::StoredCheckpoint) ==> step.broadcast == Some(
                Event::Resync(None),
            )
            &&& task.pending == Some(PendingResync::FreshBoundary) ==> {
                &&& step.broadcast matches Some(Event::Resync(Some(time)))
                &&& place == StreamCheckpoint::OperationTime(time)
            }
        }),
{
}

/// The cursors hear of an event exactly if the stream reports a change that comes to it. They hear
/// of a resync only when the stream is open again and one is pending.
pub proof fn law_cursors_hear_of_changes_alone(task: TaskView, input: StreamInputView, event: Event)
    requires
        task.accepts(input),
    ensures
        !(event is Resync) ==> (task.advanced(input).1.broadcast == Some(event) <==> (input matches
            StreamInputView::Polled(PolledView::Change(change), _) && classified(change)
            == BufferedChange::Event(event))),
        event is Resync && task.advanced(input).1.broadcast == Some(event) ==> input is Opened
            && task.pending is Some,
{
    if let StreamInputView::Polled(PolledView::Change(change), _) = input {
        if let BufferedChange::Event(found) = classified(change) {
            assert(!(found is Resync));
        }
    }
}

/// The start is reported as a success exactly when the first stream is open.
pub proof fn law_success_is_reported_when_the_first_stream_is_open(
    task: TaskView,
    input: StreamInputView,
)
    requires
        task.well_formed(),
        task.accepts(input),
    ensures
        task.advanced(input).1.ready matches Some(Ok(_)) <==> !task.reported && input is Opened,
        task.advanced(input).1.ready matches Some(Err(_)) <==> (task.advanced(
            input,
        ).1.action is Stop),
{
}

/// Whatever a stream reports, its place follows its token: behind it, or for another stream to
/// start after it if the stream was invalidated. Without a token the place stays.
pub proof fn law_place_follows_the_token(
    task: TaskView,
    polled: PolledView,
    token: Option<ResumeToken>,
)
    requires
        task.phase is Polling,
    ensures
        ({
            let place = task.advanced(StreamInputView::Polled(polled, token)).0.checkpoint;
            &&& token is None ==> place == task.checkpoint
            &&& token matches Some(token) ==> place == if polled matches PolledView::Change(change)
                && change.operation_type is Invalidate {
                Some(StreamCheckpoint::StartAfter(token))
            } else {
                Some(StreamCheckpoint::ResumeAfter(token))
            }
        }),
{
}

/// A stream that is alive, and reports no change or one that comes to no end of it, is asked again.
/// But for its place nothing changes.
pub proof fn law_live_stream_is_asked_again(
    task: TaskView,
    polled: PolledView,
    token: Option<ResumeToken>,
)
    requires
        task.phase is Polling,
        polled == PolledView::Quiet(true) || (polled matches PolledView::Change(change)
            && !(change.operation_type is Invalidate)),
    ensures
        ({
            let (next, step) = task.advanced(StreamInputView::Polled(polled, token));
            &&& step.action is Poll
            &&& step.ready is None
            &&& next == (TaskView { checkpoint: next.checkpoint, ..task })
            &&& polled is Quiet ==> step.broadcast is None
        }),
{
}

/// A reopening that failed leaves the place and the report as they are. It waits for half a second.
pub proof fn law_failed_reopening_keeps_the_place(task: TaskView, failure: FailureView)
    requires
        task.well_formed(),
        task.reported,
        task.accepts(StreamInputView::Failed(failure)),
    ensures
        ({
            let (next, step) = task.advanced(StreamInputView::Failed(failure));
            &&& step == quietly(StreamActionView::Sleep(500))
            &&& next.checkpoint == task.checkpoint
            &&& next.reported
            &&& next.phase is Waiting
            &&& if failure.kind.requires_fresh_recovery() || task.mode is Fresh {
                &&& next.mode is Fresh
                &&& next.pending == Some(PendingResync::FreshBoundary)
            } else {
                &&& next.mode is StoredCheckpoint
                &&& next.pending == task.pending
            }
        }),
{
}

/// The view of an input or a step of a task is the thing itself, with its texts as characters.
pub proof fn law_step_is_seen_as_it_is(
    step: StreamStep,
    polled: Polled,
    token: Option<ResumeToken>,
    time: Option<Timestamp>,
    failure: Failure,
    change: ChangeEvent,
    alive: bool,
    kind: FailureKind,
    options: ChangeStreamOptions,
    milliseconds: u64,
    reason: String,
)
    ensures
        step@.broadcast == step.broadcast,
        step@.action == step.action@,
        step.ready is None ==> step@.ready is None,
        step.ready matches Some(Ok(time)) ==> step@.ready == Some(Ok::<Timestamp, Seq<char>>(time)),
        step.ready matches Some(Err(text)) ==> step@.ready == Some(
            Err::<Timestamp, Seq<char>>(text@),
        ),
        Polled::Change(change)@ == PolledView::Change(change),
        Polled::Quiet(alive)@ == PolledView::Quiet(alive),
        Polled::Failed(kind)@ == PolledView::Failed(kind@),
        StreamInput::Begin@ is Begin,
        StreamInput::OperationTime(time)@ == StreamInputView::OperationTime(time),
        StreamInput::Failed(failure)@ == StreamInputView::Failed(failure@),
        StreamInput::Opened@ is Opened,
        StreamInput::Polled(polled, token)@ == StreamInputView::Polled(polled@, token),
        StreamAction::CaptureOperationTime@ is CaptureOperationTime,
        StreamAction::Open(options)@ == StreamActionView::Open(options),
        StreamAction::Sleep(milliseconds)@ == StreamActionView::Sleep(milliseconds),
        StreamAction::Poll@ is Poll,
        StreamAction::Stop(reason)@ == StreamActionView::Stop(reason@),
{
}

} // verus!
