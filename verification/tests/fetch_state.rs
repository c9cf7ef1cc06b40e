use ddp_router::cursor::fetch_state::{FetchPhase, FetchState};
use ddp_router::watcher::Event;

#[test]
fn fetch_state_tracks_query_replay_steady_transitions() {
    let mut fetch_state = FetchState::default();
    assert_eq!(fetch_state.phase, FetchPhase::Steady);

    fetch_state.start_querying();
    fetch_state.buffer(Event::Clear);
    assert_eq!(fetch_state.phase, FetchPhase::Querying);
    assert_eq!(fetch_state.buffered_events.len(), 1);

    fetch_state.start_replay();
    assert_eq!(fetch_state.phase, FetchPhase::Replaying);

    assert_eq!(fetch_state.take_buffered(), vec![Event::Clear]);
    fetch_state.finish_steady();
    assert_eq!(fetch_state.phase, FetchPhase::Steady);
}

#[test]
fn fetch_state_restart_clears_buffer() {
    let mut fetch_state = FetchState::default();
    fetch_state.start_querying();
    fetch_state.buffer(Event::Clear);
    fetch_state.start_querying();

    assert_eq!(fetch_state.phase, FetchPhase::Querying);
    assert!(fetch_state.buffered_events.is_empty());
}

#[test]
fn buffered_events_are_taken_once_and_in_order() {
    let mut fetch_state = FetchState::default();
    fetch_state.buffer(Event::Clear);
    fetch_state.buffer(Event::Resync(None));

    assert_eq!(fetch_state.take_buffered(), vec![Event::Clear, Event::Resync(None)]);
    assert!(fetch_state.take_buffered().is_empty());
}

#[test]
fn clearing_the_buffer_keeps_the_phase() {
    let mut fetch_state = FetchState::default();
    fetch_state.start_querying();
    fetch_state.buffer(Event::Clear);
    fetch_state.clear();

    assert_eq!(fetch_state.phase, FetchPhase::Querying);
    assert!(fetch_state.buffered_events.is_empty());
}
