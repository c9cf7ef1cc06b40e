//! How far a cursor has come with fetching its documents.
use vstd::prelude::*;

use crate::watcher::Event;

verus! {

/// What a cursor does with its documents.
#[derive(Clone, Copy, Debug, PartialEq, Eq, Structural)]
pub enum FetchPhase {
    /// They are being fetched.
    Querying,
    /// The events that came in meanwhile are being replayed.
    Replaying,
    /// They are up to date.
    Steady,
}

/// The phase and the events that wait to be replayed.
#[derive(Debug)]
pub struct FetchState {
    /// The events that came in while the documents were fetched, in their order.
    pub buffered_events: Vec<Event>,
    /// The phase.
    pub phase: FetchPhase,
}

impl Default for FetchState {
    fn default() -> (state: Self)
        ensures
            state.buffered_events@ == Seq::<Event>::empty(),
            state.phase == FetchPhase::Steady,
    {
        FetchState { buffered_events: Vec::new(), phase: FetchPhase::Steady }
    }
}

impl FetchState {
    /// Keeps an event for the replay.
    pub fn buffer(&mut self, event: Event)
        ensures
            final(self).buffered_events@ == old(self).buffered_events@.push(event),
            final(self).phase == old(self).phase,
    {
        self.buffered_events.push(event);
    }

    /// Forgets the events that were kept.
    pub fn clear(&mut self)
        ensures
            final(self).buffered_events@ == Seq::<Event>::empty(),
            final(self).phase == old(self).phase,
    {
        self.buffered_events.clear();
    }

    /// The documents are up to date.
    pub fn finish_steady(&mut self)
        ensures
            final(self).buffered_events == old(self).buffered_events,
            final(self).phase == FetchPhase::Steady,
    {
        self.phase = FetchPhase::Steady;
    }

    /// The documents are fetched from here on, with nothing kept from before.
    pub fn start_querying(&mut self)
        ensures
            final(self).buffered_events@ == Seq::<Event>::empty(),
            final(self).phase == FetchPhase::Querying,
    {
        self.buffered_events.clear();
        self.phase = FetchPhase::Querying;
    }

    /// The events that were kept are replayed from here on.
    pub fn start_replay(&mut self)
        ensures
            final(self).buffered_events == old(self).buffered_events,
            final(self).phase == FetchPhase::Replaying,
    {
        self.phase = FetchPhase::Replaying;
    }

    /// Hands out the events that were kept, in their order, and keeps none.
    pub fn take_buffered(&mut self) -> (events: Vec<Event>)
        ensures
            events == old(self).buffered_events,
            final(self).buffered_events@ == Seq::<Event>::empty(),
            final(self).phase == old(self).phase,
    {
        let mut events: Vec<Event> = Vec::new();
        std::mem::swap(&mut events, &mut self.buffered_events);
        events
    }
}

} // verus!
