//! The current terminal event of a frame and its propagation.
//!
//! Every component rendered in a frame can read the frame's event, until
//! one of them stops its propagation; from then on only that component
//! still reads it.
use crate::fiber::FiberId;
use vstd::prelude::*;

verus! {

/// The event of the current frame, if any, and who stopped it.
#[derive(Debug)]
pub struct EventState<Ev> {
    pub event: Option<Ev>,
    pub propagation_stopped: bool,
    pub stopped_by_fiber: Option<FiberId>,
}

/// The event that the component `reader` sees: none once another component
/// stopped propagation.
pub open spec fn visible_event<Ev>(state: EventState<Ev>, reader: Option<FiberId>) -> Option<Ev> {
    if state.propagation_stopped && reader != state.stopped_by_fiber {
        None
    } else {
        state.event
    }
}

/// A borrowed optional event is the given optional event.
pub open spec fn refers_to<Ev>(r: Option<&Ev>, v: Option<Ev>) -> bool {
    match r {
        Some(e) => v == Some(*e),
        None => v is None,
    }
}

impl<Ev> EventState<Ev> {
    /// No event, propagation open.
    pub fn new() -> (s: Self)
        ensures
            s.event is None,
            !s.propagation_stopped,
            s.stopped_by_fiber is None,
    {
        EventState { event: None, propagation_stopped: false, stopped_by_fiber: None }
    }

    /// Whether the frame has an event.
    pub fn has_event(&self) -> (r: bool)
        ensures
            r == self.event is Some,
    {
        self.event.is_some()
    }

    /// Open propagation again.
    pub fn reset_propagation(&mut self)
        ensures
            final(self).event == old(self).event,
            !final(self).propagation_stopped,
            final(self).stopped_by_fiber is None,
    {
        self.propagation_stopped = false;
        self.stopped_by_fiber = None;
    }
}

/// Set the frame's event (or none), with propagation open.
pub fn set_current_event<Ev>(state: &mut EventState<Ev>, event: Option<Ev>)
    ensures
        final(state).event == event,
        !final(state).propagation_stopped,
        final(state).stopped_by_fiber is None,
{
    state.event = event;
    state.reset_propagation();
}

/// The event as the component `reader` (the currently rendering fiber, if
/// any) sees it.
pub fn get_current_event<Ev>(state: &EventState<Ev>, reader: Option<FiberId>) -> (r: Option<&Ev>)
    ensures
        refers_to(r, visible_event(*state, reader)),
{
    if state.propagation_stopped && reader != state.stopped_by_fiber {
        None
    } else {
        state.event.as_ref()
    }
}

/// Stop propagation on behalf of the component `stopper` (the currently
/// rendering fiber, if any).
pub fn stop_event_propagation<Ev>(state: &mut EventState<Ev>, stopper: Option<FiberId>)
    ensures
        final(state).event == old(state).event,
        final(state).propagation_stopped,
        final(state).stopped_by_fiber == stopper,
{
    state.propagation_stopped = true;
    state.stopped_by_fiber = stopper;
}

/// Remove the frame's event.
pub fn clear_current_event<Ev>(state: &mut EventState<Ev>)
    ensures
        final(state).event is None,
        !final(state).propagation_stopped,
        final(state).stopped_by_fiber is None,
{
    set_current_event(state, None);
}

/// The frame's event, whatever the propagation.
pub fn peek_current_event<Ev>(state: &EventState<Ev>) -> (r: Option<&Ev>)
    ensures
        refers_to(r, state.event),
{
    state.event.as_ref()
}

/// After a component stops propagation it still sees the event and every
/// other component sees none.
pub proof fn lemma_stop_hides_from_others<Ev>(state: EventState<Ev>, stopper: Option<FiberId>, reader: Option<FiberId>)
    requires
        state.propagation_stopped,
        state.stopped_by_fiber == stopper,
    ensures
        visible_event(state, stopper) == state.event,
        reader != stopper ==> visible_event(state, reader) is None,
{
}

/// A newly set event is visible to every component.
pub proof fn lemma_set_event_visible_to_all<Ev>(state: EventState<Ev>, reader: Option<FiberId>)
    requires
        !state.propagation_stopped,
    ensures
        visible_event(state, reader) == state.event,
{
}

} // verus!
