//! Event hooks: read the frame's event from a component and stop its
//! propagation.
use crate::event::{refers_to, get_current_event, peek_current_event, stop_event_propagation, visible_event, EventState};
use crate::fiber_tree::FiberTree;
use vstd::prelude::*;

verus! {

/// The frame's event as the currently rendering component sees it.
pub fn use_event<'a, Ev>(state: &'a EventState<Ev>, tree: &FiberTree) -> (r: Option<&'a Ev>)
    ensures
        refers_to(r, visible_event(*state, tree.current())),
{
    get_current_event(state, tree.current_fiber())
}

/// Stop the frame's event from reaching other components; the current
/// component still sees it.
pub fn stop_propagation<Ev>(state: &mut EventState<Ev>, tree: &FiberTree)
    ensures
        final(state).event == old(state).event,
        final(state).propagation_stopped,
        final(state).stopped_by_fiber == tree.current(),
{
    stop_event_propagation(state, tree.current_fiber())
}

/// The frame's event whatever the propagation.
pub fn peek_event<Ev>(state: &EventState<Ev>) -> (r: Option<&Ev>)
    ensures
        refers_to(r, state.event),
{
    peek_current_event(state)
}

} // verus!
