//! Mouse hooks: position, drags, double clicks and hovering.
use crate::batch::StateBatch;
use crate::fiber_tree::{same_except_fiber, FiberTree};
use crate::hooks::effect_event::effect_event_slot;
use crate::hooks::ref_hook::{use_ref, Ref};
use crate::hooks::state::{setter_for, use_state, StateSetter};
use crate::input::{MouseAction, MouseButton, MouseInput, Rect};
use crate::slot::{HookValue, Slot};
use vstd::prelude::*;

verus! {

/// The position a new position cell starts at.
fn initial_position() -> (r: (u16, u16))
    ensures
        r == (0u16, 0u16),
{
    (0, 0)
}

/// The mouse position `(column, row)` of the last mouse event, `(0, 0)`
/// before any. `mouse` is the position carried by the frame's event when
/// the component sees a mouse event; a position different from the stored
/// one is queued and read on the next render.
pub fn use_mouse_position(tree: &mut FiberTree, batch: &mut StateBatch, mouse: Option<(u16, u16)>) -> (r: (u16, u16))
    requires
        old(tree).wf(),
        old(tree).hook_room(2),
    ensures
        final(tree).wf(),
        same_except_fiber(*old(tree), *final(tree), old(tree).current().unwrap()),
        ({
            let id = old(tree).current().unwrap();
            let idx = old(tree).current_hook_index();
            let before = old(tree).fibers@[id.0];
            &&& final(tree).fibers@[id.0].hook_index == idx + 2
            &&& before.existing_hook::<(u16, u16)>(idx as int) is Some ==> r == before.existing_hook::<
                (u16, u16),
            >(idx as int)->0
            &&& before.existing_hook::<(u16, u16)>(idx as int) is None ==> r == (0u16, 0u16)
            &&& final(tree).fibers@[id.0].hook_value::<(u16, u16)>(idx as int) == Some(r)
            &&& (mouse is Some && mouse->0 != r) ==> setter_for::<(u16, u16)>(id, idx).queued(
                *old(batch),
                *final(batch),
                mouse->0,
            )
            &&& !(mouse is Some && mouse->0 != r) ==> *final(batch) == *old(batch)
        }),
{
    let ghost t0 = *tree;
    let (position, set_position) = use_state(tree, initial_position);
    let ghost t1 = *tree;
    let _handler = effect_event_slot(tree);
    match mouse {
        Some(pos) => {
            if pos.0 != position.0 || pos.1 != position.1 {
                set_position.set(batch, pos);
            }
        },
        None => {},
    }
    proof {
        let id = t0.current().unwrap();
        let idx = t0.current_hook_index() as int;
        assert(tree.fibers@[id.0].hooks@[idx] == t1.fibers@[id.0].hooks@[idx]);
    }
    position
}

/// Information about a drag operation.
#[derive(Clone, Copy, Debug, PartialEq, Eq)]
pub struct DragInfo {
    /// The button that drags.
    pub button: Option<MouseButton>,
    /// Where the drag started `(column, row)`.
    pub start: (u16, u16),
    /// Where the mouse is now `(column, row)`.
    pub current: (u16, u16),
    /// The drag is going on.
    pub is_dragging: bool,
    /// The drag started with this event.
    pub is_start: bool,
    /// The drag ended with this event.
    pub is_end: bool,
}

/// No drag: no button, both positions `(0, 0)`, no flag set.
pub open spec fn no_drag() -> DragInfo {
    DragInfo {
        button: None,
        start: (0, 0),
        current: (0, 0),
        is_dragging: false,
        is_start: false,
        is_end: false,
    }
}

impl Default for DragInfo {
    fn default() -> (r: Self)
        ensures
            r == no_drag(),
    {
        DragInfo {
            button: None,
            start: (0, 0),
            current: (0, 0),
            is_dragging: false,
            is_start: false,
            is_end: false,
        }
    }
}

/// The tag of `DragInfo` values in hook cells.
pub const DRAG_INFO_TAG: u64 = 0x4452_4147_494e_464fu64;

/// The fields of a `DragInfo` as nested pairs, the form it is stored in.
pub type DragFields = (Option<MouseButton>, ((u16, u16), ((u16, u16), (bool, (bool, bool)))));

impl DragInfo {
    pub open spec fn fields(self) -> DragFields {
        (self.button, (self.start, (self.current, (self.is_dragging, (self.is_start, self.is_end)))))
    }

    pub open spec fn of_fields(f: DragFields) -> DragInfo {
        DragInfo {
            button: f.0,
            start: f.1.0,
            current: f.1.1.0,
            is_dragging: f.1.1.1.0,
            is_start: f.1.1.1.1.0,
            is_end: f.1.1.1.1.1,
        }
    }

    fn to_fields(&self) -> (r: DragFields)
        ensures
            r == self.fields(),
    {
        (self.button, (self.start, (self.current, (self.is_dragging, (self.is_start, self.is_end)))))
    }
}

impl HookValue for DragInfo {
    open spec fn encoded(&self) -> Slot {
        Slot::Tagged(DRAG_INFO_TAG, Box::new(self.fields().encoded()))
    }

    open spec fn decoded(s: Slot) -> Option<DragInfo> {
        match s {
            Slot::Tagged(t, b) => if t == DRAG_INFO_TAG {
                match <DragFields as HookValue>::decoded(*b) {
                    Some(f) => Some(DragInfo::of_fields(f)),
                    None => None,
                }
            } else {
                None
            },
            _ => None,
        }
    }

    open spec fn tag() -> u64 {
        DRAG_INFO_TAG
    }

    proof fn lemma_decode_encode(v: DragInfo) {
        <DragFields as HookValue>::lemma_decode_encode(v.fields());
    }

    fn encode(&self) -> (s: Slot) {
        Slot::Tagged(DRAG_INFO_TAG, Box::new(self.to_fields().encode()))
    }

    fn decode(s: &Slot) -> (r: Option<DragInfo>) {
        match s {
            Slot::Tagged(t, b) => if *t == DRAG_INFO_TAG {
                match <DragFields as HookValue>::decode(&**b) {
                    Some(f) => Some(
                        DragInfo {
                            button: f.0,
                            start: f.1.0,
                            current: f.1.1.0,
                            is_dragging: f.1.1.1.0,
                            is_start: f.1.1.1.1.0,
                            is_end: f.1.1.1.1.1,
                        },
                    ),
                    None => None,
                }
            } else {
                None
            },
            _ => None,
        }
    }

    fn type_tag() -> (t: u64) {
        DRAG_INFO_TAG
    }
}

/// The anchor of a drag: its button and start position.
pub type DragAnchor = Option<(MouseButton, (u16, u16))>;

/// What a mouse event does to a drag: the new drag information to show,
/// if any, and the drag anchor afterwards. A press starts a drag; a drag
/// or release of the anchored button moves or ends it; anything else
/// leaves both alone.
pub open spec fn drag_update(anchor: DragAnchor, input: MouseInput) -> (Option<DragInfo>, DragAnchor) {
    let pos = (input.column, input.row);
    match input.action {
        MouseAction::Down(b) => (
            Some(
                DragInfo {
                    button: Some(b),
                    start: pos,
                    current: pos,
                    is_dragging: true,
                    is_start: true,
                    is_end: false,
                },
            ),
            Some((b, pos)),
        ),
        MouseAction::Drag(b) => match anchor {
            Some((tb, start)) => if tb == b {
                (
                    Some(
                        DragInfo {
                            button: Some(b),
                            start,
                            current: pos,
                            is_dragging: true,
                            is_start: false,
                            is_end: false,
                        },
                    ),
                    anchor,
                )
            } else {
                (None, anchor)
            },
            None => (None, anchor),
        },
        MouseAction::Up(b) => match anchor {
            Some((tb, start)) => if tb == b {
                (
                    Some(
                        DragInfo {
                            button: Some(b),
                            start,
                            current: pos,
                            is_dragging: false,
                            is_start: false,
                            is_end: true,
                        },
                    ),
                    None,
                )
            } else {
                (None, anchor)
            },
            None => (None, anchor),
        },
        _ => (None, anchor),
    }
}

/// Apply a mouse event to the anchor of a drag.
pub fn drag_step(anchor: DragAnchor, input: MouseInput) -> (r: (Option<DragInfo>, DragAnchor))
    ensures
        r == drag_update(anchor, input),
{
    let pos = (input.column, input.row);
    match input.action {
        MouseAction::Down(b) => (
            Some(
                DragInfo {
                    button: Some(b),
                    start: pos,
                    current: pos,
                    is_dragging: true,
                    is_start: true,
                    is_end: false,
                },
            ),
            Some((b, pos)),
        ),
        MouseAction::Drag(b) => match anchor {
            Some((tb, start)) => if tb == b {
                (
                    Some(
                        DragInfo {
                            button: Some(b),
                            start,
                            current: pos,
                            is_dragging: true,
                            is_start: false,
                            is_end: false,
                        },
                    ),
                    anchor,
                )
            } else {
                (None, anchor)
            },
            None => (None, anchor),
        },
        MouseAction::Up(b) => match anchor {
            Some((tb, start)) => if tb == b {
                (
                    Some(
                        DragInfo {
                            button: Some(b),
                            start,
                            current: pos,
                            is_dragging: false,
                            is_start: false,
                            is_end: true,
                        },
                    ),
                    None,
                )
            } else {
                (None, anchor)
            },
            None => (None, anchor),
        },
        _ => (None, anchor),
    }
}

/// A drag that starts, moves and ends reports its start on each event:
/// pressing at `p`, dragging to `q` and releasing at `e` with the same
/// button shows a drag from `p` to `q` and then an ended drag from `p` to
/// `e`, and holds no anchor afterwards.
pub proof fn lemma_drag_round_trip(b: MouseButton, p: (u16, u16), q: (u16, u16), e: (u16, u16), anchor: DragAnchor)
    ensures
        ({
            let s1 = drag_update(anchor, MouseInput { action: MouseAction::Down(b), column: p.0, row: p.1 });
            let s2 = drag_update(s1.1, MouseInput { action: MouseAction::Drag(b), column: q.0, row: q.1 });
            let s3 = drag_update(s2.1, MouseInput { action: MouseAction::Up(b), column: e.0, row: e.1 });
            &&& s2.0 == Some(
                DragInfo {
                    button: Some(b),
                    start: p,
                    current: q,
                    is_dragging: true,
                    is_start: false,
                    is_end: false,
                },
            )
            &&& s3.0 == Some(
                DragInfo {
                    button: Some(b),
                    start: p,
                    current: e,
                    is_dragging: false,
                    is_start: false,
                    is_end: true,
                },
            )
            &&& s3.1 is None
        }),
{
}

/// The drag information with the start and end flags cleared.
pub open spec fn settled(info: DragInfo) -> DragInfo {
    DragInfo { is_start: false, is_end: false, ..info }
}

/// What a render of the drag hook queues for the next render: the drag
/// information the frame's event calls for, if any; otherwise, when the
/// shown information marks a drag's start or end, the same information
/// without those flags, as they hold for one frame only; otherwise nothing.
pub open spec fn drag_queued(anchor: DragAnchor, mouse: Option<MouseInput>, shown: DragInfo) -> Option<DragInfo> {
    let from_event = match mouse {
        Some(m) => drag_update(anchor, m).0,
        None => None,
    };
    if from_event is Some {
        from_event
    } else if shown.is_start || shown.is_end {
        Some(settled(shown))
    } else {
        None
    }
}

/// The start and end flags of a drag show for one frame: what a press
/// queues marks the start; a following frame without an event that shows
/// it queues the same information without the flag; and a frame without an
/// event that shows that queues nothing, so the flags stay clear. The same
/// holds for the end flag a release queues.
pub proof fn lemma_drag_flags_last_one_frame(
    anchor: DragAnchor,
    input: MouseInput,
    shown: DragInfo,
    later: DragAnchor,
)
    requires
        drag_update(anchor, input).0 is Some,
    ensures
        ({
            let q1 = drag_queued(anchor, Some(input), shown)->0;
            let q2 = settled(q1);
            &&& drag_queued(anchor, Some(input), shown) == drag_update(anchor, input).0
            &&& (input.action is Down ==> q1.is_start && q1.is_dragging && !q1.is_end)
            &&& (input.action is Up ==> q1.is_end && !q1.is_dragging && !q1.is_start)
            &&& ((q1.is_start || q1.is_end) ==> drag_queued(later, None, q1) == Some(q2))
            &&& !q2.is_start && !q2.is_end
            &&& q2.button == q1.button && q2.start == q1.start && q2.current == q1.current
                && q2.is_dragging == q1.is_dragging
            &&& drag_queued(later, None, q2) is None
        }),
{
}

/// Resets a drag: clears the shown information and the anchor.
#[derive(Clone, Debug)]
pub struct DragReset {
    pub info: StateSetter<DragInfo>,
    pub anchor: Ref<DragAnchor>,
}

impl DragReset {
    /// Queue the empty drag information and stop tracking.
    pub fn reset(&self, tree: &mut FiberTree, batch: &mut StateBatch)
        requires
            self.anchor.valid(*old(tree)),
        ensures
            self.info.queued(*old(batch), *final(batch), no_drag()),
            self.anchor.written(*old(tree), *final(tree), None),
            self.anchor.valid(*final(tree)),
    {
        self.info.set(batch, DragInfo::default());
        self.anchor.set(tree, None);
    }
}

/// The drag a new tracking cell starts with.
fn no_anchor() -> (r: DragAnchor)
    ensures
        r is None,
{
    None
}

/// Mouse drags: the drag information of the last render and a reset.
/// `mouse` is the frame's mouse event, if the component sees one; its
/// effect on the drag (see `drag_update`) updates the anchor at
/// once and queues the new drag information for the next render.
pub fn use_mouse_drag(tree: &mut FiberTree, batch: &mut StateBatch, mouse: Option<MouseInput>) -> (r: (DragInfo, DragReset))
    requires
        old(tree).wf(),
        old(tree).hook_room(3),
    ensures
        final(tree).wf(),
        same_except_fiber(*old(tree), *final(tree), old(tree).current().unwrap()),
        ({
            let id = old(tree).current().unwrap();
            let idx = old(tree).current_hook_index();
            let before = old(tree).fibers@[id.0];
            let anchor0 = if before.existing_hook::<DragAnchor>(idx + 1) is Some {
                before.existing_hook::<DragAnchor>(idx + 1)->0
            } else {
                None
            };
            &&& final(tree).fibers@[id.0].hook_index == idx + 3
            &&& r.1.info == setter_for::<DragInfo>(id, idx)
            &&& r.1.anchor.fiber_id == id
            &&& r.1.anchor.hook_index == idx + 1
            &&& r.1.anchor.valid(*final(tree))
            &&& before.existing_hook::<DragInfo>(idx as int) is Some ==> r.0
                == before.existing_hook::<DragInfo>(idx as int)->0
            &&& before.existing_hook::<DragInfo>(idx as int) is None ==> r.0 == no_drag()
            &&& final(tree).fibers@[id.0].hook_value::<DragInfo>(idx as int) == Some(r.0)
            &&& mouse is Some ==> r.1.anchor.value(*final(tree)) == drag_update(anchor0, mouse->0).1
            &&& drag_queued(anchor0, mouse, r.0) is Some ==> r.1.info.queued(
                *old(batch),
                *final(batch),
                drag_queued(anchor0, mouse, r.0)->0,
            )
            &&& drag_queued(anchor0, mouse, r.0) is None ==> *final(batch) == *old(batch)
            &&& mouse is None ==> r.1.anchor.value(*final(tree)) == anchor0
        }),
{
    let ghost t0 = *tree;
    let ghost id = t0.current().unwrap();
    let ghost idx = t0.current_hook_index();
    let (info, set_info) = use_state(tree, DragInfo::default);
    let ghost t1 = *tree;
    let track = use_ref(tree, no_anchor);
    let ghost t2 = *tree;
    proof {
        let f0 = t0.fibers@[id.0];
        let f1 = t1.fibers@[id.0];
        assert(f0.existing_hook::<DragAnchor>(idx + 1) == f1.existing_hook::<DragAnchor>(idx + 1)) by {
            if idx + 1 < f0.hooks@.len() {
                assert(f1.hooks@[idx + 1] == f0.hooks@[idx + 1]);
            }
        }
        assert(t2.fibers@[id.0].hooks@[idx as int] == t1.fibers@[id.0].hooks@[idx as int]);
    }
    let _handler = effect_event_slot(tree);
    proof {
        assert(tree.fibers@[id.0].hooks@[idx as int] == t2.fibers@[id.0].hooks@[idx as int]);
        assert(tree.fibers@[id.0].hooks@[idx + 1] == t2.fibers@[id.0].hooks@[idx + 1]);
    }
    let mut queued_any = false;
    match mouse {
        Some(m) => {
            let anchor = track.get(tree);
            let (shown, next) = drag_step(anchor, m);
            match shown {
                Some(d) => {
                    set_info.set(batch, d);
                    queued_any = true;
                },
                None => {},
            }
            let ghost t3 = *tree;
            track.set(tree, next);
            proof {
                assert(tree.fibers@[id.0].hooks@[idx as int] == t3.fibers@[id.0].hooks@[idx as int]);
            }
        },
        None => {},
    }
    if !queued_any && (info.is_start || info.is_end) {
        set_info.set(
            batch,
            DragInfo {
                button: info.button,
                start: info.start,
                current: info.current,
                is_dragging: info.is_dragging,
                is_start: false,
                is_end: false,
            },
        );
    }
    (info, DragReset { info: set_info, anchor: track })
}

/// Nanoseconds from `from` to `to`; 0 when `to` is earlier.
pub open spec fn nanos_between(from: u64, to: u64) -> int {
    if to >= from { to - from } else { 0 }
}

/// The press a second press is matched against: its button, position
/// and time in nanoseconds.
pub type LastClick = Option<(MouseButton, ((u16, u16), u64))>;

/// What a mouse event at time `now` does to double-click detection:
/// whether it completes a double click, and the press remembered
/// afterwards. A press of the same button at the same cell within
/// `max_delay` of the remembered press is a double click and forgets it,
/// so that a third press starts over; any other press is remembered;
/// other events change nothing.
pub open spec fn double_click_update(last: LastClick, input: MouseInput, now: u64, max_delay: u64) -> (bool, LastClick) {
    let pos = (input.column, input.row);
    match input.action {
        MouseAction::Down(b) => match last {
            Some((lb, (lp, lt))) => if lb == b && lp == pos && nanos_between(lt, now) <= max_delay {
                (true, None)
            } else {
                (false, Some((b, (pos, now))))
            },
            None => (false, Some((b, (pos, now)))),
        },
        _ => (false, last),
    }
}

/// Apply a mouse event to double-click detection.
pub fn double_click_step(last: LastClick, input: MouseInput, now: u64, max_delay: u64) -> (r: (bool, LastClick))
    ensures
        r == double_click_update(last, input, now, max_delay),
{
    let pos = (input.column, input.row);
    match input.action {
        MouseAction::Down(b) => match last {
            Some((lb, (lp, lt))) => {
                let diff: u64 = if now >= lt { now - lt } else { 0 };
                if lb == b && lp.0 == pos.0 && lp.1 == pos.1 && diff <= max_delay {
                    (true, None)
                } else {
                    (false, Some((b, (pos, now))))
                }
            },
            None => (false, Some((b, (pos, now)))),
        },
        _ => (false, last),
    }
}

/// Starting from no remembered press, two presses of one button at one
/// cell within the delay make a double click, and a third press right
/// after does not make another.
pub proof fn lemma_no_triple_click(b: MouseButton, c: u16, r: u16, t1: u64, t2: u64, t3: u64, max_delay: u64)
    requires
        t1 <= t2,
        t2 - t1 <= max_delay,
    ensures
        ({
            let press = MouseInput { action: MouseAction::Down(b), column: c, row: r };
            let s1 = double_click_update(None, press, t1, max_delay);
            let s2 = double_click_update(s1.1, press, t2, max_delay);
            let s3 = double_click_update(s2.1, press, t3, max_delay);
            &&& !s1.0
            &&& s2.0
            &&& !s3.0
        }),
{
}

/// A double click is never followed directly by another: the event after
/// one that completes a double click does not complete one.
pub proof fn lemma_double_click_resets(last: LastClick, first: MouseInput, second: MouseInput, t1: u64, t2: u64, max_delay: u64)
    requires
        double_click_update(last, first, t1, max_delay).0,
    ensures
        !double_click_update(double_click_update(last, first, t1, max_delay).1, second, t2, max_delay).0,
{
}

/// The press a new detection cell remembers.
fn no_click() -> (r: LastClick)
    ensures
        r is None,
{
    None
}

/// Double clicks. `mouse` is the frame's mouse event, if the component
/// sees one, and `now` the time of this render in nanoseconds; when the
/// event completes a double click (see `double_click_update`) `handler`
/// is called with the button and cell, and `true` is returned.
pub fn use_double_click<F: Fn(MouseButton, u16, u16)>(
    tree: &mut FiberTree,
    mouse: Option<MouseInput>,
    now: u64,
    max_delay: u64,
    handler: F,
) -> (fired: bool)
    requires
        old(tree).wf(),
        old(tree).hook_room(2),
        forall|b: MouseButton, c: u16, r: u16| call_requires(handler, (b, c, r)),
    ensures
        final(tree).wf(),
        same_except_fiber(*old(tree), *final(tree), old(tree).current().unwrap()),
        ({
            let id = old(tree).current().unwrap();
            let idx = old(tree).current_hook_index();
            let before = old(tree).fibers@[id.0];
            let last0 = if before.existing_hook::<LastClick>(idx as int) is Some {
                before.existing_hook::<LastClick>(idx as int)->0
            } else {
                None
            };
            let cell = Ref::<LastClick> { fiber_id: id, hook_index: idx, marker: std::marker::PhantomData };
            &&& final(tree).fibers@[id.0].hook_index == idx + 2
            &&& cell.valid(*final(tree))
            &&& mouse is Some ==> fired == double_click_update(last0, mouse->0, now, max_delay).0
                && cell.value(*final(tree)) == double_click_update(last0, mouse->0, now, max_delay).1
            &&& mouse is None ==> !fired && cell.value(*final(tree)) == last0
            &&& fired ==> (mouse->0.action matches MouseAction::Down(b) && call_ensures(
                handler,
                (b, mouse->0.column, mouse->0.row),
                (),
            ))
        }),
{
    let ghost t0 = *tree;
    let ghost id = t0.current().unwrap();
    let ghost idx = t0.current_hook_index();
    let last = use_ref(tree, no_click);
    let ghost t1 = *tree;
    let _handler = effect_event_slot(tree);
    proof {
        assert(tree.fibers@[id.0].hooks@[idx as int] == t1.fibers@[id.0].hooks@[idx as int]);
    }
    match mouse {
        Some(m) => {
            let prev = last.get(tree);
            let (double, next) = double_click_step(prev, m, now, max_delay);
            last.set(tree, next);
            if double {
                match m.action {
                    MouseAction::Down(b) => handler(b, m.column, m.row),
                    _ => {},
                }
            }
            double
        },
        None => false,
    }
}

/// The new hover flag a mouse position calls for, when it differs from
/// `current`.
pub open spec fn hover_change(mouse: Option<(u16, u16)>, area: Rect, current: bool) -> Option<bool> {
    match mouse {
        Some(p) => if area.holds(p.0, p.1) != current {
            Some(area.holds(p.0, p.1))
        } else {
            None
        },
        None => None,
    }
}

/// The flag a new hover cell starts at.
fn not_hovering() -> (r: bool)
    ensures
        !r,
{
    false
}

/// Whether the mouse was over `area` at the last mouse event, `false`
/// before any. `mouse` is the position of the frame's mouse event, if the
/// component sees one; a change of the flag is queued and read on the
/// next render.
pub fn use_mouse_hover(tree: &mut FiberTree, batch: &mut StateBatch, mouse: Option<(u16, u16)>, area: Rect) -> (r: bool)
    requires
        old(tree).wf(),
        old(tree).hook_room(2),
        area.in_range(),
    ensures
        final(tree).wf(),
        same_except_fiber(*old(tree), *final(tree), old(tree).current().unwrap()),
        ({
            let id = old(tree).current().unwrap();
            let idx = old(tree).current_hook_index();
            let before = old(tree).fibers@[id.0];
            &&& final(tree).fibers@[id.0].hook_index == idx + 2
            &&& before.existing_hook::<bool>(idx as int) is Some ==> r == before.existing_hook::<bool>(
                idx as int,
            )->0
            &&& before.existing_hook::<bool>(idx as int) is None ==> !r
            &&& final(tree).fibers@[id.0].hook_value::<bool>(idx as int) == Some(r)
            &&& hover_change(mouse, area, r) is Some ==> setter_for::<bool>(id, idx).queued(
                *old(batch),
                *final(batch),
                hover_change(mouse, area, r)->0,
            )
            &&& hover_change(mouse, area, r) is None ==> *final(batch) == *old(batch)
        }),
{
    let ghost t0 = *tree;
    let (hovering, set_hovering) = use_state(tree, not_hovering);
    let ghost t1 = *tree;
    let _handler = effect_event_slot(tree);
    match mouse {
        Some(pos) => {
            let inside = area.contains(pos.0, pos.1);
            if inside != hovering {
                set_hovering.set(batch, inside);
            }
        },
        None => {},
    }
    proof {
        let id = t0.current().unwrap();
        let idx = t0.current_hook_index() as int;
        assert(tree.fibers@[id.0].hooks@[idx] == t1.fibers@[id.0].hooks@[idx]);
    }
    hovering
}

} // verus!
