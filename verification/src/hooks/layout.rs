//! Frame timing and terminal size hooks.
use crate::batch::StateBatch;
use crate::context_stack::{context_of, ContextStack};
use crate::fiber_tree::{same_except_fiber, FiberTree};
use crate::hooks::context::{try_use_context_v2, use_context_v2};
use crate::input::Rect;
use crate::hooks::effect_event::effect_event_slot;
use crate::hooks::state::{setter_for, use_state};
use crate::slot::{HookValue, Slot};
use vstd::prelude::*;

verus! {

/// Timing of the frame being rendered.
#[derive(Clone, Copy, Debug, PartialEq, Eq, Structural)]
pub struct FrameInfo {
    /// Frames rendered before this one.
    pub count: u64,
    /// Time since the previous frame, in nanoseconds.
    pub delta_nanos: u64,
    /// Start of this frame, in nanoseconds since the render loop began.
    pub timestamp: u64,
}

/// The tag of `FrameInfo` values in hook cells and on the context stack.
pub const FRAME_INFO_TAG: u64 = 0x4652_414d_4549_4e46u64;

impl FrameInfo {
    /// Frame information from its parts.
    pub fn new(count: u64, delta_nanos: u64, timestamp: u64) -> (r: Self)
        ensures
            r.count == count,
            r.delta_nanos == delta_nanos,
            r.timestamp == timestamp,
    {
        FrameInfo { count, delta_nanos, timestamp }
    }

    /// Time since the previous frame in whole milliseconds.
    pub fn delta_millis(&self) -> (r: u128)
        ensures
            r == self.delta_nanos / 1_000_000,
    {
        (self.delta_nanos / 1_000_000) as u128
    }

    /// Whether this is the first frame.
    pub fn is_first_frame(&self) -> (r: bool)
        ensures
            r == (self.count == 0),
    {
        self.count == 0
    }
}

impl Default for FrameInfo {
    fn default() -> (r: Self)
        ensures
            r.count == 0,
            r.delta_nanos == 0,
            r.timestamp == 0,
    {
        FrameInfo { count: 0, delta_nanos: 0, timestamp: 0 }
    }
}

impl HookValue for FrameInfo {
    open spec fn encoded(&self) -> Slot {
        Slot::Tagged(FRAME_INFO_TAG, Box::new((self.count, (self.delta_nanos, self.timestamp)).encoded()))
    }

    open spec fn decoded(s: Slot) -> Option<FrameInfo> {
        match s {
            Slot::Tagged(t, b) => if t == FRAME_INFO_TAG {
                match <(u64, (u64, u64)) as HookValue>::decoded(*b) {
                    Some(v) => Some(FrameInfo { count: v.0, delta_nanos: v.1.0, timestamp: v.1.1 }),
                    None => None,
                }
            } else {
                None
            },
            _ => None,
        }
    }

    open spec fn tag() -> u64 {
        FRAME_INFO_TAG
    }

    proof fn lemma_decode_encode(v: FrameInfo) {
        <(u64, (u64, u64)) as HookValue>::lemma_decode_encode((v.count, (v.delta_nanos, v.timestamp)));
    }

    fn encode(&self) -> (s: Slot) {
        Slot::Tagged(FRAME_INFO_TAG, Box::new((self.count, (self.delta_nanos, self.timestamp)).encode()))
    }

    fn decode(s: &Slot) -> (r: Option<FrameInfo>) {
        match s {
            Slot::Tagged(t, b) => if *t == FRAME_INFO_TAG {
                match <(u64, (u64, u64)) as HookValue>::decode(&**b) {
                    Some(v) => Some(FrameInfo { count: v.0, delta_nanos: v.1.0, timestamp: v.1.1 }),
                    None => None,
                }
            } else {
                None
            },
            _ => None,
        }
    }

    fn type_tag() -> (t: u64) {
        FRAME_INFO_TAG
    }
}

/// The frame information that the render loop provides, or the default
/// outside a frame.
pub fn use_frame_info(contexts: &ContextStack) -> (r: FrameInfo)
    ensures
        context_of::<FrameInfo>(contexts.entries@) is Some ==> r == context_of::<FrameInfo>(
            contexts.entries@,
        )->0,
        context_of::<FrameInfo>(contexts.entries@) is None ==> r == (FrameInfo {
            count: 0,
            delta_nanos: 0,
            timestamp: 0,
        }),
{
    match try_use_context_v2::<FrameInfo>(contexts) {
        Some(info) => info,
        None => FrameInfo::default(),
    }
}

/// The size a new size cell starts at.
fn initial_size() -> (r: (u16, u16))
    ensures
        r == (0u16, 0u16),
{
    (0, 0)
}

/// The flag a new media-query cell starts at.
fn initial_match() -> (r: bool)
    ensures
        !r,
{
    false
}

/// The terminal size last reported by a resize event, `(0, 0)` before any.
/// `resize` is the size carried by the frame's event when the component
/// sees a resize event; the new size is queued and read on the next render.
pub fn use_resize(tree: &mut FiberTree, batch: &mut StateBatch, resize: Option<(u16, u16)>) -> (r: (u16, u16))
    requires
        old(tree).wf(),
        old(tree).hook_room(2),
    ensures
        final(tree).wf(),
        same_except_fiber(*old(tree), *final(tree), old(tree).current().unwrap()),
        ({
            let id = old(tree).current().unwrap();
            let idx = old(tree).current_hook_index();
            let before = old(tree).fibers@[id.0];
            &&& final(tree).fibers@[id.0].hook_index == idx + 2
            &&& before.existing_hook::<(u16, u16)>(idx as int) is Some ==> r == before.existing_hook::<
                (u16, u16),
            >(idx as int)->0
            &&& before.existing_hook::<(u16, u16)>(idx as int) is None ==> r == (0u16, 0u16)
            &&& final(tree).fibers@[id.0].hook_value::<(u16, u16)>(idx as int) == Some(r)
            &&& resize is Some ==> setter_for::<(u16, u16)>(id, idx).queued(
                *old(batch),
                *final(batch),
                resize->0,
            )
            &&& resize is None ==> *final(batch) == *old(batch)
        }),
{
    let ghost t0 = *tree;
    let (size, set_size) = use_state(tree, initial_size);
    let ghost t1 = *tree;
    let _handler = effect_event_slot(tree);
    match resize {
        Some(dim) => set_size.set(batch, dim),
        None => {},
    }
    proof {
        let id = t0.current().unwrap();
        let idx = t0.current_hook_index() as int;
        assert(tree.fibers@[id.0].hooks@[idx] == t1.fibers@[id.0].hooks@[idx]);
    }
    size
}

/// Whether `predicate` held of the terminal size at the last resize event,
/// `false` before any. `resize` is as for `use_resize`.
pub fn use_media_query<F: Fn((u16, u16)) -> bool>(
    tree: &mut FiberTree,
    batch: &mut StateBatch,
    resize: Option<(u16, u16)>,
    predicate: F,
) -> (r: bool)
    requires
        old(tree).wf(),
        old(tree).hook_room(2),
        resize is Some ==> call_requires(predicate, (resize->0,)),
    ensures
        final(tree).wf(),
        same_except_fiber(*old(tree), *final(tree), old(tree).current().unwrap()),
        ({
            let id = old(tree).current().unwrap();
            let idx = old(tree).current_hook_index();
            let before = old(tree).fibers@[id.0];
            &&& final(tree).fibers@[id.0].hook_index == idx + 2
            &&& before.existing_hook::<bool>(idx as int) is Some ==> r == before.existing_hook::<bool>(
                idx as int,
            )->0
            &&& before.existing_hook::<bool>(idx as int) is None ==> !r
            &&& final(tree).fibers@[id.0].hook_value::<bool>(idx as int) == Some(r)
            &&& resize is Some ==> exists|m: bool|
                call_ensures(predicate, (resize->0,), m) && #[trigger] setter_for::<bool>(
                    id,
                    idx,
                ).queued(*old(batch), *final(batch), m)
            &&& resize is None ==> *final(batch) == *old(batch)
        }),
{
    let ghost t0 = *tree;
    let ghost b0 = *batch;
    let (matches, set_matches) = use_state(tree, initial_match);
    let ghost t1 = *tree;
    let _handler = effect_event_slot(tree);
    match resize {
        Some(dim) => {
            let m = predicate(dim);
            set_matches.set(batch, m);
            proof {
                assert(set_matches == setter_for::<bool>(
                    t0.current().unwrap(),
                    t0.current_hook_index(),
                ));
                assert(set_matches.queued(b0, *batch, m));
            }
        },
        None => {},
    }
    proof {
        let id = t0.current().unwrap();
        let idx = t0.current_hook_index() as int;
        assert(tree.fibers@[id.0].hooks@[idx] == t1.fibers@[id.0].hooks@[idx]);
    }
    matches
}

/// The area a component renders into, provided to its subtree.
#[derive(Clone, Copy, Debug, PartialEq, Eq, Structural)]
pub struct ComponentArea(pub Rect);

impl Default for ComponentArea {
    fn default() -> (r: Self)
        ensures
            r == ComponentArea(Rect { x: 0, y: 0, width: 0, height: 0 }),
    {
        ComponentArea(Rect { x: 0, y: 0, width: 0, height: 0 })
    }
}

impl ComponentArea {
    /// The area.
    pub fn area(&self) -> (r: Rect)
        ensures
            r == self.0,
    {
        self.0
    }
}

impl std::ops::Deref for ComponentArea {
    type Target = Rect;

    fn deref(&self) -> (r: &Rect)
        ensures
            *r == self.0,
    {
        &self.0
    }
}

/// The tag of `ComponentArea` values on the context stack.
pub const COMPONENT_AREA_TAG: u64 = 0x4152_4541_0000_0001u64;

impl HookValue for ComponentArea {
    open spec fn encoded(&self) -> Slot {
        Slot::Tagged(COMPONENT_AREA_TAG, Box::new(((self.0.x, self.0.y), (self.0.width, self.0.height)).encoded()))
    }

    open spec fn decoded(s: Slot) -> Option<ComponentArea> {
        match s {
            Slot::Tagged(t, b) => if t == COMPONENT_AREA_TAG {
                match <((u16, u16), (u16, u16)) as HookValue>::decoded(*b) {
                    Some(v) => Some(ComponentArea(Rect { x: v.0.0, y: v.0.1, width: v.1.0, height: v.1.1 })),
                    None => None,
                }
            } else {
                None
            },
            _ => None,
        }
    }

    open spec fn tag() -> u64 {
        COMPONENT_AREA_TAG
    }

    proof fn lemma_decode_encode(v: ComponentArea) {
        <((u16, u16), (u16, u16)) as HookValue>::lemma_decode_encode(((v.0.x, v.0.y), (v.0.width, v.0.height)));
    }

    fn encode(&self) -> (s: Slot) {
        Slot::Tagged(COMPONENT_AREA_TAG, Box::new(((self.0.x, self.0.y), (self.0.width, self.0.height)).encode()))
    }

    fn decode(s: &Slot) -> (r: Option<ComponentArea>) {
        match s {
            Slot::Tagged(t, b) => if *t == COMPONENT_AREA_TAG {
                match <((u16, u16), (u16, u16)) as HookValue>::decode(&**b) {
                    Some(v) => Some(ComponentArea(Rect { x: v.0.0, y: v.0.1, width: v.1.0, height: v.1.1 })),
                    None => None,
                }
            } else {
                None
            },
            _ => None,
        }
    }

    fn type_tag() -> (t: u64) {
        COMPONENT_AREA_TAG
    }
}

/// The area of the nearest enclosing component that provides one.
pub fn use_area(contexts: &ContextStack) -> (r: ComponentArea)
    requires
        context_of::<ComponentArea>(contexts.entries@) is Some,
    ensures
        r == context_of::<ComponentArea>(contexts.entries@)->0,
{
    use_context_v2::<ComponentArea>(contexts)
}

/// The area of the nearest enclosing component, if one is provided.
pub fn try_use_area(contexts: &ContextStack) -> (r: Option<ComponentArea>)
    ensures
        r == context_of::<ComponentArea>(contexts.entries@),
{
    try_use_context_v2::<ComponentArea>(contexts)
}

} // verus!
