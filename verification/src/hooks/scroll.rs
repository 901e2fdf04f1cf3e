//! Scroll state for content taller than its viewport.
use crate::batch::StateBatch;
use crate::fiber_tree::{same_except_fiber, FiberTree};
use crate::hooks::effect_event::effect_event_slot;
use crate::hooks::state::{use_state, StateSetter};
use crate::input::{Key, KeyPress};
use vstd::prelude::*;

verus! {

/// Scroll position and the setter that moves it.
#[derive(Clone, Copy, Debug)]
pub struct ScrollHandle {
    /// Current scroll offset (lines from the top).
    pub offset: usize,
    /// Total content height in lines.
    pub content_height: usize,
    /// Height of the visible viewport.
    pub viewport_height: usize,
    /// Setter of the offset's state cell.
    pub set_offset: StateSetter<usize>,
}

/// `a - b`, or 0 where `b` exceeds `a`.
pub open spec fn saturating_diff(a: int, b: int) -> int {
    if a > b { a - b } else { 0 }
}

/// The largest offset that still fills the viewport.
pub open spec fn max_scroll(content_height: int, viewport_height: int) -> int {
    saturating_diff(content_height, viewport_height)
}

/// Scrolling never leaves the range from 0 to the largest offset: up by
/// any amount stays at or above 0, and down by any amount from a valid
/// offset stays at or below the largest offset.
pub proof fn lemma_scroll_in_range(offset: int, lines: int, max: int)
    requires
        0 <= offset <= max,
        0 <= lines,
    ensures
        0 <= saturating_diff(offset, lines) <= max,
        0 <= (if offset + lines <= max { offset + lines } else { max }) <= max,
{
}

/// Keyboard scrolling moves the right way by the right amount, for every
/// offset and every size: Up and `k` move one line up and stop at 0, Down
/// and `j` one line down and stop at the largest offset (content height
/// less viewport height, or 0), Home and `g` go to 0, End and `G` to the
/// largest offset, PageUp and PageDown move a viewport less one line. So
/// up keys never increase the offset and down keys never decrease it.
pub proof fn lemma_scroll_keys(h: ScrollHandle, ctrl: bool)
    requires
        h.content_height > h.viewport_height ==> h.offset <= h.content_height - h.viewport_height,
        h.content_height <= h.viewport_height ==> h.offset == 0,
    ensures
        ({
            let o = h.offset as int;
            let max = if h.content_height > h.viewport_height {
                h.content_height - h.viewport_height
            } else {
                0
            };
            let page = if h.viewport_height > 1 { h.viewport_height - 1 } else { 0 };
            let up1 = if o >= 1 { o - 1 } else { 0 };
            let down1 = if o + 1 <= max { o + 1 } else { max };
            &&& h.key_target(KeyPress { key: Key::Up, ctrl }) == Some(up1)
            &&& h.key_target(KeyPress { key: Key::Char('k'), ctrl }) == Some(up1)
            &&& h.key_target(KeyPress { key: Key::Down, ctrl }) == Some(down1)
            &&& h.key_target(KeyPress { key: Key::Char('j'), ctrl }) == Some(down1)
            &&& h.key_target(KeyPress { key: Key::Home, ctrl }) == Some(0int)
            &&& h.key_target(KeyPress { key: Key::Char('g'), ctrl }) == Some(0int)
            &&& h.key_target(KeyPress { key: Key::End, ctrl }) == Some(max)
            &&& h.key_target(KeyPress { key: Key::Char('G'), ctrl }) == Some(max)
            &&& h.key_target(KeyPress { key: Key::PageUp, ctrl }) == Some(
                if o > page { o - page } else { 0 },
            )
            &&& h.key_target(KeyPress { key: Key::PageDown, ctrl }) == Some(
                if o + page <= max { o + page } else { max },
            )
            &&& up1 <= o && o <= down1 <= max
        }),
{
}

/// Control-`d` scrolls a page down and Control-`u` a page up (a viewport
/// less one line, stopping at the ends); without Control they do not
/// scroll.
pub proof fn lemma_scroll_control_pages(h: ScrollHandle)
    ensures
        ({
            let o = h.offset as int;
            let max = if h.content_height > h.viewport_height {
                h.content_height - h.viewport_height
            } else {
                0
            };
            let page = if h.viewport_height > 1 { h.viewport_height - 1 } else { 0 };
            &&& h.key_target(KeyPress { key: Key::Char('d'), ctrl: true }) == Some(
                if o + page <= max { o + page } else { max },
            )
            &&& h.key_target(KeyPress { key: Key::Char('u'), ctrl: true }) == Some(
                if o > page { o - page } else { 0 },
            )
            &&& h.key_target(KeyPress { key: Key::Char('d'), ctrl: false }) is None
            &&& h.key_target(KeyPress { key: Key::Char('u'), ctrl: false }) is None
        }),
{
}

impl ScrollHandle {
    pub open spec fn max_offset_spec(&self) -> int {
        max_scroll(self.content_height as int, self.viewport_height as int)
    }

    /// The offset after scrolling up by `lines`.
    pub open spec fn up_target(&self, lines: int) -> int {
        saturating_diff(self.offset as int, lines)
    }

    /// The offset after scrolling down by `lines`.
    pub open spec fn down_target(&self, lines: int) -> int {
        if self.offset + lines <= self.max_offset_spec() {
            self.offset + lines
        } else {
            self.max_offset_spec()
        }
    }

    /// The offset a key press scrolls to, if the key scrolls: `j` or Down
    /// one line down, `k` or Up one line up, `g` or Home to the top, `G`
    /// or End to the bottom, PageDown or Control-`d` a page down, PageUp or
    /// Control-`u` a page up.
    pub open spec fn key_target(&self, press: KeyPress) -> Option<int> {
        let page = saturating_diff(self.viewport_height as int, 1);
        match press.key {
            Key::Char(c) => if c == 'j' {
                Some(self.down_target(1))
            } else if c == 'k' {
                Some(self.up_target(1))
            } else if c == 'g' {
                Some(0)
            } else if c == 'G' {
                Some(self.max_offset_spec())
            } else if c == 'd' && press.ctrl {
                Some(self.down_target(page))
            } else if c == 'u' && press.ctrl {
                Some(self.up_target(page))
            } else {
                None
            },
            Key::Down => Some(self.down_target(1)),
            Key::Up => Some(self.up_target(1)),
            Key::Home => Some(0),
            Key::End => Some(self.max_offset_spec()),
            Key::PageDown => Some(self.down_target(page)),
            Key::PageUp => Some(self.up_target(page)),
            _ => None,
        }
    }

    /// The offset the frame's key press scrolls to, if there is one and it
    /// scrolls.
    pub open spec fn key_scroll(&self, key: Option<KeyPress>) -> Option<int> {
        match key {
            Some(p) => self.key_target(p),
            None => None,
        }
    }

    /// Scroll as the key press asks (see `key_target`); other keys do
    /// nothing.
    pub fn apply_key(&self, batch: &mut StateBatch, press: KeyPress)
        ensures
            self.key_target(press) is Some ==> self.set_offset.queued(
                *old(batch),
                *final(batch),
                self.key_target(press)->0 as usize,
            ),
            self.key_target(press) is None ==> *final(batch) == *old(batch),
    {
        match press.key {
            Key::Char(c) => {
                if c == 'j' {
                    self.scroll_down(batch, 1);
                } else if c == 'k' {
                    self.scroll_up(batch, 1);
                } else if c == 'g' {
                    self.scroll_to_top(batch);
                } else if c == 'G' {
                    self.scroll_to_bottom(batch);
                } else if c == 'd' && press.ctrl {
                    self.page_down(batch);
                } else if c == 'u' && press.ctrl {
                    self.page_up(batch);
                }
            },
            Key::Down => self.scroll_down(batch, 1),
            Key::Up => self.scroll_up(batch, 1),
            Key::Home => self.scroll_to_top(batch),
            Key::End => self.scroll_to_bottom(batch),
            Key::PageDown => self.page_down(batch),
            Key::PageUp => self.page_up(batch),
            _ => {},
        }
    }

    /// Scroll up by `lines`, stopping at the top.
    pub fn scroll_up(&self, batch: &mut StateBatch, lines: usize)
        ensures
            self.set_offset.queued(
                *old(batch),
                *final(batch),
                saturating_diff(self.offset as int, lines as int) as usize,
            ),
    {
        let new_offset = self.offset.saturating_sub(lines);
        self.set_offset.set(batch, new_offset);
    }

    /// Scroll down by `lines`, stopping at the largest offset.
    pub fn scroll_down(&self, batch: &mut StateBatch, lines: usize)
        ensures
            self.set_offset.queued(
                *old(batch),
                *final(batch),
                (if self.offset + lines <= self.max_offset_spec() {
                    self.offset + lines
                } else {
                    self.max_offset_spec()
                }) as usize,
            ),
    {
        let max_offset = self.max_offset();
        let new_offset = if self.offset <= max_offset && lines <= max_offset - self.offset {
            self.offset + lines
        } else {
            max_offset
        };
        self.set_offset.set(batch, new_offset);
    }

    /// Scroll to the top.
    pub fn scroll_to_top(&self, batch: &mut StateBatch)
        ensures
            self.set_offset.queued(*old(batch), *final(batch), 0),
    {
        self.set_offset.set(batch, 0);
    }

    /// Scroll to the bottom.
    pub fn scroll_to_bottom(&self, batch: &mut StateBatch)
        ensures
            self.set_offset.queued(*old(batch), *final(batch), self.max_offset_spec() as usize),
    {
        let m = self.max_offset();
        self.set_offset.set(batch, m);
    }

    /// Scroll up by one viewport less one line.
    pub fn page_up(&self, batch: &mut StateBatch)
        ensures
            self.set_offset.queued(
                *old(batch),
                *final(batch),
                saturating_diff(
                    self.offset as int,
                    saturating_diff(self.viewport_height as int, 1),
                ) as usize,
            ),
    {
        self.scroll_up(batch, self.viewport_height.saturating_sub(1));
    }

    /// Scroll down by one viewport less one line.
    pub fn page_down(&self, batch: &mut StateBatch)
        ensures
            self.set_offset.queued(
                *old(batch),
                *final(batch),
                (if self.offset + saturating_diff(self.viewport_height as int, 1)
                    <= self.max_offset_spec() {
                    self.offset + saturating_diff(self.viewport_height as int, 1)
                } else {
                    self.max_offset_spec()
                }) as usize,
            ),
    {
        self.scroll_down(batch, self.viewport_height.saturating_sub(1));
    }

    /// The largest offset.
    pub fn max_offset(&self) -> (r: usize)
        ensures
            r == self.max_offset_spec(),
    {
        self.content_height.saturating_sub(self.viewport_height)
    }

    /// Whether the view can move up.
    pub fn can_scroll_up(&self) -> (r: bool)
        ensures
            r == (self.offset > 0),
    {
        self.offset > 0
    }

    /// Whether the view can move down.
    pub fn can_scroll_down(&self) -> (r: bool)
        ensures
            r == (self.offset < self.max_offset_spec()),
    {
        self.offset < self.max_offset()
    }

    /// Whether the content is taller than the viewport.
    pub fn has_overflow(&self) -> (r: bool)
        ensures
            r == (self.content_height > self.viewport_height),
    {
        self.content_height > self.viewport_height
    }
}

/// The offset a new scroll cell starts at.
fn initial_offset() -> (z: usize)
    ensures
        z == 0,
{
    0
}

/// Scroll state for the current component: the offset starts at 0, and an
/// offset beyond the largest one (content shrank) is clamped by queueing the
/// largest offset.
pub fn use_scroll(
    tree: &mut FiberTree,
    batch: &mut StateBatch,
    content_height: usize,
    viewport_height: usize,
) -> (r: ScrollHandle)
    requires
        old(tree).wf(),
        old(tree).hook_room(1),
    ensures
        final(tree).wf(),
        same_except_fiber(*old(tree), *final(tree), r.set_offset.fiber_id),
        r.set_offset.fiber_id == old(tree).current().unwrap(),
        r.set_offset.hook_index == old(tree).current_hook_index(),
        final(tree).fibers@[r.set_offset.fiber_id.0].hook_index == r.set_offset.hook_index + 1,
        r.content_height == content_height,
        r.viewport_height == viewport_height,
        old(tree).fibers@[r.set_offset.fiber_id.0].existing_hook::<usize>(
            r.set_offset.hook_index as int,
        ) is Some ==> r.offset == old(tree).fibers@[r.set_offset.fiber_id.0].existing_hook::<usize>(
            r.set_offset.hook_index as int,
        )->0,
        old(tree).fibers@[r.set_offset.fiber_id.0].existing_hook::<usize>(
            r.set_offset.hook_index as int,
        ) is None ==> r.offset == 0,
        final(tree).fibers@[r.set_offset.fiber_id.0].hook_value::<usize>(
            r.set_offset.hook_index as int,
        ) == Some(r.offset),
        r.offset > max_scroll(content_height as int, viewport_height as int) ==> r.set_offset.queued(
            *old(batch),
            *final(batch),
            max_scroll(content_height as int, viewport_height as int) as usize,
        ),
        r.offset <= max_scroll(content_height as int, viewport_height as int) ==> *final(batch)
            == *old(batch),
{
    let (offset, set_offset) = use_state(tree, initial_offset);
    let max_offset = content_height.saturating_sub(viewport_height);
    if offset > max_offset {
        set_offset.set(batch, max_offset);
    }
    ScrollHandle { offset, content_height, viewport_height, set_offset }
}

/// `after` is `before` with what `use_scroll` queues for `h`: the largest
/// offset when the offset is beyond it, nothing otherwise.
pub open spec fn clamp_queued(h: ScrollHandle, before: StateBatch, after: StateBatch) -> bool {
    if h.offset > h.max_offset_spec() {
        h.set_offset.queued(before, after, h.max_offset_spec() as usize)
    } else {
        after == before
    }
}

/// Scroll state with keyboard bindings (see `ScrollHandle::key_target`).
/// `key` is the frame's key press, if the component sees one; after the
/// clamping of `use_scroll`, the offset it scrolls to is queued.
pub fn use_scroll_keyboard(
    tree: &mut FiberTree,
    batch: &mut StateBatch,
    content_height: usize,
    viewport_height: usize,
    key: Option<KeyPress>,
) -> (r: ScrollHandle)
    requires
        old(tree).wf(),
        old(tree).hook_room(2),
    ensures
        final(tree).wf(),
        same_except_fiber(*old(tree), *final(tree), r.set_offset.fiber_id),
        r.set_offset.fiber_id == old(tree).current().unwrap(),
        r.set_offset.hook_index == old(tree).current_hook_index(),
        final(tree).fibers@[r.set_offset.fiber_id.0].hook_index == r.set_offset.hook_index + 2,
        r.content_height == content_height,
        r.viewport_height == viewport_height,
        old(tree).fibers@[r.set_offset.fiber_id.0].existing_hook::<usize>(
            r.set_offset.hook_index as int,
        ) is Some ==> r.offset == old(tree).fibers@[r.set_offset.fiber_id.0].existing_hook::<usize>(
            r.set_offset.hook_index as int,
        )->0,
        old(tree).fibers@[r.set_offset.fiber_id.0].existing_hook::<usize>(
            r.set_offset.hook_index as int,
        ) is None ==> r.offset == 0,
        final(tree).fibers@[r.set_offset.fiber_id.0].hook_value::<usize>(
            r.set_offset.hook_index as int,
        ) == Some(r.offset),
        exists|mid: StateBatch|
            {
                &&& #[trigger] clamp_queued(r, *old(batch), mid)
                &&& r.key_scroll(key) is Some ==> r.set_offset.queued(
                    mid,
                    *final(batch),
                    r.key_scroll(key)->0 as usize,
                )
                &&& r.key_scroll(key) is None ==> *final(batch) == mid
            },
{
    let scroll = use_scroll(tree, batch, content_height, viewport_height);
    let ghost t1 = *tree;
    let ghost mid = *batch;
    let _handler = effect_event_slot(tree);
    proof {
        let id = scroll.set_offset.fiber_id;
        let idx = scroll.set_offset.hook_index as int;
        assert(tree.fibers@[id.0].hooks@[idx] == t1.fibers@[id.0].hooks@[idx]);
    }
    match key {
        Some(p) => scroll.apply_key(batch, p),
        None => {},
    }
    proof {
        assert(clamp_queued(scroll, *old(batch), mid));
    }
    scroll
}

} // verus!
