//! The geometry and scrolling of scroll views: where the content, the
//! scrollbar and the "more" markers go, which rows are copied from the
//! off-screen content, and how keys move the offset.
use crate::batch::StateBatch;
use crate::fiber_tree::{same_except_fiber, FiberTree};
use crate::hooks::effect_event::effect_event_slot;
use crate::hooks::scroll::{max_scroll, saturating_diff};
use crate::hooks::state::{setter_for, use_state, StateSetter};
use crate::input::{Key, KeyPress, Rect};
use vstd::prelude::*;

verus! {

/// Which scroll indicators a view shows.
#[derive(Clone, Copy, Debug, PartialEq, Eq, Structural)]
pub struct ScrollIndicator {
    pub show_scrollbar: bool,
    pub show_more_above: bool,
    pub show_more_below: bool,
}

impl Default for ScrollIndicator {
    fn default() -> (r: Self)
        ensures
            r.show_scrollbar && r.show_more_above && r.show_more_below,
    {
        ScrollIndicator { show_scrollbar: true, show_more_above: true, show_more_below: true }
    }
}

/// The area content is drawn in: the inner area less one column on the
/// right for the scrollbar, when it is shown.
pub open spec fn content_area_of(inner: Rect, show_scrollbar: bool) -> Rect {
    if show_scrollbar {
        Rect { width: saturating_diff(inner.width as int, 1) as u16, ..inner }
    } else {
        inner
    }
}

/// The content area of a view.
pub fn content_area(inner: Rect, show_scrollbar: bool) -> (r: Rect)
    ensures
        r == content_area_of(inner, show_scrollbar),
{
    if show_scrollbar {
        Rect { x: inner.x, y: inner.y, width: inner.width.saturating_sub(1), height: inner.height }
    } else {
        inner
    }
}

/// The largest offset: how far content of `content_height` rows can move
/// in a viewport of `viewport_height` rows.
pub fn max_offset(content_height: usize, viewport_height: usize) -> (r: usize)
    ensures
        r == max_scroll(content_height as int, viewport_height as int),
{
    content_height.saturating_sub(viewport_height)
}

/// `a + b`, but no more than `max`.
pub open spec fn capped_sum(a: int, b: int, max: int) -> int {
    if a + b <= max { a + b } else { max }
}

/// The offset a key moves a view to, if the key scrolls: `j` or Down
/// `step` rows down, `k` or Up `step` rows up, `g` or Home to the top, `G`
/// or End to the bottom, PageDown and PageUp a viewport less one row, and,
/// where `half_pages` is set, Control-`d` and Control-`u` half a viewport.
/// Down stops at `max`, up at 0.
pub open spec fn view_key_target(
    offset: int,
    step: int,
    viewport: int,
    max: int,
    press: KeyPress,
    half_pages: bool,
) -> Option<int> {
    let page = saturating_diff(viewport, 1);
    let half = viewport / 2;
    match press.key {
        Key::Char(c) => if c == 'j' {
            Some(capped_sum(offset, step, max))
        } else if c == 'k' {
            Some(saturating_diff(offset, step))
        } else if c == 'g' {
            Some(0)
        } else if c == 'G' {
            Some(max)
        } else if c == 'd' && press.ctrl && half_pages {
            Some(capped_sum(offset, half, max))
        } else if c == 'u' && press.ctrl && half_pages {
            Some(saturating_diff(offset, half))
        } else {
            None
        },
        Key::Down => Some(capped_sum(offset, step, max)),
        Key::Up => Some(saturating_diff(offset, step)),
        Key::Home => Some(0),
        Key::End => Some(max),
        Key::PageDown => Some(capped_sum(offset, page, max)),
        Key::PageUp => Some(saturating_diff(offset, page)),
        _ => None,
    }
}

/// `a + b` capped at `max`, without overflow.
fn add_capped(a: usize, b: usize, max: usize) -> (r: usize)
    ensures
        r == capped_sum(a as int, b as int, max as int),
{
    if a >= max {
        max
    } else if b <= max - a {
        a + b
    } else {
        max
    }
}

/// The offset a key moves a view to (see `view_key_target`).
pub fn view_key_offset(
    offset: usize,
    step: usize,
    viewport: usize,
    max: usize,
    press: KeyPress,
    half_pages: bool,
) -> (r: Option<usize>)
    ensures
        r matches Some(v) ==> view_key_target(
            offset as int,
            step as int,
            viewport as int,
            max as int,
            press,
            half_pages,
        ) == Some(v as int),
        r is None ==> view_key_target(
            offset as int,
            step as int,
            viewport as int,
            max as int,
            press,
            half_pages,
        ) is None,
{
    let page = viewport.saturating_sub(1);
    let half = viewport / 2;
    match press.key {
        Key::Char(c) => if c == 'j' {
            Some(add_capped(offset, step, max))
        } else if c == 'k' {
            Some(offset.saturating_sub(step))
        } else if c == 'g' {
            Some(0)
        } else if c == 'G' {
            Some(max)
        } else if c == 'd' && press.ctrl && half_pages {
            Some(add_capped(offset, half, max))
        } else if c == 'u' && press.ctrl && half_pages {
            Some(offset.saturating_sub(half))
        } else {
            None
        },
        Key::Down => Some(add_capped(offset, step, max)),
        Key::Up => Some(offset.saturating_sub(step)),
        Key::Home => Some(0),
        Key::End => Some(max),
        Key::PageDown => Some(add_capped(offset, page, max)),
        Key::PageUp => Some(offset.saturating_sub(page)),
        _ => None,
    }
}

/// Keys never move a view past its ends: from any offset, the offset a
/// key moves to lies between 0 and the largest offset.
pub proof fn lemma_key_target_in_range(
    offset: int,
    step: int,
    viewport: int,
    max: int,
    press: KeyPress,
    half_pages: bool,
)
    requires
        0 <= offset <= max,
        0 <= step,
        0 <= viewport,
    ensures
        view_key_target(offset, step, viewport, max, press, half_pages) matches Some(v) ==> 0 <= v
            <= max,
{
}

/// Keys move a view the right way by the right amount, for every offset,
/// step, viewport and largest offset: Up and `k` move `step` rows up and
/// stop at 0, Down and `j` move `step` rows down and stop at `max`, Home
/// and `g` go to 0, End and `G` to `max`, PageUp and PageDown move a
/// viewport less one row. Up keys never increase the offset and down keys
/// never decrease it.
pub proof fn lemma_view_keys(
    offset: int,
    step: int,
    viewport: int,
    max: int,
    ctrl: bool,
    half_pages: bool,
)
    requires
        0 <= offset <= max,
        0 <= step,
        0 <= viewport,
    ensures
        ({
            let up = if offset > step { offset - step } else { 0 };
            let down = if offset + step <= max { offset + step } else { max };
            let page = if viewport > 1 { viewport - 1 } else { 0 };
            let t = |k: Key| view_key_target(offset, step, viewport, max, KeyPress { key: k, ctrl }, half_pages);
            &&& t(Key::Up) == Some(up)
            &&& t(Key::Char('k')) == Some(up)
            &&& t(Key::Down) == Some(down)
            &&& t(Key::Char('j')) == Some(down)
            &&& t(Key::Home) == Some(0int)
            &&& t(Key::Char('g')) == Some(0int)
            &&& t(Key::End) == Some(max)
            &&& t(Key::Char('G')) == Some(max)
            &&& t(Key::PageUp) == Some(if offset > page { offset - page } else { 0 })
            &&& t(Key::PageDown) == Some(if offset + page <= max { offset + page } else { max })
            &&& 0 <= up <= offset <= down <= max
        }),
{
}

/// With half pages on, Control-`d` moves half a viewport down (stopping at
/// `max`) and Control-`u` half a viewport up (stopping at 0); without
/// Control, or with half pages off, those letters do not scroll.
pub proof fn lemma_view_half_pages(offset: int, step: int, viewport: int, max: int)
    requires
        0 <= offset <= max,
        0 <= viewport,
    ensures
        ({
            let half = viewport / 2;
            &&& view_key_target(offset, step, viewport, max, KeyPress { key: Key::Char('d'), ctrl: true }, true)
                == Some(if offset + half <= max { offset + half } else { max })
            &&& view_key_target(offset, step, viewport, max, KeyPress { key: Key::Char('u'), ctrl: true }, true)
                == Some(if offset > half { offset - half } else { 0 })
            &&& view_key_target(offset, step, viewport, max, KeyPress { key: Key::Char('d'), ctrl: false }, true)
                is None
            &&& view_key_target(offset, step, viewport, max, KeyPress { key: Key::Char('u'), ctrl: true }, false)
                is None
        }),
{
}

/// The offset key handling starts from and the target it queues, if any.
pub open spec fn view_key_change(
    offset: int,
    step: int,
    viewport: int,
    max: int,
    keyboard_nav: bool,
    key: Option<KeyPress>,
    half_pages: bool,
) -> Option<int> {
    match key {
        Some(p) => if keyboard_nav {
            view_key_target(offset, step, viewport, max, p, half_pages)
        } else {
            None
        },
        None => None,
    }
}

/// The offset stored in the current fiber's next hook cell, or `initial`
/// when the cell holds none.
pub open spec fn stored_offset(t: FiberTree, initial: usize) -> usize {
    let f = t.fibers@[t.current().unwrap().0];
    let idx = t.current_hook_index() as int;
    if f.existing_hook::<usize>(idx) is Some {
        f.existing_hook::<usize>(idx)->0
    } else {
        initial
    }
}

/// The batches around a render of a scroll view: from `before` to `mid`
/// the clamped offset is queued when the stored one is beyond `max`, and
/// from `mid` to `after` the offset a key moves to, if any.
pub open spec fn clamp_then_key(
    setter: StateSetter<usize>,
    before: StateBatch,
    mid: StateBatch,
    after: StateBatch,
    stored: int,
    max: int,
    change: Option<int>,
) -> bool {
    &&& (if stored > max {
        setter.queued(before, mid, max as usize)
    } else {
        mid == before
    })
    &&& change is Some ==> setter.queued(mid, after, change->0 as usize)
    &&& change is None ==> after == mid
}

/// The scroll offset of a view, clamped to the largest offset. The offset
/// cell starts at `initial_offset`; an offset beyond the largest is
/// clamped by queueing the largest. Where `keyboard_nav` is set the view
/// takes one more hook for its key handler, and the offset the frame's key
/// moves the stored offset to (see `view_key_target`) is queued after
/// that.
pub fn use_scroll_view(
    tree: &mut FiberTree,
    batch: &mut StateBatch,
    initial_offset: usize,
    content_height: usize,
    viewport_height: usize,
    keyboard_nav: bool,
    step: usize,
    half_pages: bool,
    key: Option<KeyPress>,
) -> (r: usize)
    requires
        old(tree).wf(),
        old(tree).hook_room(2),
    ensures
        final(tree).wf(),
        same_except_fiber(*old(tree), *final(tree), old(tree).current().unwrap()),
        final(tree).fibers@[old(tree).current().unwrap().0].hook_index == old(tree).current_hook_index()
            + (if keyboard_nav {
            2int
        } else {
            1int
        }),
        final(tree).fibers@[old(tree).current().unwrap().0].hook_value::<usize>(
            old(tree).current_hook_index() as int,
        ) == Some(stored_offset(*old(tree), initial_offset)),
        r == (if stored_offset(*old(tree), initial_offset) <= max_scroll(
            content_height as int,
            viewport_height as int,
        ) {
            stored_offset(*old(tree), initial_offset) as int
        } else {
            max_scroll(content_height as int, viewport_height as int)
        }),
        exists|mid: StateBatch|
            #[trigger] clamp_then_key(
                setter_for::<usize>(old(tree).current().unwrap(), old(tree).current_hook_index()),
                *old(batch),
                mid,
                *final(batch),
                stored_offset(*old(tree), initial_offset) as int,
                max_scroll(content_height as int, viewport_height as int),
                view_key_change(
                    stored_offset(*old(tree), initial_offset) as int,
                    step as int,
                    viewport_height as int,
                    max_scroll(content_height as int, viewport_height as int),
                    keyboard_nav,
                    key,
                    half_pages,
                ),
            ),
{
    let ghost t0 = *tree;
    let ghost id = t0.current().unwrap();
    let ghost idx = t0.current_hook_index();
    let (offset, set_offset) = use_state(tree, || -> (v: usize)
        ensures
            v == initial_offset,
        { initial_offset });
    let max = max_offset(content_height, viewport_height);
    let clamped = if offset <= max {
        offset
    } else {
        max
    };
    if clamped != offset {
        set_offset.set(batch, clamped);
    }
    let ghost mid = *batch;
    if keyboard_nav {
        let ghost t1 = *tree;
        let _handler = effect_event_slot(tree);
        proof {
            assert(tree.fibers@[id.0].hooks@[idx as int] == t1.fibers@[id.0].hooks@[idx as int]);
        }
        match key {
            Some(p) => match view_key_offset(offset, step, viewport_height, max, p, half_pages) {
                Some(target) => set_offset.set(batch, target),
                None => {},
            },
            None => {},
        }
    }
    proof {
        let setter = setter_for::<usize>(id, idx);
        assert(set_offset == setter);
        let change = view_key_change(
            offset as int,
            step as int,
            viewport_height as int,
            max as int,
            keyboard_nav,
            key,
            half_pages,
        );
        if change is Some {
            assert(setter.queued(mid, *batch, change->0 as usize));
        }
        assert(clamp_then_key(setter, *old(batch), mid, *batch, offset as int, max as int, change));
    }
    clamped
}

/// How many items an item view shows from `offset`: a viewport's worth,
/// or what is left of the content.
pub open spec fn visible_count_of(viewport: int, content: int, offset: int) -> int {
    let left = saturating_diff(content, offset);
    if viewport <= left { viewport } else { left }
}

/// The number of items shown from `offset`.
pub fn visible_count(viewport: usize, content: usize, offset: usize) -> (r: usize)
    ensures
        r == visible_count_of(viewport as int, content as int, offset as int),
{
    let left = content.saturating_sub(offset);
    if viewport <= left {
        viewport
    } else {
        left
    }
}

/// Where and how a view draws its scrollbar.
#[derive(Clone, Copy, Debug, PartialEq, Eq, Structural)]
pub struct ScrollbarPlan {
    /// The column on the right of the inner area.
    pub area: Rect,
    /// The length of the scrollbar's range.
    pub content_length: usize,
    /// The thumb's position.
    pub position: usize,
}

/// The scrollbar of a view, if it shows one: it is shown when enabled and
/// the content is taller than the viewport, in the rightmost column of the
/// inner area, over a range of the largest offset (at least 1), at the
/// current offset.
pub open spec fn scrollbar_of(
    inner: Rect,
    show_scrollbar: bool,
    content: int,
    viewport: int,
    offset: int,
) -> Option<ScrollbarPlan> {
    if show_scrollbar && content > viewport {
        let max = max_scroll(content, viewport);
        Some(
            ScrollbarPlan {
                area: Rect {
                    x: (inner.x + saturating_diff(inner.width as int, 1)) as u16,
                    y: inner.y,
                    width: 1,
                    height: inner.height,
                },
                content_length: (if max >= 1 {
                    max
                } else {
                    1
                }) as usize,
                position: offset as usize,
            },
        )
    } else {
        None
    }
}

/// Plan a view's scrollbar.
pub fn scrollbar_plan(
    inner: Rect,
    show_scrollbar: bool,
    content: usize,
    viewport: usize,
    offset: usize,
) -> (r: Option<ScrollbarPlan>)
    requires
        inner.in_range(),
    ensures
        r == scrollbar_of(inner, show_scrollbar, content as int, viewport as int, offset as int),
{
    if show_scrollbar && content > viewport {
        let max = max_offset(content, viewport);
        Some(
            ScrollbarPlan {
                area: Rect {
                    x: inner.x + inner.width.saturating_sub(1),
                    y: inner.y,
                    width: 1,
                    height: inner.height,
                },
                content_length: if max >= 1 {
                    max
                } else {
                    1
                },
                position: offset,
            },
        )
    } else {
        None
    }
}

/// Where the "more above" marker goes, if shown: enabled and the view is
/// scrolled down, two columns from the right of the content area's top
/// row.
pub open spec fn more_above_of(content_area: Rect, show: bool, offset: int) -> Option<(u16, u16)> {
    if show && offset > 0 {
        Some(((content_area.x + saturating_diff(content_area.width as int, 2)) as u16, content_area.y))
    } else {
        None
    }
}

/// Where the "more below" marker goes, if shown: enabled and the view can
/// scroll further down, two columns from the right of the content area's
/// bottom row.
pub open spec fn more_below_of(content_area: Rect, show: bool, offset: int, max: int) -> Option<(u16, u16)> {
    if show && offset < max {
        Some(
            (
                (content_area.x + saturating_diff(content_area.width as int, 2)) as u16,
                (content_area.y + saturating_diff(content_area.height as int, 1)) as u16,
            ),
        )
    } else {
        None
    }
}

/// The cell of the "more above" marker.
pub fn more_above(content_area: Rect, show: bool, offset: usize) -> (r: Option<(u16, u16)>)
    requires
        content_area.in_range(),
    ensures
        r == more_above_of(content_area, show, offset as int),
{
    if show && offset > 0 {
        Some((content_area.x + content_area.width.saturating_sub(2), content_area.y))
    } else {
        None
    }
}

/// The cell of the "more below" marker.
pub fn more_below(content_area: Rect, show: bool, offset: usize, max: usize) -> (r: Option<(u16, u16)>)
    requires
        content_area.in_range(),
    ensures
        r == more_below_of(content_area, show, offset as int, max as int),
{
    if show && offset < max {
        Some(
            (
                content_area.x + content_area.width.saturating_sub(2),
                content_area.y + content_area.height.saturating_sub(1),
            ),
        )
    } else {
        None
    }
}

/// The part of off-screen content copied into a target area: the number
/// of rows, from row `offset` of the content down to its last row or to
/// the target's height, and the number of columns both have.
pub open spec fn copy_extent_of(src_width: int, src_height: int, target: Rect, offset: int) -> (int, int) {
    let rows_left = saturating_diff(src_height, offset);
    let rows = if target.height <= rows_left { target.height as int } else { rows_left };
    let cols = if target.width <= src_width { target.width as int } else { src_width };
    (rows, cols)
}

/// How many rows and columns of off-screen content are copied: cell
/// `(dx, offset + dy)` of the content goes to cell `(target.x + dx,
/// target.y + dy)` for each `dy` below the rows and `dx` below the
/// columns.
pub fn copy_extent(src_width: u16, src_height: u16, target: Rect, offset: u16) -> (r: (u16, u16))
    ensures
        r.0 == copy_extent_of(src_width as int, src_height as int, target, offset as int).0,
        r.1 == copy_extent_of(src_width as int, src_height as int, target, offset as int).1,
{
    let rows_left = src_height.saturating_sub(offset);
    let rows = if target.height <= rows_left {
        target.height
    } else {
        rows_left
    };
    let cols = if target.width <= src_width {
        target.width
    } else {
        src_width
    };
    (rows, cols)
}

/// Every copied cell exists on both sides: a copied row `offset + dy`
/// lies in the content, and a copied column in both widths.
pub proof fn lemma_copy_in_bounds(src_width: int, src_height: int, target: Rect, offset: int, dx: int, dy: int)
    requires
        0 <= src_width,
        0 <= src_height,
        0 <= offset,
        0 <= dy < copy_extent_of(src_width, src_height, target, offset).0,
        0 <= dx < copy_extent_of(src_width, src_height, target, offset).1,
    ensures
        offset + dy < src_height,
        dy < target.height,
        dx < src_width,
        dx < target.width,
{
}

} // verus!
