//! Terminal input as the hooks read it: key presses, mouse events and
//! screen areas, as plain values.
use crate::slot::{HookValue, Slot};
use vstd::prelude::*;

verus! {

/// A key, as far as the hooks tell keys apart.
#[derive(Clone, Copy, Debug, PartialEq, Eq, Structural)]
pub enum Key {
    Char(char),
    Up,
    Down,
    Left,
    Right,
    Home,
    End,
    PageUp,
    PageDown,
    Enter,
    Esc,
    Backspace,
    Tab,
    /// Any other key.
    Other,
}

/// A key press, with whether Control was held.
#[derive(Clone, Copy, Debug, PartialEq, Eq, Structural)]
pub struct KeyPress {
    pub key: Key,
    pub ctrl: bool,
}

/// A mouse button.
#[derive(Clone, Copy, Debug, PartialEq, Eq, Structural)]
pub enum MouseButton {
    Left,
    Right,
    Middle,
}

/// What a mouse event reports.
#[derive(Clone, Copy, Debug, PartialEq, Eq, Structural)]
pub enum MouseAction {
    /// A button went down.
    Down(MouseButton),
    /// A button went up.
    Up(MouseButton),
    /// The mouse moved with a button held.
    Drag(MouseButton),
    /// The mouse moved with no button held.
    Moved,
    /// The wheel turned.
    Scroll,
}

/// A mouse event at a cell of the terminal.
#[derive(Clone, Copy, Debug, PartialEq, Eq, Structural)]
pub struct MouseInput {
    pub action: MouseAction,
    pub column: u16,
    pub row: u16,
}

/// A rectangle of terminal cells.
#[derive(Clone, Copy, Debug, PartialEq, Eq, Structural)]
pub struct Rect {
    pub x: u16,
    pub y: u16,
    pub width: u16,
    pub height: u16,
}

impl Rect {
    /// A rectangle from its corner and size.
    pub fn new(x: u16, y: u16, width: u16, height: u16) -> (r: Rect)
        ensures
            r == (Rect { x, y, width, height }),
    {
        Rect { x, y, width, height }
    }

    /// The rectangle lies within the coordinate range: its right and bottom
    /// edges do not pass the largest coordinate.
    pub open spec fn in_range(&self) -> bool {
        &&& self.x + self.width <= u16::MAX
        &&& self.y + self.height <= u16::MAX
    }

    /// The cell `(column, row)` lies in the rectangle; the left and top
    /// edges are inside, the right and bottom edges outside.
    pub open spec fn holds(&self, column: u16, row: u16) -> bool {
        &&& self.x <= column < self.x + self.width
        &&& self.y <= row < self.y + self.height
    }

    /// Whether the cell `(column, row)` lies in the rectangle.
    pub fn contains(&self, column: u16, row: u16) -> (r: bool)
        requires
            self.in_range(),
        ensures
            r == self.holds(column, row),
    {
        column >= self.x && column < self.x + self.width && row >= self.y && row < self.y + self.height
    }
}

/// A cell is inside a rectangle exactly when it is neither left of its
/// left edge, nor above its top edge, nor at or past its right or bottom
/// edge: no cell above the top or left of the left edge is inside, and
/// every cell between the edges is.
pub proof fn lemma_rect_inside(r: Rect, column: u16, row: u16)
    ensures
        r.holds(column, row) <==> (r.x <= column && (column as int) < r.x + r.width && r.y <= row && (
        row as int) < r.y + r.height),
        row < r.y ==> !r.holds(column, row),
        column < r.x ==> !r.holds(column, row),
        row as int >= r.y + r.height ==> !r.holds(column, row),
        column as int >= r.x + r.width ==> !r.holds(column, row),
        r.width == 0 || r.height == 0 ==> !r.holds(column, row),
{
}

/// The tag of mouse buttons in hook cells.
pub const MOUSE_BUTTON_TAG: u64 = 0x4d42_544e_0000_0001u64;

impl MouseButton {
    /// The button's number in a hook cell.
    pub open spec fn code(self) -> u16 {
        match self {
            MouseButton::Left => 0,
            MouseButton::Right => 1,
            MouseButton::Middle => 2,
        }
    }

    /// The button of a number, if any.
    pub open spec fn of_code(c: u16) -> Option<MouseButton> {
        if c == 0 {
            Some(MouseButton::Left)
        } else if c == 1 {
            Some(MouseButton::Right)
        } else if c == 2 {
            Some(MouseButton::Middle)
        } else {
            None
        }
    }
}

impl HookValue for MouseButton {
    open spec fn encoded(&self) -> Slot {
        Slot::U16(self.code())
    }

    open spec fn decoded(s: Slot) -> Option<MouseButton> {
        match s {
            Slot::U16(c) => MouseButton::of_code(c),
            _ => None,
        }
    }

    open spec fn tag() -> u64 {
        MOUSE_BUTTON_TAG
    }

    proof fn lemma_decode_encode(v: MouseButton) {
    }

    fn encode(&self) -> (s: Slot) {
        match self {
            MouseButton::Left => Slot::U16(0),
            MouseButton::Right => Slot::U16(1),
            MouseButton::Middle => Slot::U16(2),
        }
    }

    fn decode(s: &Slot) -> (r: Option<MouseButton>) {
        match s {
            Slot::U16(c) => if *c == 0 {
                Some(MouseButton::Left)
            } else if *c == 1 {
                Some(MouseButton::Right)
            } else if *c == 2 {
                Some(MouseButton::Middle)
            } else {
                None
            },
            _ => None,
        }
    }

    fn type_tag() -> (t: u64) {
        MOUSE_BUTTON_TAG
    }
}

} // verus!
