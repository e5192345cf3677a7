//! Dragging a floating window with the pointer.

use vstd::prelude::*;

use crate::action::Action;
use crate::area::Area;
use crate::event::Button;

verus! {

/// The number that the bits of `value` stand for when they are read as a signed
/// number.
pub open spec fn signed(value: u16) -> int {
    if value < 0x8000 {
        value as int
    } else {
        value - 0x10000
    }
}

/// The number whose bits are those of a signed number.
pub open spec fn unsigned(value: int) -> u16 {
    if value >= 0 {
        value as u16
    } else {
        (value + 0x10000) as u16
    }
}

/// The number can be represented with sign in the width of a coordinate.
pub open spec fn is_short(value: int) -> bool {
    -0x8000 <= value < 0x8000
}

fn to_signed(value: u16) -> (result: i16)
    ensures
        result == signed(value),
{
    let result: i16 = #[verifier::truncate] (value as i16);
    assert(value < 0x8000 ==> (value as i16) == value) by (bit_vector);
    assert(value >= 0x8000 ==> (value as i16) == value - 0x10000) by (bit_vector);
    result
}

fn to_unsigned(value: i16) -> (result: u16)
    ensures
        result == unsigned(value as int),
{
    let result: u16 = #[verifier::truncate] (value as u16);
    assert(value >= 0 ==> (value as u16) == value) by (bit_vector);
    assert(value < 0 ==> (value as u16) == value + 0x10000) by (bit_vector);
    result
}

/// A drag in progress: the button that started it, the window with its geometry
/// at that time, and where the pointer was then.
#[derive(Debug, Clone, Copy, PartialEq, Eq, Structural)]
pub struct Grab {
    pub button: Button,
    pub window: u32,
    pub geometry: Area,
    pub x: u16,
    pub y: u16,
}

impl Grab {
    /// How far the pointer is to the right of where it was.
    pub open spec fn moved_x(self, root_x: u16) -> int {
        signed(root_x) - signed(self.x)
    }

    /// How far the pointer is below where it was.
    pub open spec fn moved_y(self, root_y: u16) -> int {
        signed(root_y) - signed(self.y)
    }

    /// The distances, and what they make of the geometry, can be represented.
    pub open spec fn can_drag(self, root_x: u16, root_y: u16) -> bool {
        let dx = self.moved_x(root_x);
        let dy = self.moved_y(root_y);
        &&& is_short(dx) && is_short(dy)
        &&& self.button == Button::Button1 ==> {
            &&& is_short(signed(self.geometry.x) + dx)
            &&& is_short(signed(self.geometry.y) + dy)
        }
        &&& self.button == Button::Button3 ==> {
            &&& is_short(signed(self.geometry.width) + dx)
            &&& is_short(signed(self.geometry.height) + dy)
        }
    }

    /// What the drag asks for when the pointer is at a place: the first button
    /// moves the window by as much as the pointer moved, the third one resizes
    /// it, any other does nothing.
    pub open spec fn drag_actions(self, root_x: u16, root_y: u16) -> Seq<Action> {
        let dx = self.moved_x(root_x);
        let dy = self.moved_y(root_y);
        match self.button {
            Button::Button1 => seq![
                Action::Mov {
                    window: self.window,
                    x: unsigned(signed(self.geometry.x) + dx),
                    y: unsigned(signed(self.geometry.y) + dy),
                },
            ],
            Button::Button3 => seq![
                Action::Resize {
                    window: self.window,
                    width: unsigned(signed(self.geometry.width) + dx),
                    height: unsigned(signed(self.geometry.height) + dy),
                },
            ],
            _ => Seq::empty(),
        }
    }

    pub fn new(button: Button, window: u32, geometry: Area, x: u16, y: u16) -> (grab: Grab)
        ensures
            grab == (Grab { button, window, geometry, x, y }),
    {
        Grab { button, window, geometry, x, y }
    }

    /// Moves or resizes the window after the pointer.
    pub fn drag(&self, root_x: u16, root_y: u16) -> (actions: Vec<Action>)
        requires
            self.can_drag(root_x, root_y),
        ensures
            actions@ == self.drag_actions(root_x, root_y),
    {
        let mut actions: Vec<Action> = Vec::new();
        let x_diff: i16 = to_signed(root_x) - to_signed(self.x);
        let y_diff: i16 = to_signed(root_y) - to_signed(self.y);
        match self.button {
            Button::Button1 => {
                actions.push(
                    Action::Mov {
                        window: self.window,
                        x: to_unsigned(to_signed(self.geometry.x) + x_diff),
                        y: to_unsigned(to_signed(self.geometry.y) + y_diff),
                    },
                );
            },
            Button::Button3 => {
                actions.push(
                    Action::Resize {
                        window: self.window,
                        width: to_unsigned(to_signed(self.geometry.width) + x_diff),
                        height: to_unsigned(to_signed(self.geometry.height) + y_diff),
                    },
                );
            },
            _ => {},
        }
        assert(actions@ =~= self.drag_actions(root_x, root_y));
        actions
    }

    /// Whether `drag` can be asked for.
    pub fn drags(&self, root_x: u16, root_y: u16) -> (possible: bool)
        ensures
            possible == self.can_drag(root_x, root_y),
    {
        let dx: i32 = to_signed(root_x) as i32 - to_signed(self.x) as i32;
        let dy: i32 = to_signed(root_y) as i32 - to_signed(self.y) as i32;
        let (a, b): (u16, u16) = match self.button {
            Button::Button1 => (self.geometry.x, self.geometry.y),
            Button::Button3 => (self.geometry.width, self.geometry.height),
            _ => (0, 0),
        };
        let new_a: i32 = to_signed(a) as i32 + dx;
        let new_b: i32 = to_signed(b) as i32 + dy;
        -0x8000 <= dx && dx < 0x8000 && -0x8000 <= dy && dy < 0x8000 && -0x8000 <= new_a && new_a
            < 0x8000 && -0x8000 <= new_b && new_b < 0x8000
    }
}

/// With the pointer back where the drag began, the window is back where it was,
/// or has its old size again.
pub proof fn dragging_back_restores(grab: Grab)
    ensures
        grab.can_drag(grab.x, grab.y),
        grab.button == Button::Button1 ==> grab.drag_actions(grab.x, grab.y) == seq![
            Action::Mov { window: grab.window, x: grab.geometry.x, y: grab.geometry.y },
        ],
        grab.button == Button::Button3 ==> grab.drag_actions(grab.x, grab.y) == seq![
            Action::Resize {
                window: grab.window,
                width: grab.geometry.width,
                height: grab.geometry.height,
            },
        ],
{
}

/// Adding a difference with signs is adding it around the range of a coordinate.
proof fn signed_sum_wraps(start: u16, to: u16, from: u16)
    requires
        is_short(signed(start) + (signed(to) - signed(from))),
    ensures
        unsigned(signed(start) + (signed(to) - signed(from))) == (start + to - from) % 0x10000,
{
    let sum = signed(start) + (signed(to) - signed(from));
    let turns = (if start < 0x8000 { 0int } else { 1 }) + (if to < 0x8000 { 0int } else { 1 }) - (if from
        < 0x8000 { 0int } else { 1 });
    assert(start + to - from == sum + 0x10000 * turns);
    assert(-1 <= turns <= 2);
}

/// The window is moved, or its size changed, by as much as the pointer moved,
/// counted around the range of a coordinate.
pub proof fn drag_follows_the_pointer(grab: Grab, root_x: u16, root_y: u16)
    requires
        grab.can_drag(root_x, root_y),
    ensures
        match grab.button {
            Button::Button1 => grab.drag_actions(root_x, root_y) == seq![
                Action::Mov {
                    window: grab.window,
                    x: ((grab.geometry.x + root_x - grab.x) % 0x10000) as u16,
                    y: ((grab.geometry.y + root_y - grab.y) % 0x10000) as u16,
                },
            ],
            Button::Button3 => grab.drag_actions(root_x, root_y) == seq![
                Action::Resize {
                    window: grab.window,
                    width: ((grab.geometry.width + root_x - grab.x) % 0x10000) as u16,
                    height: ((grab.geometry.height + root_y - grab.y) % 0x10000) as u16,
                },
            ],
            _ => grab.drag_actions(root_x, root_y) == Seq::<Action>::empty(),
        },
{
    if grab.button == Button::Button1 {
        signed_sum_wraps(grab.geometry.x, root_x, grab.x);
        signed_sum_wraps(grab.geometry.y, root_y, grab.y);
    } else if grab.button == Button::Button3 {
        signed_sum_wraps(grab.geometry.width, root_x, grab.x);
        signed_sum_wraps(grab.geometry.height, root_y, grab.y);
    }
}

/// A drag never asks about any window but the one that was grabbed.
pub proof fn drag_keeps_to_its_window(grab: Grab, root_x: u16, root_y: u16)
    ensures
        forall|i: int|
            0 <= i < grab.drag_actions(root_x, root_y).len() ==> match #[trigger] grab.drag_actions(
                root_x,
                root_y,
            )[i] {
                Action::Mov { window, .. } => window == grab.window,
                Action::Resize { window, .. } => window == grab.window,
                _ => false,
            },
{
}

} // verus!
