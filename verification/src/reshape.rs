//! Moving and resizing a floating window by a number of pixels.

use vstd::prelude::*;

use crate::area::Area;

verus! {

/// A change to the place of a floating window, with its amount in pixels.
#[derive(Debug, Clone, Copy, PartialEq, Eq, Structural)]
pub enum Reshape {
    /// Move to the right.
    FloatRight(u16),
    /// Move to the left, at most to column zero.
    FloatLeft(u16),
    /// Move up, at most to row zero.
    FloatUp(u16),
    /// Move down.
    FloatDown(u16),
    /// Make wider.
    ResizeRight(u16),
    /// Make narrower, at most to width zero.
    ResizeLeft(u16),
    /// Make lower, at most to height zero.
    ResizeUp(u16),
    /// Make higher.
    ResizeDown(u16),
}

/// `value` less `amount`, but not less than zero.
pub open spec fn lowered(value: u16, amount: u16) -> u16 {
    if amount <= value {
        (value - amount) as u16
    } else {
        0
    }
}

fn lower(value: u16, amount: u16) -> (result: u16)
    ensures
        result == lowered(value, amount),
{
    if amount <= value {
        value - amount
    } else {
        0
    }
}

impl Reshape {
    /// The number that grows can still be represented.
    pub open spec fn can_apply(self, area: Area) -> bool {
        match self {
            Reshape::FloatRight(amount) => area.x + amount <= u16::MAX,
            Reshape::FloatDown(amount) => area.y + amount <= u16::MAX,
            Reshape::ResizeRight(amount) => area.width + amount <= u16::MAX,
            Reshape::ResizeDown(amount) => area.height + amount <= u16::MAX,
            _ => true,
        }
    }

    /// The place after the change.
    pub open spec fn applied(self, area: Area) -> Area {
        match self {
            Reshape::FloatRight(amount) => Area { x: (area.x + amount) as u16, ..area },
            Reshape::FloatLeft(amount) => Area { x: lowered(area.x, amount), ..area },
            Reshape::FloatUp(amount) => Area { y: lowered(area.y, amount), ..area },
            Reshape::FloatDown(amount) => Area { y: (area.y + amount) as u16, ..area },
            Reshape::ResizeRight(amount) => Area { width: (area.width + amount) as u16, ..area },
            Reshape::ResizeLeft(amount) => Area { width: lowered(area.width, amount), ..area },
            Reshape::ResizeUp(amount) => Area { height: lowered(area.height, amount), ..area },
            Reshape::ResizeDown(amount) => Area { height: (area.height + amount) as u16, ..area },
        }
    }

    /// The change that moves or resizes the other way.
    pub open spec fn opposite(self) -> Reshape {
        match self {
            Reshape::FloatRight(amount) => Reshape::FloatLeft(amount),
            Reshape::FloatLeft(amount) => Reshape::FloatRight(amount),
            Reshape::FloatUp(amount) => Reshape::FloatDown(amount),
            Reshape::FloatDown(amount) => Reshape::FloatUp(amount),
            Reshape::ResizeRight(amount) => Reshape::ResizeLeft(amount),
            Reshape::ResizeLeft(amount) => Reshape::ResizeRight(amount),
            Reshape::ResizeUp(amount) => Reshape::ResizeDown(amount),
            Reshape::ResizeDown(amount) => Reshape::ResizeUp(amount),
        }
    }

    /// Computes the place after the change from the place before it.
    pub fn apply(&self, area: Area) -> (result: Area)
        requires
            self.can_apply(area),
        ensures
            result == self.applied(area),
    {
        let Area { x, y, width, height } = area;
        match *self {
            Reshape::FloatRight(amount) => Area::new(x + amount, y, width, height),
            Reshape::FloatLeft(amount) => Area::new(lower(x, amount), y, width, height),
            Reshape::FloatUp(amount) => Area::new(x, lower(y, amount), width, height),
            Reshape::FloatDown(amount) => Area::new(x, y + amount, width, height),
            Reshape::ResizeRight(amount) => Area::new(x, y, width + amount, height),
            Reshape::ResizeLeft(amount) => Area::new(x, y, lower(width, amount), height),
            Reshape::ResizeUp(amount) => Area::new(x, y, width, lower(height, amount)),
            Reshape::ResizeDown(amount) => Area::new(x, y, width, height + amount),
        }
    }

    /// Whether `apply` can be asked for.
    pub fn applies(&self, area: Area) -> (possible: bool)
        ensures
            possible == self.can_apply(area),
    {
        match *self {
            Reshape::FloatRight(amount) => amount <= u16::MAX - area.x,
            Reshape::FloatDown(amount) => amount <= u16::MAX - area.y,
            Reshape::ResizeRight(amount) => amount <= u16::MAX - area.width,
            Reshape::ResizeDown(amount) => amount <= u16::MAX - area.height,
            _ => true,
        }
    }
}

/// A change that adds is undone by its opposite; so is one that takes away, if
/// it was not cut short at zero.
pub proof fn opposite_undoes(change: Reshape, area: Area)
    requires
        change.can_apply(area),
        match change {
            Reshape::FloatLeft(amount) => amount <= area.x,
            Reshape::FloatUp(amount) => amount <= area.y,
            Reshape::ResizeLeft(amount) => amount <= area.width,
            Reshape::ResizeUp(amount) => amount <= area.height,
            _ => true,
        },
    ensures
        change.opposite().can_apply(change.applied(area)),
        change.opposite().applied(change.applied(area)) == area,
{
}

/// Moving keeps the size of a window and resizing keeps its corner.
pub proof fn moving_and_resizing_are_separate(change: Reshape, area: Area)
    ensures
        change is FloatRight || change is FloatLeft || change is FloatUp || change is FloatDown
            ==> change.applied(area).width == area.width && change.applied(area).height
            == area.height,
        change is ResizeRight || change is ResizeLeft || change is ResizeUp || change is ResizeDown
            ==> change.applied(area).x == area.x && change.applied(area).y == area.y,
{
}

} // verus!
