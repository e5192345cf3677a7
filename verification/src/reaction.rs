//! How the window manager answers an input: with actions, and with what it has
//! to learn from the display server before it can go on.

use vstd::prelude::*;

use crate::action::Action;
use crate::event::Button;
use crate::request::ClientOp;
use crate::reshape::Reshape;

verus! {

/// What goes on once it is known which window has the focus.
#[derive(Debug, Clone, Copy, PartialEq, Eq, Structural)]
pub enum FocusWait {
    /// Something is asked for the client that has the focus.
    Client(ClientOp),
    /// The borders are to be drawn anew.
    Borders,
}

/// What goes on once it is known where the pointer is.
#[derive(Debug, Clone, Copy, PartialEq, Eq, Structural)]
pub enum PointerWait {
    /// The workspace of a number is to be shown on the monitor under the pointer.
    Workspace { number: u32 },
    /// Something is asked for the client of a window on the monitor under the
    /// pointer.
    Client { op: ClientOp, focus: u32 },
    /// The borders are to be drawn on the monitor under the pointer, with one
    /// window as the one that has the focus.
    Borders { focused: u32 },
    /// A window is to be managed on the monitor under the pointer.
    Insert { window: u32 },
}

/// A drag that begins once the geometry of its window is known.
#[derive(Debug, Clone, Copy, PartialEq, Eq, Structural)]
pub struct GrabWait {
    pub button: Button,
    pub window: u32,
    pub x: u16,
    pub y: u16,
}

/// A window that is added, monitor by monitor.
#[derive(Debug, Clone, Copy, PartialEq, Eq, Structural)]
pub struct InsertWait {
    pub window: u32,
    pub x: u16,
    pub y: u16,
    /// The index of the monitor that the window was looked up for.
    pub monitor: usize,
}

/// A workspace that is shown, monitor by monitor.
#[derive(Debug, Clone, Copy, PartialEq, Eq, Structural)]
pub struct SelectWait {
    pub number: u32,
    pub x: u16,
    pub y: u16,
    /// The index of the monitor that was laid out.
    pub monitor: usize,
}

/// A window that is taken out, monitor by monitor.
#[derive(Debug, Clone, Copy, PartialEq, Eq, Structural)]
pub struct UnmapWait {
    pub window: u32,
    /// The index of the monitor that it was taken out of.
    pub monitor: usize,
}

/// A floating window that is moved or resized, once for each monitor that shows
/// it.
#[derive(Debug, Clone, Copy, PartialEq, Eq, Structural)]
pub struct ReshapeWait {
    pub window: u32,
    pub change: Reshape,
    pub x: u16,
    pub y: u16,
    /// The index of the monitor that shows the window.
    pub monitor: usize,
}

/// What comes after the actions of a reaction. It comes only if none of them
/// failed.
#[derive(Debug, Clone, Copy, PartialEq, Eq, Structural)]
pub enum Next {
    /// Nothing; the input has been dealt with.
    Done,
    /// Find out which window has the input focus.
    Focus(FocusWait),
    /// Find out where the pointer is on the root window.
    Pointer(PointerWait),
    /// Find out the geometry of the window.
    Geometry(GrabWait),
    /// Find out the geometry of the window that is moved or resized.
    Placement(ReshapeWait),
    /// Go on after the window was moved and resized.
    Reshaped(ReshapeWait),
    /// Go on after the window was looked up for a monitor.
    Resolved(InsertWait),
    /// Go on after a monitor was laid out.
    Selected(SelectWait),
    /// Go on after a window was taken out of a monitor.
    Unmapped(UnmapWait),
    /// Go on after the grab of the pointer was ended.
    Ungrabbed,
}

/// Actions, to be performed in their order, and what comes after them.
#[verifier::ext_equal]
pub struct ReactionView {
    pub actions: Seq<Action>,
    pub next: Next,
}

/// Actions, to be performed in their order, and what comes after them.
pub struct Reaction {
    pub actions: Vec<Action>,
    pub next: Next,
}

impl View for Reaction {
    type V = ReactionView;

    open spec fn view(&self) -> ReactionView {
        ReactionView { actions: self.actions@, next: self.next }
    }
}

impl ReactionView {
    /// Some actions, and nothing after them.
    pub open spec fn act(actions: Seq<Action>) -> ReactionView {
        ReactionView { actions, next: Next::Done }
    }

    /// No actions.
    pub open spec fn ask(next: Next) -> ReactionView {
        ReactionView { actions: Seq::empty(), next }
    }
}

impl Reaction {
    /// Some actions, and nothing after them.
    pub fn act(actions: Vec<Action>) -> (reaction: Reaction)
        ensures
            reaction@ == ReactionView::act(actions@),
    {
        Reaction { actions, next: Next::Done }
    }

    /// No actions.
    pub fn ask(next: Next) -> (reaction: Reaction)
        ensures
            reaction@ == ReactionView::ask(next),
    {
        Reaction { actions: Vec::new(), next }
    }
}

} // verus!
