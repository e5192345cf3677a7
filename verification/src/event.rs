//! Events that the display server reports.

use vstd::prelude::*;

verus! {

/// A button of the pointer.
#[derive(Debug, Clone, Copy, PartialEq, Eq, Structural)]
pub enum Button {
    Button1,
    Button2,
    Button3,
    Button4,
    Button5,
}

/// Whether a button went down or up.
#[derive(Debug, Clone, Copy, PartialEq, Eq, Structural)]
pub enum EventKind {
    Press,
    Release,
}

/// An event, with what the window manager looks at.
#[derive(Debug, Clone, Copy, PartialEq, Eq, Structural)]
pub enum Event {
    /// A window wants to be shown.
    MapRequest { window: u32 },
    /// A window is no longer shown.
    UnmapNotify { window: u32 },
    /// The pointer entered a window.
    EnterNotify { window: u32 },
    /// A window got the focus.
    FocusIn { window: u32 },
    /// A button changed while the pointer was at a place on the root window.
    ButtonEvent { kind: EventKind, root_x: u16, root_y: u16, subwindow: u32, button: Button },
    /// The pointer moved to a place on the root window.
    MotionNotify { root_x: u16, root_y: u16 },
    /// A window wants to be moved or resized.
    ConfigureRequest { window: u32 },
    /// Anything else.
    Other,
}

} // verus!
