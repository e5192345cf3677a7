//! What the display server is asked to do.

use vstd::prelude::*;

use crate::area::Area;

verus! {

/// One thing to do at the display server. None of them hands a result back to
/// the window manager.
#[derive(Debug, Clone, Copy, PartialEq, Eq, Structural)]
pub enum Action {
    /// Look the window up at the server.
    Resolve { window: u32 },
    /// Move and resize the window.
    MovResize { window: u32, area: Area },
    /// Move the window.
    Mov { window: u32, x: u16, y: u16 },
    /// Resize the window.
    Resize { window: u32, width: u16, height: u16 },
    /// Show the window.
    MapWindow { window: u32 },
    /// Hide the window.
    UnmapWindow { window: u32 },
    /// Put the window on top of its siblings.
    Raise { window: u32 },
    /// Kill the client that owns the window.
    Kill { window: u32 },
    /// Give the window the input focus; should it go away, the focus reverts to
    /// its parent.
    SetInputFocus { window: u32 },
    /// Ask for the events that a managed window is watched for.
    SelectInput { window: u32 },
    SetBorderWidth { window: u32, width: u16 },
    SetBorderPixel { window: u32, pixel: u32 },
    /// Grab the pointer for the window while it is dragged, as `drag_grab` says.
    GrabPointer { window: u32 },
    /// End the grab of the pointer.
    UngrabPointer,
}

/// What a function that visits clients or monitors comes to: the actions that it
/// asks for, and whether it went through or failed after them.
pub struct Outcome<E> {
    pub actions: Vec<Action>,
    pub result: Result<(), E>,
}

/// A visit of the item can go through.
pub open spec fn can_pass<T, E, F: Fn(&mut T) -> Outcome<E>>(f: F, item: T) -> bool {
    exists|m: &mut T, out: Outcome<E>| #[trigger]
        call_ensures(f, (m,), out) && *m == item && out.result is Ok
}

/// No visit of the first `n` items is sure to fail.
pub open spec fn can_pass_first<T, E, F: Fn(&mut T) -> Outcome<E>>(f: F, items: Seq<T>, n: int) -> bool {
    forall|j: int| 0 <= j < n ==> can_pass(f, #[trigger] items[j])
}

/// A visit can go through exactly if the function may answer without a failure when it
/// is given the item.
pub proof fn visits_pass_without_a_failure<T, E, F: Fn(&mut T) -> Outcome<E>>(
    f: F,
    items: Seq<T>,
    n: int,
    item: T,
)
    ensures
        can_pass(f, item) <==> exists|m: &mut T, out: Outcome<E>| #[trigger]
            call_ensures(f, (m,), out) && *m == item && !(out.result is Err),
        can_pass_first(f, items, n) <==> forall|j: int|
            0 <= j < n ==> can_pass(f, #[trigger] items[j]),
{
}

/// A list of one action.
pub(crate) fn just(action: Action) -> (actions: Vec<Action>)
    ensures
        actions@ == seq![action],
{
    let mut actions: Vec<Action> = Vec::new();
    actions.push(action);
    assert(actions@ =~= seq![action]);
    actions
}

} // verus!
