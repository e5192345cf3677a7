//! Requests that reach the window manager from outside the display server.

use vstd::prelude::*;

use crate::reshape::Reshape;

verus! {

/// What a control program asks for.
#[derive(Debug, Clone, Copy, PartialEq, Eq, Structural)]
pub enum Request {
    /// Show the workspace of that number, counted from one.
    Workspace,
    /// Kill the client that has the focus.
    Kill,
    Close,
    /// Move the focus to the client before.
    FocusUp,
    /// Move the focus to the client after.
    FocusDown,
    /// Move the focus to the first client.
    FocusMaster,
    PaddingTop,
    PaddingBottom,
    PaddingLeft,
    PaddingRight,
    WindowGaps,
    FocusedBorder,
    NormalBorder,
    BorderWidth,
    /// Make the client that has the focus float, or tile it again.
    FloatToggle,
    FloatRight,
    FloatLeft,
    FloatUp,
    FloatDown,
    ResizeRight,
    ResizeLeft,
    ResizeUp,
    ResizeDown,
    EnableMouse,
    DisableMouse,
    /// Set the number of workspaces of every monitor.
    WorkspacePerMonitor,
    Unknown,
}

/// A request with the number that goes with it.
#[derive(Debug, Clone, Copy, PartialEq, Eq, Structural)]
pub struct Sequence {
    pub request: Request,
    pub value: u32,
}

/// Where the focus is to go from the client that has it.
#[derive(Debug, Clone, Copy, PartialEq, Eq, Structural)]
pub enum FocusStep {
    /// To the client before, if there is one.
    Up,
    /// To the client after.
    Down,
    /// To the first client.
    Master,
}

/// What can be asked for the client that has the focus.
#[derive(Debug, Clone, Copy, PartialEq, Eq, Structural)]
pub enum ClientOp {
    Kill,
    MoveFocus(FocusStep),
    FloatToggle,
    Reshape(Reshape),
}

/// The lower half of the bits of a number.
pub open spec fn low_half(value: u32) -> u16 {
    (value % 0x10000) as u16
}

pub(crate) fn take_low_half(value: u32) -> (result: u16)
    ensures
        result == low_half(value),
{
    (value % 0x10000) as u16
}

impl Sequence {
    /// What is asked for the client that has the focus, if that is what the
    /// request is about. Amounts in pixels are the lower half of the number.
    pub open spec fn client_op(self) -> Option<ClientOp> {
        let amount = low_half(self.value);
        match self.request {
            Request::Kill => Some(ClientOp::Kill),
            Request::FocusUp => Some(ClientOp::MoveFocus(FocusStep::Up)),
            Request::FocusDown => Some(ClientOp::MoveFocus(FocusStep::Down)),
            Request::FocusMaster => Some(ClientOp::MoveFocus(FocusStep::Master)),
            Request::FloatToggle => Some(ClientOp::FloatToggle),
            Request::FloatRight => Some(ClientOp::Reshape(Reshape::FloatRight(amount))),
            Request::FloatLeft => Some(ClientOp::Reshape(Reshape::FloatLeft(amount))),
            Request::FloatUp => Some(ClientOp::Reshape(Reshape::FloatUp(amount))),
            Request::FloatDown => Some(ClientOp::Reshape(Reshape::FloatDown(amount))),
            Request::ResizeRight => Some(ClientOp::Reshape(Reshape::ResizeRight(amount))),
            Request::ResizeLeft => Some(ClientOp::Reshape(Reshape::ResizeLeft(amount))),
            Request::ResizeUp => Some(ClientOp::Reshape(Reshape::ResizeUp(amount))),
            Request::ResizeDown => Some(ClientOp::Reshape(Reshape::ResizeDown(amount))),
            _ => None,
        }
    }

    /// What is asked for the client that has the focus, if that is what the
    /// request is about.
    pub fn to_client_op(&self) -> (op: Option<ClientOp>)
        ensures
            op == self.client_op(),
    {
        let amount = take_low_half(self.value);
        match self.request {
            Request::Kill => Some(ClientOp::Kill),
            Request::FocusUp => Some(ClientOp::MoveFocus(FocusStep::Up)),
            Request::FocusDown => Some(ClientOp::MoveFocus(FocusStep::Down)),
            Request::FocusMaster => Some(ClientOp::MoveFocus(FocusStep::Master)),
            Request::FloatToggle => Some(ClientOp::FloatToggle),
            Request::FloatRight => Some(ClientOp::Reshape(Reshape::FloatRight(amount))),
            Request::FloatLeft => Some(ClientOp::Reshape(Reshape::FloatLeft(amount))),
            Request::FloatUp => Some(ClientOp::Reshape(Reshape::FloatUp(amount))),
            Request::FloatDown => Some(ClientOp::Reshape(Reshape::FloatDown(amount))),
            Request::ResizeRight => Some(ClientOp::Reshape(Reshape::ResizeRight(amount))),
            Request::ResizeLeft => Some(ClientOp::Reshape(Reshape::ResizeLeft(amount))),
            Request::ResizeUp => Some(ClientOp::Reshape(Reshape::ResizeUp(amount))),
            Request::ResizeDown => Some(ClientOp::Reshape(Reshape::ResizeDown(amount))),
            _ => None,
        }
    }

    pub fn new(request: Request, value: u32) -> (sequence: Sequence)
        ensures
            sequence == (Sequence { request, value }),
    {
        Sequence { request, value }
    }
}

} // verus!
