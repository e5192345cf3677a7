//! The window manager: what it does on events, requests and replies.

use vstd::prelude::*;

use crate::action::{just, Action};
use crate::area::Area;
use crate::config::Config;
use crate::event::{Event, EventKind};
use crate::grab::Grab;
use crate::monitor::{Monitor, MonitorView, Monitors, MonitorsView};
use crate::reaction::{
    FocusWait, GrabWait, InsertWait, Next, PointerWait, Reaction, ReactionView, ReshapeWait, SelectWait,
    UnmapWait,
};
use crate::request::{ClientOp, FocusStep, Request, Sequence};
use crate::reshape::Reshape;
use crate::workspace::Client;

verus! {

/// The state of the window manager.
#[verifier::ext_equal]
pub struct ManagerView {
    pub root: u32,
    pub monitors: MonitorsView,
    pub config: Config,
    pub grab: Option<Grab>,
    pub should_close: bool,
}

impl ManagerView {
    pub open spec fn with_monitors(self, monitors: MonitorsView) -> ManagerView {
        ManagerView { monitors, ..self }
    }

    pub open spec fn with_config(self, config: Config) -> ManagerView {
        ManagerView { config, ..self }
    }

    pub open spec fn with_grab(self, grab: Option<Grab>) -> ManagerView {
        ManagerView { grab, ..self }
    }

    /// The clients of every monitor can be laid out.
    pub open spec fn can_tile(self) -> bool {
        self.monitors.can_tile(self.config)
    }

    /// What is done to lay out the clients of every monitor.
    pub open spec fn tile_actions(self) -> Seq<Action> {
        self.monitors.tile_actions(self.config)
    }

    /// Borders are drawn for the window: it is not the root window, and not one
    /// of the two ids that stand for no window.
    pub open spec fn has_border(self, window: u32) -> bool {
        window != self.root && window != 1 && window != 0
    }

    /// To draw the borders, the place of the pointer is needed.
    pub open spec fn border_next(self, focused: u32) -> Next {
        if self.has_border(focused) {
            Next::Pointer(PointerWait::Borders { focused })
        } else {
            Next::Done
        }
    }

    /// What is done to draw the borders: every client of the monitors under the
    /// pointer gets a plain border, and then the focused window its own.
    pub open spec fn border_actions(self, focused: u32, x: u16, y: u16) -> Seq<Action> {
        let borders = self.config.windows.borders;
        self.monitors.actions_for_focused(
            x,
            y,
            |m: MonitorView| m.workspace.border_actions(borders),
        ) + seq![
            Action::Resolve { window: focused },
            Action::SetBorderPixel { window: focused, pixel: borders.focused },
        ]
    }

    /// With a change made to the client of a window on the monitors under the
    /// pointer.
    pub open spec fn change_client(
        self,
        focus: u32,
        x: u16,
        y: u16,
        change: spec_fn(Client) -> Client,
    ) -> ManagerView {
        self.with_monitors(
            self.monitors.change_focused(x, y, |m: MonitorView| m.change_client(focus, change)),
        )
    }

    /// What is done for the client of a window on the monitors under the pointer.
    pub open spec fn actions_for_client(
        self,
        focus: u32,
        x: u16,
        y: u16,
        report: spec_fn(Client) -> Seq<Action>,
    ) -> Seq<Action> {
        self.monitors.actions_for_focused(
            x,
            y,
            |m: MonitorView| m.workspace.actions_for_client(focus, report),
        )
    }

    /// With another monitor at an index.
    pub open spec fn with_monitor(self, i: int, monitor: MonitorView) -> ManagerView {
        self.with_monitors(self.monitors.with_monitor(i, monitor))
    }

    /// With a window that is not shown any more taken out of every monitor.
    pub open spec fn unmapped(self, window: u32) -> ManagerView {
        self.with_monitors(self.monitors.change_all(|m: MonitorView| m.unmapped(window)))
    }

    /// With a window added, tiled, on the monitors under the pointer.
    pub open spec fn inserted(self, window: u32, x: u16, y: u16) -> ManagerView {
        let client = Client { window, float: false };
        self.with_monitors(
            self.monitors.change_focused(x, y, |m: MonitorView| m.inserted(client)),
        )
    }

    /// With a window added, tiled, on one monitor.
    pub open spec fn inserted_at(self, window: u32, i: int) -> ManagerView {
        self.with_monitor(i, self.monitors.monitors[i].inserted(Client { window, float: false }))
    }

    /// A window can be added on the monitors under the pointer from index `from`
    /// on, as far as its first lookup: it can be told which monitor comes first,
    /// and if there is none, the clients fit.
    pub open spec fn accepts_insert(self, x: u16, y: u16, from: int) -> bool {
        &&& self.monitors.can_scan(x, y, from)
        &&& self.monitors.under(x, y, from) is None ==> self.can_tile()
    }

    /// What is done to add a window on the monitors under the pointer from index
    /// `from` on: it is looked up for the first of them. After the last one, the
    /// clients are laid out, and the window gets the focus.
    pub open spec fn insert_reaction(self, window: u32, x: u16, y: u16, from: int) -> ReactionView {
        match self.monitors.under(x, y, from) {
            Some(i) => ReactionView {
                actions: seq![Action::Resolve { window }],
                next: Next::Resolved(InsertWait { window, x, y, monitor: i as usize }),
            },
            None => ReactionView {
                actions: self.tile_actions() + seq![
                    Action::Resolve { window },
                    Action::SelectInput { window },
                    Action::SetInputFocus { window },
                ],
                next: self.border_next(window),
            },
        }
    }

    /// The workspace of a number can be shown on the first monitor under the
    /// pointer from index `from` on: it can be told which one that is, and its
    /// clients fit.
    pub open spec fn accepts_select(self, number: u32, x: u16, y: u16, from: int) -> bool {
        &&& self.monitors.can_scan(x, y, from)
        &&& self.monitors.under(x, y, from) matches Some(i)
            ==> self.monitors.monitors[i].selected(number).can_tile(self.config)
    }

    /// With the workspace of a number shown on the first monitor under the pointer
    /// from index `from` on.
    pub open spec fn select_state(self, number: u32, x: u16, y: u16, from: int) -> ManagerView {
        match self.monitors.under(x, y, from) {
            Some(i) => self.with_monitor(i, self.monitors.monitors[i].selected(number)),
            None => self,
        }
    }

    /// What is done to show the workspace of a number on the monitors under the
    /// pointer from index `from` on: the first of them is laid out.
    pub open spec fn select_reaction(self, number: u32, x: u16, y: u16, from: int) -> ReactionView {
        match self.monitors.under(x, y, from) {
            Some(i) => ReactionView {
                actions: self.monitors.monitors[i].selected(number).tile_actions(self.config),
                next: Next::Selected(SelectWait { number, x, y, monitor: i as usize }),
            },
            None => ReactionView::act(Seq::empty()),
        }
    }

    /// A window can be taken out of the first monitor that shows it from index
    /// `from` on: the monitors that are looked at show a workspace, and if none of
    /// them shows the window, the clients fit.
    pub open spec fn accepts_unmap(self, window: u32, from: int) -> bool {
        &&& self.monitors.can_seek(window, from)
        &&& match self.monitors.showing(window, from) {
            Some(i) => self.monitors.monitors[i].can_unmap(window),
            None => self.can_tile(),
        }
    }

    /// With a window taken out of the first monitor that shows it from index
    /// `from` on.
    pub open spec fn unmap_state(self, window: u32, from: int) -> ManagerView {
        match self.monitors.showing(window, from) {
            Some(i) => self.with_monitor(i, self.monitors.monitors[i].unmapped(window)),
            None => self,
        }
    }

    /// What is done to take a window out of the monitors from index `from` on: the
    /// focus of the first monitor that shows it moves if need be. After the last
    /// one, the clients are laid out.
    pub open spec fn unmap_reaction(self, window: u32, from: int) -> ReactionView {
        match self.monitors.showing(window, from) {
            Some(i) => ReactionView {
                actions: self.monitors.monitors[i].unmap_actions(window),
                next: Next::Unmapped(UnmapWait { window, monitor: i as usize }),
            },
            None => ReactionView::act(self.tile_actions()),
        }
    }

    /// What is done to move or resize a window on the monitors under the pointer
    /// from index `from` on: the geometry of the window is asked for because of the
    /// first of them on which it floats.
    pub open spec fn reshape_reaction(
        self,
        window: u32,
        change: Reshape,
        x: u16,
        y: u16,
        from: int,
    ) -> ReactionView {
        match self.monitors.floating(window, x, y, from) {
            Some(i) => ReactionView::ask(
                Next::Placement(ReshapeWait { window, change, x, y, monitor: i as usize }),
            ),
            None => ReactionView::act(Seq::empty()),
        }
    }

    /// With the client of a window made to float, or tiled if it floats, on the
    /// monitors under the pointer.
    pub open spec fn toggled(self, focus: u32, x: u16, y: u16) -> ManagerView {
        self.change_client(focus, x, y, |c: Client| Client { float: !c.float, ..c })
    }

    /// The manager can deal with the event. On unmapping and on a press, the
    /// monitors that are looked at have to show a workspace; and a drag must stay
    /// in the range of coordinates.
    pub open spec fn accepts_event(self, event: Event) -> bool {
        match event {
            Event::UnmapNotify { window } => self.accepts_unmap(window, 0),
            Event::ButtonEvent { kind, subwindow, .. } => kind == EventKind::Press
                ==> self.monitors.can_judge(subwindow),
            Event::MotionNotify { root_x, root_y } => self.grab matches Some(grab)
                ==> grab.can_drag(root_x, root_y),
            _ => true,
        }
    }

    /// The window floats on every monitor, and floating windows follow the mouse.
    pub open spec fn can_be_dragged(self, window: u32) -> bool {
        &&& self.monitors.floats_on_first(window, self.monitors.monitors.len() as int)
        &&& self.config.windows.mouse_movement
    }

    /// The state after an event: a window that is not shown any more is taken
    /// out of the first monitor that shows it.
    pub open spec fn state_after_event(self, event: Event) -> ManagerView {
        match event {
            Event::UnmapNotify { window } => self.unmap_state(window, 0),
            _ => self,
        }
    }

    /// What is done on an event.
    pub open spec fn reaction_to_event(self, event: Event) -> ReactionView {
        match event {
            Event::MapRequest { window } => ReactionView::ask(
                Next::Pointer(PointerWait::Insert { window }),
            ),
            Event::UnmapNotify { window } => self.unmap_reaction(window, 0),
            Event::EnterNotify { window } => if window != self.root {
                ReactionView::act(
                    seq![Action::Resolve { window }, Action::SetInputFocus { window }],
                )
            } else {
                ReactionView::act(Seq::empty())
            },
            Event::FocusIn { window } => ReactionView::ask(self.border_next(window)),
            Event::ButtonEvent { kind: EventKind::Press, root_x, root_y, subwindow, button } =>
                if self.can_be_dragged(subwindow) {
                    ReactionView {
                        actions: seq![
                            Action::Resolve { window: subwindow },
                            Action::Raise { window: subwindow },
                            Action::GrabPointer { window: subwindow },
                        ],
                        next: Next::Geometry(
                            GrabWait { button, window: subwindow, x: root_x, y: root_y },
                        ),
                    }
                } else {
                    ReactionView::act(Seq::empty())
                },
            Event::ButtonEvent { kind: EventKind::Release, .. } => if self.grab is Some {
                ReactionView { actions: seq![Action::UngrabPointer], next: Next::Ungrabbed }
            } else {
                ReactionView::act(Seq::empty())
            },
            Event::MotionNotify { root_x, root_y } => match self.grab {
                Some(grab) => ReactionView::act(grab.drag_actions(root_x, root_y)),
                None => ReactionView::act(Seq::empty()),
            },
            Event::ConfigureRequest { .. } => ReactionView::act(Seq::empty()),
            Event::Other => ReactionView::act(Seq::empty()),
        }
    }

    /// The request changes how much room the clients have.
    pub open spec fn changes_layout(request: Request) -> bool {
        request is PaddingTop || request is PaddingBottom || request is PaddingLeft
            || request is PaddingRight || request is WindowGaps
    }

    /// The request changes how borders look.
    pub open spec fn changes_borders(request: Request) -> bool {
        request is FocusedBorder || request is NormalBorder || request is BorderWidth
    }

    /// The manager can deal with the request: after a change of the room that the
    /// clients have, they must still fit.
    pub open spec fn accepts_request(self, sequence: Sequence) -> bool {
        Self::changes_layout(sequence.request) ==> self.state_after_request(sequence).can_tile()
    }

    /// The state after a request: its part of the configuration is taken over,
    /// and the number of workspaces is changed if it asks for that.
    pub open spec fn state_after_request(self, sequence: Sequence) -> ManagerView {
        if sequence.request is WorkspacePerMonitor {
            self.with_monitors(
                self.monitors.change_all(|m: MonitorView| m.resized(sequence.value as nat)),
            )
        } else {
            self.with_config(self.config.configured(sequence))
        }
    }

    /// What is done on a request.
    pub open spec fn reaction_to_request(self, sequence: Sequence) -> ReactionView {
        if let Some(op) = sequence.client_op() {
            ReactionView::ask(Next::Focus(FocusWait::Client(op)))
        } else if sequence.request is Workspace {
            ReactionView::ask(Next::Pointer(PointerWait::Workspace { number: sequence.value }))
        } else if Self::changes_layout(sequence.request) {
            ReactionView::act(self.state_after_request(sequence).tile_actions())
        } else if Self::changes_borders(sequence.request) {
            ReactionView::ask(Next::Focus(FocusWait::Borders))
        } else {
            ReactionView::act(Seq::empty())
        }
    }

    /// What is done once it is known which window has the focus.
    pub open spec fn reaction_to_focus(self, wait: FocusWait, window: u32) -> ReactionView {
        match wait {
            FocusWait::Client(op) => ReactionView::ask(
                Next::Pointer(PointerWait::Client { op, focus: window }),
            ),
            FocusWait::Borders => ReactionView::ask(self.border_next(window)),
        }
    }

    /// The manager can deal with the place of the pointer: it can be told which
    /// monitors are under it, those have what is asked of them, and the clients
    /// fit if they are laid out afterwards.
    pub open spec fn accepts_pointer(self, wait: PointerWait, x: u16, y: u16) -> bool {
        match wait {
            PointerWait::Workspace { number } => self.accepts_select(number, x, y, 0),
            PointerWait::Client { op: ClientOp::Reshape(_), focus } => self.monitors.can_spot(
                focus,
                x,
                y,
                0,
            ),
            PointerWait::Client { op, focus } => {
                &&& self.monitors.can_locate(x, y)
                &&& self.monitors.shown_at(x, y)
                &&& op is FloatToggle ==> self.toggled(focus, x, y).can_tile()
            },
            PointerWait::Borders { .. } => self.monitors.can_locate(x, y),
            PointerWait::Insert { .. } => self.accepts_insert(x, y, 0),
        }
    }

    /// The state after the place of the pointer is known.
    pub open spec fn state_after_pointer(self, wait: PointerWait, x: u16, y: u16) -> ManagerView {
        match wait {
            PointerWait::Workspace { number } => self.select_state(number, x, y, 0),
            PointerWait::Client { op: ClientOp::FloatToggle, focus } => self.toggled(focus, x, y),
            _ => self,
        }
    }

    /// What is done once the place of the pointer is known.
    pub open spec fn reaction_to_pointer(self, wait: PointerWait, x: u16, y: u16) -> ReactionView {
        match wait {
            PointerWait::Workspace { number } => self.select_reaction(number, x, y, 0),
            PointerWait::Client { op, focus } => match op {
                ClientOp::Kill => ReactionView::act(
                    self.actions_for_client(
                        focus,
                        x,
                        y,
                        |c: Client| seq![Action::Kill { window: c.window }],
                    ),
                ),
                ClientOp::MoveFocus(step) => ReactionView::act(
                    self.monitors.actions_for_focused(
                        x,
                        y,
                        |m: MonitorView| m.move_actions(focus, step),
                    ),
                ),
                ClientOp::FloatToggle => ReactionView::act(
                    self.toggled(focus, x, y).tile_actions(),
                ),
                ClientOp::Reshape(change) => self.reshape_reaction(focus, change, x, y, 0),
            },
            PointerWait::Borders { focused } => ReactionView::act(
                self.border_actions(focused, x, y),
            ),
            PointerWait::Insert { window } => self.insert_reaction(window, x, y, 0),
        }
    }

    /// The manager can go on after a window was looked up: the monitor shows a
    /// workspace, and with the window added there, the next step can be taken.
    pub open spec fn accepts_resolved(self, wait: InsertWait) -> bool {
        &&& wait.monitor < self.monitors.monitors.len()
        &&& self.monitors.monitors[wait.monitor as int].workspace.has_current()
        &&& self.inserted_at(wait.window, wait.monitor as int).accepts_insert(
            wait.x,
            wait.y,
            wait.monitor + 1,
        )
    }

    /// The manager can go on after a window was moved and resized.
    pub open spec fn accepts_reshaped(self, wait: ReshapeWait) -> bool {
        &&& wait.monitor < self.monitors.monitors.len()
        &&& self.monitors.can_spot(wait.window, wait.x, wait.y, wait.monitor + 1)
    }

    /// The manager can go on after a monitor was laid out.
    pub open spec fn accepts_selected(self, wait: SelectWait) -> bool {
        &&& wait.monitor < self.monitors.monitors.len()
        &&& self.accepts_select(wait.number, wait.x, wait.y, wait.monitor + 1)
    }

    /// The manager can go on after a window was taken out of a monitor.
    pub open spec fn accepts_unmapped(self, wait: UnmapWait) -> bool {
        &&& wait.monitor < self.monitors.monitors.len()
        &&& self.accepts_unmap(wait.window, wait.monitor + 1)
    }
}

/// The window manager.
pub struct WindowManager {
    /// The id of the root window.
    pub root: u32,
    pub monitors: Monitors,
    pub config: Config,
    /// The drag in progress, if there is one.
    pub grab: Option<Grab>,
    pub should_close: bool,
}

impl View for WindowManager {
    type V = ManagerView;

    open spec fn view(&self) -> ManagerView {
        ManagerView {
            root: self.root,
            monitors: self.monitors@,
            config: self.config,
            grab: self.grab,
            should_close: self.should_close,
        }
    }
}

impl WindowManager {
    /// A window manager without monitors.
    pub fn new(root: u32, config: Config) -> (manager: WindowManager)
        ensures
            manager@ == (ManagerView {
                root,
                monitors: MonitorsView { monitors: Seq::empty(), root },
                config,
                grab: None,
                should_close: false,
            }),
    {
        WindowManager {
            root,
            monitors: Monitors::new(root),
            config,
            grab: None,
            should_close: false,
        }
    }

    /// Lays out the clients of every monitor.
    pub fn tile(&mut self) -> (actions: Vec<Action>)
        requires
            old(self)@.can_tile(),
        ensures
            final(self)@ == old(self)@,
            actions@ == old(self)@.tile_actions(),
    {
        let config = self.config;
        let lay_out = |m: &mut Monitor| -> (out: Vec<Action>)
            requires
                old(m)@.can_tile(config),
            ensures
                final(m)@ == old(m)@,
                out@ == old(m)@.tile_actions(config),
            { m.tile(config) };
        proof {
            self.monitors.holds_of_each(|m: MonitorView| m.can_tile(config));
        }
        let actions = self.monitors.change_all(
            lay_out,
            Ghost(|m: MonitorView| m),
            Ghost(|m: MonitorView| m.tile_actions(config)),
        );
        assert(self.monitors@ =~= old(self).monitors@);
        actions
    }

    /// Runs `f` on the client of a window, on each monitor under the pointer that
    /// shows it.
    fn focused_client<F: Fn(&mut Client) -> Vec<Action>>(
        &mut self,
        focus: u32,
        x: u16,
        y: u16,
        f: F,
        change: Ghost<spec_fn(Client) -> Client>,
        report: Ghost<spec_fn(Client) -> Seq<Action>>,
    ) -> (actions: Vec<Action>)
        requires
            old(self)@.monitors.can_locate(x, y),
            old(self)@.monitors.shown_at(x, y),
            forall|c: &mut Client| #[trigger] call_requires(f, (c,)),
            forall|c: &mut Client, out: Vec<Action>| #[trigger]
                call_ensures(f, (c,), out) ==> *final(c) == change@(*c) && out@ == report@(*c),
        ensures
            final(self)@ == old(self)@.change_client(focus, x, y, change@),
            actions@ == old(self)@.actions_for_client(focus, x, y, report@),
    {
        let visit = |m: &mut Monitor| -> (out: Vec<Action>)
            requires
                old(m)@.workspace.has_current(),
            ensures
                final(m)@ == old(m)@.change_client(focus, change@),
                out@ == old(m)@.workspace.actions_for_client(focus, report@),
            {
                match m.workspace.find(focus) {
                    Some(index) => {
                        let ghost before = m@;
                        let current = m.workspace.current;
                        let out = f(&mut m.workspace.workspaces[current][index]);
                        assert(m@ =~= before.change_client(focus, change@));
                        out
                    },
                    None => Vec::new(),
                }
            };
        proof {
            self.monitors.holds_of_each(
                |m: MonitorView| m.area.covers(x, y) ==> m.workspace.has_current(),
            );
        }
        self.monitors.change_focused(
            x,
            y,
            visit,
            Ghost(|m: MonitorView| m.change_client(focus, change@)),
            Ghost(|m: MonitorView| m.workspace.actions_for_client(focus, report@)),
        )
    }

    /// Begins to move or resize a window because of the first monitor under the
    /// pointer from index `from` on where it floats.
    fn mov_resize_focused(&self, focus: u32, change: Reshape, x: u16, y: u16, from: usize) -> (reaction:
        Reaction)
        requires
            self@.monitors.can_spot(focus, x, y, from as int),
        ensures
            reaction@ == self@.reshape_reaction(focus, change, x, y, from as int),
    {
        match self.monitors.next_floating(focus, x, y, from) {
            Some(i) => Reaction::ask(
                Next::Placement(ReshapeWait { window: focus, change, x, y, monitor: i }),
            ),
            None => Reaction::act(Vec::new()),
        }
    }

    /// Kills the client of a window on the monitors under the pointer.
    fn kill_focused(&mut self, focus: u32, x: u16, y: u16) -> (actions: Vec<Action>)
        requires
            old(self)@.monitors.can_locate(x, y),
            old(self)@.monitors.shown_at(x, y),
        ensures
            final(self)@ == old(self)@,
            actions@ == old(self)@.actions_for_client(
                focus,
                x,
                y,
                |c: Client| seq![Action::Kill { window: c.window }],
            ),
    {
        let kill = |client: &mut Client| -> (out: Vec<Action>)
            ensures
                *final(client) == *old(client),
                out@ == seq![Action::Kill { window: old(client).window }],
            { just(Action::Kill { window: client.window }) };
        let actions = self.focused_client(
            focus,
            x,
            y,
            kill,
            Ghost(|c: Client| c),
            Ghost(|c: Client| seq![Action::Kill { window: c.window }]),
        );
        proof {
            old(self)@.changing_nothing(focus, x, y);
        }
        actions
    }

    /// Makes the client of a window float, or tiles it if it floats, on the
    /// monitors under the pointer.
    fn toggle_focused(&mut self, focus: u32, x: u16, y: u16)
        requires
            old(self)@.monitors.can_locate(x, y),
            old(self)@.monitors.shown_at(x, y),
        ensures
            final(self)@ == old(self)@.toggled(focus, x, y),
    {
        let toggle = |client: &mut Client| -> (out: Vec<Action>)
            ensures
                *final(client) == (Client { float: !old(client).float, ..*old(client) }),
                out@ == Seq::<Action>::empty(),
            {
                client.float = !client.float;
                Vec::new()
            };
        self.focused_client(
            focus,
            x,
            y,
            toggle,
            Ghost(|c: Client| Client { float: !c.float, ..c }),
            Ghost(|c: Client| Seq::<Action>::empty()),
        );
    }

    /// Moves the focus away from a window on the monitors under the pointer.
    fn move_focus(&mut self, focus: u32, x: u16, y: u16, step: FocusStep) -> (actions: Vec<Action>)
        requires
            old(self)@.monitors.can_locate(x, y),
            old(self)@.monitors.shown_at(x, y),
        ensures
            final(self)@ == old(self)@,
            actions@ == old(self)@.monitors.actions_for_focused(
                x,
                y,
                |m: MonitorView| m.move_actions(focus, step),
            ),
    {
        let go = |m: &mut Monitor| -> (out: Vec<Action>)
            requires
                old(m)@.workspace.has_current(),
            ensures
                final(m)@ == old(m)@,
                out@ == old(m)@.move_actions(focus, step),
            { m.move_focus(focus, step) };
        proof {
            self.monitors.holds_of_each(
                |m: MonitorView| m.area.covers(x, y) ==> m.workspace.has_current(),
            );
        }
        let actions = self.monitors.change_focused(
            x,
            y,
            go,
            Ghost(|m: MonitorView| m),
            Ghost(|m: MonitorView| m.move_actions(focus, step)),
        );
        assert(self.monitors@ =~= old(self).monitors@);
        actions
    }

    /// Shows the workspace of a number on the first monitor under the pointer from
    /// index `from` on, and lays out its clients.
    fn select_from(&mut self, number: u32, x: u16, y: u16, from: usize) -> (reaction: Reaction)
        requires
            old(self)@.accepts_select(number, x, y, from as int),
        ensures
            final(self)@ == old(self)@.select_state(number, x, y, from as int),
            reaction@ == old(self)@.select_reaction(number, x, y, from as int),
    {
        match self.monitors.next_under(x, y, from) {
            Some(i) => {
                self.monitors.monitors[i].workspace.select(number);
                let actions = self.monitors.monitors[i].tile(self.config);
                assert(self@ =~= old(self)@.select_state(number, x, y, from as int));
                Reaction {
                    actions,
                    next: Next::Selected(SelectWait { number, x, y, monitor: i }),
                }
            },
            None => Reaction::act(Vec::new()),
        }
    }

    /// Begins to add a window on the first monitor under the pointer from index
    /// `from` on, or ends adding it if there is none.
    fn insert_from(&mut self, window: u32, x: u16, y: u16, from: usize) -> (reaction: Reaction)
        requires
            old(self)@.accepts_insert(x, y, from as int),
        ensures
            final(self)@ == old(self)@,
            reaction@ == old(self)@.insert_reaction(window, x, y, from as int),
    {
        match self.monitors.next_under(x, y, from) {
            Some(i) => {
                Reaction {
                    actions: just(Action::Resolve { window }),
                    next: Next::Resolved(InsertWait { window, x, y, monitor: i }),
                }
            },
            None => {
                let mut actions = self.tile();
                actions.push(Action::Resolve { window });
                actions.push(Action::SelectInput { window });
                actions.push(Action::SetInputFocus { window });
                let reaction = Reaction { actions, next: self.set_focused_border(window) };
                assert(reaction@ =~= old(self)@.insert_reaction(window, x, y, from as int));
                reaction
            },
        }
    }

    /// Adds a window, tiled, on one monitor.
    fn insert_at(&mut self, window: u32, i: usize)
        requires
            i < old(self)@.monitors.monitors.len(),
            old(self)@.monitors.monitors[i as int].workspace.has_current(),
        ensures
            final(self)@ == old(self)@.inserted_at(window, i as int),
    {
        self.monitors.monitors[i].workspace.insert(Client::new(window, false));
        assert(self@ =~= old(self)@.inserted_at(window, i as int));
    }

    /// Takes a window out of the first monitor that shows it from index `from` on,
    /// or lays out the clients if there is none.
    fn unmap_from(&mut self, window: u32, from: usize) -> (reaction: Reaction)
        requires
            old(self)@.accepts_unmap(window, from as int),
        ensures
            final(self)@ == old(self)@.unmap_state(window, from as int),
            reaction@ == old(self)@.unmap_reaction(window, from as int),
    {
        match self.monitors.next_showing(window, from) {
            Some(i) => {
                let actions = self.monitors.monitors[i].unmap(window);
                assert(self@ =~= old(self)@.unmap_state(window, from as int));
                Reaction { actions, next: Next::Unmapped(UnmapWait { window, monitor: i }) }
            },
            None => Reaction::act(self.tile()),
        }
    }

    /// Sets the number of workspaces of every monitor.
    fn resize_workspaces(&mut self, size: usize)
        ensures
            final(self)@ == old(self)@.with_monitors(
                old(self)@.monitors.change_all(|m: MonitorView| m.resized(size as nat)),
            ),
    {
        let resize = |m: &mut Monitor| -> (out: Vec<Action>)
            ensures
                final(m)@ == old(m)@.resized(size as nat),
                out@ == Seq::<Action>::empty(),
            {
                m.workspace.resize(size);
                Vec::new()
            };
        self.monitors.change_all(
            resize,
            Ghost(|m: MonitorView| m.resized(size as nat)),
            Ghost(|m: MonitorView| Seq::<Action>::empty()),
        );
    }

    /// Draws the borders on the monitors under the pointer, with one window as the
    /// one that has the focus.
    fn paint_borders(&mut self, focused: u32, x: u16, y: u16) -> (actions: Vec<Action>)
        requires
            old(self)@.monitors.can_locate(x, y),
        ensures
            final(self)@ == old(self)@,
            actions@ == old(self)@.border_actions(focused, x, y),
    {
        let borders = self.config.windows.borders;
        let paint = |m: &mut Monitor| -> (out: Vec<Action>)
            ensures
                final(m)@ == old(m)@,
                out@ == old(m)@.workspace.border_actions(borders),
            { m.workspace.paint_borders(borders) };
        let mut actions = self.monitors.change_focused(
            x,
            y,
            paint,
            Ghost(|m: MonitorView| m),
            Ghost(|m: MonitorView| m.workspace.border_actions(borders)),
        );
        assert(self.monitors@ =~= old(self).monitors@);
        actions.push(Action::Resolve { window: focused });
        actions.push(Action::SetBorderPixel { window: focused, pixel: borders.focused });
        assert(actions@ =~= old(self)@.border_actions(focused, x, y));
        actions
    }

    /// Draws the borders with one window as the one that has the focus. For the
    /// root window, and for an id that stands for no window, nothing is drawn.
    pub fn set_focused_border(&self, focused: u32) -> (next: Next)
        ensures
            next == self@.border_next(focused),
    {
        if focused != self.root && focused != 1 && focused != 0 {
            Next::Pointer(PointerWait::Borders { focused })
        } else {
            Next::Done
        }
    }

    /// Draws the borders anew, for whichever window has the focus.
    pub fn update_borders(&self) -> (next: Next)
        ensures
            next == Next::Focus(FocusWait::Borders),
    {
        Next::Focus(FocusWait::Borders)
    }

    /// Deals with a request.
    pub fn handle_incoming(&mut self, sequence: Sequence) -> (reaction: Reaction)
        requires
            old(self)@.accepts_request(sequence),
        ensures
            final(self)@ == old(self)@.state_after_request(sequence),
            reaction@ == old(self)@.reaction_to_request(sequence),
    {
        if let Some(op) = sequence.to_client_op() {
            return Reaction::ask(Next::Focus(FocusWait::Client(op)));
        }
        match sequence.request {
            Request::Workspace => {
                Reaction::ask(Next::Pointer(PointerWait::Workspace { number: sequence.value }))
            },
            Request::PaddingTop
            | Request::PaddingBottom
            | Request::PaddingLeft
            | Request::PaddingRight
            | Request::WindowGaps => {
                self.config.configure(sequence);
                Reaction::act(self.tile())
            },
            Request::FocusedBorder | Request::NormalBorder | Request::BorderWidth => {
                self.config.configure(sequence);
                Reaction::ask(self.update_borders())
            },
            Request::EnableMouse | Request::DisableMouse => {
                self.config.configure(sequence);
                Reaction::act(Vec::new())
            },
            Request::WorkspacePerMonitor => {
                self.resize_workspaces(sequence.value as usize);
                Reaction::act(Vec::new())
            },
            _ => Reaction::act(Vec::new()),
        }
    }

    /// Deals with an event.
    pub fn handle_event(&mut self, event: Event) -> (reaction: Reaction)
        requires
            old(self)@.accepts_event(event),
        ensures
            final(self)@ == old(self)@.state_after_event(event),
            reaction@ == old(self)@.reaction_to_event(event),
    {
        let mut actions: Vec<Action> = Vec::new();
        match event {
            Event::MapRequest { window } => {
                return Reaction::ask(Next::Pointer(PointerWait::Insert { window }));
            },
            Event::UnmapNotify { window } => {
                return self.unmap_from(window, 0);
            },
            Event::EnterNotify { window } => {
                if window != self.root {
                    actions.push(Action::Resolve { window });
                    actions.push(Action::SetInputFocus { window });
                }
            },
            Event::FocusIn { window } => {
                return Reaction::ask(self.set_focused_border(window));
            },
            Event::ButtonEvent { kind, root_x, root_y, subwindow, button } => match kind {
                EventKind::Press => {
                    if !self.monitors.is_tiled(subwindow) && self.config.windows.mouse_movement {
                        actions.push(Action::Resolve { window: subwindow });
                        actions.push(Action::Raise { window: subwindow });
                        actions.push(Action::GrabPointer { window: subwindow });
                        let wait = GrabWait { button, window: subwindow, x: root_x, y: root_y };
                        let reaction = Reaction { actions, next: Next::Geometry(wait) };
                        assert(reaction@ =~= old(self)@.reaction_to_event(event));
                        return reaction;
                    }
                },
                EventKind::Release => {
                    if self.grab.is_some() {
                        return Reaction {
                            actions: just(Action::UngrabPointer),
                            next: Next::Ungrabbed,
                        };
                    }
                },
            },
            Event::MotionNotify { root_x, root_y } => {
                if let Some(grab) = self.grab {
                    actions = grab.drag(root_x, root_y);
                }
            },
            Event::ConfigureRequest { .. } => {},
            Event::Other => {},
        }
        let reaction = Reaction::act(actions);
        assert(reaction@ =~= old(self)@.reaction_to_event(event));
        reaction
    }

    /// Goes on once it is known which window has the focus.
    pub fn handle_focus(&mut self, wait: FocusWait, window: u32) -> (reaction: Reaction)
        ensures
            final(self)@ == old(self)@,
            reaction@ == old(self)@.reaction_to_focus(wait, window),
    {
        match wait {
            FocusWait::Client(op) => {
                Reaction::ask(Next::Pointer(PointerWait::Client { op, focus: window }))
            },
            FocusWait::Borders => Reaction::ask(self.set_focused_border(window)),
        }
    }

    /// Goes on once it is known where the pointer is.
    pub fn handle_pointer(&mut self, wait: PointerWait, x: u16, y: u16) -> (reaction: Reaction)
        requires
            old(self)@.accepts_pointer(wait, x, y),
        ensures
            final(self)@ == old(self)@.state_after_pointer(wait, x, y),
            reaction@ == old(self)@.reaction_to_pointer(wait, x, y),
    {
        match wait {
            PointerWait::Workspace { number } => self.select_from(number, x, y, 0),
            PointerWait::Client { op, focus } => match op {
                ClientOp::Kill => Reaction::act(self.kill_focused(focus, x, y)),
                ClientOp::MoveFocus(step) => Reaction::act(self.move_focus(focus, x, y, step)),
                ClientOp::FloatToggle => {
                    self.toggle_focused(focus, x, y);
                    Reaction::act(self.tile())
                },
                ClientOp::Reshape(change) => self.mov_resize_focused(focus, change, x, y, 0),
            },
            PointerWait::Borders { focused } => Reaction::act(self.paint_borders(focused, x, y)),
            PointerWait::Insert { window } => self.insert_from(window, x, y, 0),
        }
    }

    /// Moves and resizes a window to what the change makes of its geometry.
    pub fn handle_placement(&self, wait: ReshapeWait, geometry: Area) -> (reaction: Reaction)
        requires
            wait.change.can_apply(geometry),
        ensures
            reaction@ == (ReactionView {
                actions: seq![
                    Action::MovResize { window: wait.window, area: wait.change.applied(geometry) },
                ],
                next: Next::Reshaped(wait),
            }),
    {
        let area = wait.change.apply(geometry);
        Reaction {
            actions: just(Action::MovResize { window: wait.window, area }),
            next: Next::Reshaped(wait),
        }
    }

    /// Goes on with the next monitor after a window was moved and resized.
    pub fn handle_reshaped(&self, wait: ReshapeWait) -> (reaction: Reaction)
        requires
            self@.accepts_reshaped(wait),
        ensures
            reaction@ == self@.reshape_reaction(
                wait.window,
                wait.change,
                wait.x,
                wait.y,
                wait.monitor + 1,
            ),
    {
        proof {
            self.monitors.is_bounded();
        }
        self.mov_resize_focused(wait.window, wait.change, wait.x, wait.y, wait.monitor + 1)
    }

    /// Adds a window on the monitor that it was looked up for, and goes on with
    /// the next one.
    pub fn handle_resolved(&mut self, wait: InsertWait) -> (reaction: Reaction)
        requires
            old(self)@.accepts_resolved(wait),
        ensures
            final(self)@ == old(self)@.inserted_at(wait.window, wait.monitor as int),
            reaction@ == old(self)@.inserted_at(wait.window, wait.monitor as int).insert_reaction(
                wait.window,
                wait.x,
                wait.y,
                wait.monitor + 1,
            ),
    {
        self.insert_at(wait.window, wait.monitor);
        proof {
            self.monitors.is_bounded();
        }
        self.insert_from(wait.window, wait.x, wait.y, wait.monitor + 1)
    }

    /// Shows a workspace on the next monitor after one was laid out.
    pub fn handle_selected(&mut self, wait: SelectWait) -> (reaction: Reaction)
        requires
            old(self)@.accepts_selected(wait),
        ensures
            final(self)@ == old(self)@.select_state(wait.number, wait.x, wait.y, wait.monitor + 1),
            reaction@ == old(self)@.select_reaction(
                wait.number,
                wait.x,
                wait.y,
                wait.monitor + 1,
            ),
    {
        proof {
            self.monitors.is_bounded();
        }
        self.select_from(wait.number, wait.x, wait.y, wait.monitor + 1)
    }

    /// Takes a window out of the next monitor after it was taken out of one.
    pub fn handle_unmapped(&mut self, wait: UnmapWait) -> (reaction: Reaction)
        requires
            old(self)@.accepts_unmapped(wait),
        ensures
            final(self)@ == old(self)@.unmap_state(wait.window, wait.monitor + 1),
            reaction@ == old(self)@.unmap_reaction(wait.window, wait.monitor + 1),
    {
        proof {
            self.monitors.is_bounded();
        }
        self.unmap_from(wait.window, wait.monitor + 1)
    }

    /// Ends a drag after the grab of the pointer was ended.
    pub fn handle_ungrabbed(&mut self)
        ensures
            final(self)@ == old(self)@.with_grab(None),
    {
        self.grab = None;
    }

    /// A copy of the whole state.
    fn duplicate(&self) -> (copy: WindowManager)
        ensures
            copy@ == self@,
    {
        WindowManager {
            root: self.root,
            monitors: self.monitors.duplicate(),
            config: self.config,
            grab: self.grab,
            should_close: self.should_close,
        }
    }

    /// Whether the clients of every monitor can be laid out.
    pub fn tiles(&self) -> (possible: bool)
        ensures
            possible == self@.can_tile(),
    {
        self.monitors.tiles(self.config)
    }

    /// Whether `handle_incoming` can be asked to deal with the request.
    pub fn takes_request(&self, sequence: Sequence) -> (possible: bool)
        ensures
            possible == self@.accepts_request(sequence),
    {
        match sequence.request {
            Request::PaddingTop
            | Request::PaddingBottom
            | Request::PaddingLeft
            | Request::PaddingRight
            | Request::WindowGaps => {
                let mut config = self.config;
                config.configure(sequence);
                self.monitors.tiles(config)
            },
            _ => true,
        }
    }

    /// Whether `handle_event` can be asked to deal with the event.
    pub fn takes_event(&self, event: Event) -> (possible: bool)
        ensures
            possible == self@.accepts_event(event),
    {
        match event {
            Event::UnmapNotify { window } => self.takes_unmap(window, 0),
            Event::ButtonEvent { kind, subwindow, .. } => match kind {
                EventKind::Press => self.monitors.judges(subwindow),
                EventKind::Release => true,
            },
            Event::MotionNotify { root_x, root_y } => match self.grab {
                Some(grab) => grab.drags(root_x, root_y),
                None => true,
            },
            _ => true,
        }
    }

    /// Whether `handle_pointer` can be asked to go on with the place.
    pub fn takes_pointer(&self, wait: PointerWait, x: u16, y: u16) -> (possible: bool)
        ensures
            possible == self@.accepts_pointer(wait, x, y),
    {
        match wait {
            PointerWait::Workspace { number } => self.takes_select(number, x, y, 0),
            PointerWait::Client { op, focus } => {
                if let ClientOp::Reshape(_) = op {
                    return self.monitors.spots(focus, x, y, 0);
                }
                if !self.monitors.locates(x, y) || !self.monitors.shows_at(x, y) {
                    return false;
                }
                match op {
                    ClientOp::FloatToggle => {
                        let mut trial = self.duplicate();
                        trial.toggle_focused(focus, x, y);
                        trial.tiles()
                    },
                    _ => true,
                }
            },
            PointerWait::Borders { .. } => self.monitors.locates(x, y),
            PointerWait::Insert { .. } => self.takes_insert(x, y, 0),
        }
    }

    fn takes_insert(&self, x: u16, y: u16, from: usize) -> (possible: bool)
        ensures
            possible == self@.accepts_insert(x, y, from as int),
    {
        self.monitors.scans(x, y, from) && (self.monitors.next_under(x, y, from).is_some()
            || self.tiles())
    }

    fn takes_select(&self, number: u32, x: u16, y: u16, from: usize) -> (possible: bool)
        ensures
            possible == self@.accepts_select(number, x, y, from as int),
    {
        self.monitors.scans(x, y, from) && match self.monitors.next_under(x, y, from) {
            Some(i) => self.monitors.monitors[i].tiles_selected(number, self.config),
            None => true,
        }
    }

    fn takes_unmap(&self, window: u32, from: usize) -> (possible: bool)
        ensures
            possible == self@.accepts_unmap(window, from as int),
    {
        self.monitors.seeks(window, from) && match self.monitors.next_showing(window, from) {
            Some(i) => self.monitors.monitors[i].unmaps(window),
            None => self.tiles(),
        }
    }

    /// Whether `handle_resolved` can be asked to go on.
    pub fn takes_resolved(&self, wait: InsertWait) -> (possible: bool)
        ensures
            possible == self@.accepts_resolved(wait),
    {
        if wait.monitor >= self.monitors.monitors.len()
            || !self.monitors.monitors[wait.monitor].workspace.shows() {
            return false;
        }
        let mut trial = self.duplicate();
        trial.insert_at(wait.window, wait.monitor);
        trial.takes_insert(wait.x, wait.y, wait.monitor + 1)
    }

    /// Whether `handle_reshaped` can be asked to go on.
    pub fn takes_reshaped(&self, wait: ReshapeWait) -> (possible: bool)
        ensures
            possible == self@.accepts_reshaped(wait),
    {
        wait.monitor < self.monitors.monitors.len() && self.monitors.spots(
            wait.window,
            wait.x,
            wait.y,
            wait.monitor + 1,
        )
    }

    /// Whether `handle_selected` can be asked to go on.
    pub fn takes_selected(&self, wait: SelectWait) -> (possible: bool)
        ensures
            possible == self@.accepts_selected(wait),
    {
        wait.monitor < self.monitors.monitors.len() && self.takes_select(
            wait.number,
            wait.x,
            wait.y,
            wait.monitor + 1,
        )
    }

    /// Whether `handle_unmapped` can be asked to go on.
    pub fn takes_unmapped(&self, wait: UnmapWait) -> (possible: bool)
        ensures
            possible == self@.accepts_unmapped(wait),
    {
        wait.monitor < self.monitors.monitors.len() && self.takes_unmap(
            wait.window,
            wait.monitor + 1,
        )
    }

    /// Begins a drag once the geometry of its window is known.
    pub fn handle_geometry(&mut self, wait: GrabWait, geometry: Area)
        ensures
            final(self)@ == old(self)@.with_grab(
                Some(
                    Grab {
                        button: wait.button,
                        window: wait.window,
                        geometry,
                        x: wait.x,
                        y: wait.y,
                    },
                ),
            ),
    {
        self.grab = Some(Grab::new(wait.button, wait.window, geometry, wait.x, wait.y));
    }
}

impl ManagerView {
    /// A change of a client to itself leaves everything as it is.
    proof fn changing_nothing(self, focus: u32, x: u16, y: u16)
        requires
            self.monitors.shown_at(x, y),
        ensures
            self.change_client(focus, x, y, |c: Client| c) == self,
    {
        let change = |c: Client| c;
        let after = self.change_client(focus, x, y, change).monitors.monitors;
        assert forall|i: int| 0 <= i < after.len() implies after[i] == self.monitors.monitors[i] by {
            let m = self.monitors.monitors[i];
            if m.area.covers(x, y) {
                crate::workspace::position_is_first(m.workspace.shown(), focus);
                if let Some(i) = m.workspace.find(focus) {
                    let shown = m.workspace.shown();
                    assert(shown.update(i, change(shown[i])) =~= shown);
                }
                assert(m.change_client(focus, change).workspace.workspaces
                    =~= m.workspace.workspaces);
            }
        }
        assert(after =~= self.monitors.monitors);
    }
}

} // verus!
