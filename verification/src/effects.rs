//! What each operation comes to, said of the monitors, clients and numbers that go
//! into it.

use vstd::prelude::*;

use crate::action::Action;
use crate::area::Area;
use crate::config::Config;
use crate::event::{Button, Event, EventKind};
use crate::grab::Grab;
use crate::manager::{ManagerView, WindowManager};
use crate::monitor::{Monitor, MonitorView, Monitors, MonitorsView};
use crate::reaction::{
    FocusWait, GrabWait, InsertWait, Next, PointerWait, Reaction, ReactionView, ReshapeWait, SelectWait,
    UnmapWait,
};
use crate::request::{ClientOp, FocusStep, Request, Sequence};
use crate::reshape::Reshape;
use crate::setup::{
    Done, EventMask, GrabCursor, GrabMode, GrabSettings, PropertyChange, Turn,
};
use crate::workspace::Client;

verus! {

/// Moving adds to or takes from one coordinate, resizing one length, as much as was
/// asked for; what is taken away stops at zero. Everything else stays. Only what is
/// added can go out of range.
pub proof fn reshaping_by_an_amount(change: Reshape, area: Area)
    ensures
        change.can_apply(area) <==> match change {
            Reshape::FloatRight(amount) => area.x + amount < 0x10000,
            Reshape::FloatDown(amount) => area.y + amount < 0x10000,
            Reshape::ResizeRight(amount) => area.width + amount < 0x10000,
            Reshape::ResizeDown(amount) => area.height + amount < 0x10000,
            _ => true,
        },
        change.can_apply(area) ==> {
            let after = change.applied(area);
            &&& after.x == match change {
                Reshape::FloatRight(amount) => area.x + amount,
                Reshape::FloatLeft(amount) => if amount < area.x {
                    area.x - amount
                } else {
                    0
                },
                _ => area.x as int,
            }
            &&& after.y == match change {
                Reshape::FloatDown(amount) => area.y + amount,
                Reshape::FloatUp(amount) => if amount < area.y {
                    area.y - amount
                } else {
                    0
                },
                _ => area.y as int,
            }
            &&& after.width == match change {
                Reshape::ResizeRight(amount) => area.width + amount,
                Reshape::ResizeLeft(amount) => if amount < area.width {
                    area.width - amount
                } else {
                    0
                },
                _ => area.width as int,
            }
            &&& after.height == match change {
                Reshape::ResizeDown(amount) => area.height + amount,
                Reshape::ResizeUp(amount) => if amount < area.height {
                    area.height - amount
                } else {
                    0
                },
                _ => area.height as int,
            }
        },
{
}

/// A coordinate as a number with a sign.
pub open spec fn with_sign(value: u16) -> int {
    if value < 0x8000 {
        value as int
    } else {
        value - 0x10000
    }
}

/// A drag can be followed exactly if neither the distances nor the numbers that they
/// lead to leave the range of numbers with a sign.
pub proof fn drags_stay_in_range(grab: Grab, root_x: u16, root_y: u16)
    ensures
        ({
            let dx = with_sign(root_x) - with_sign(grab.x);
            let dy = with_sign(root_y) - with_sign(grab.y);
            let (a, b) = match grab.button {
                Button::Button1 => (with_sign(grab.geometry.x) + dx, with_sign(grab.geometry.y) + dy),
                Button::Button3 => (
                    with_sign(grab.geometry.width) + dx,
                    with_sign(grab.geometry.height) + dy,
                ),
                _ => (0, 0),
            };
            grab.can_drag(root_x, root_y) <==> (-0x8000 <= dx < 0x8000 && -0x8000 <= dy < 0x8000
                && -0x8000 <= a < 0x8000 && -0x8000 <= b < 0x8000)
        }),
{
}

/// Each request about the client that has the focus is turned into the operation of
/// its name. The amount of a move or resize is the number of the request, counted
/// around 65536; so a number that fits is taken as it is. Any other request is not
/// about that client.
pub proof fn requests_name_their_operation(sequence: Sequence)
    ensures
        ({
            let value = sequence.value;
            let amount = value % 0x10000;
            let op = sequence.client_op();
            &&& value < 0x10000 ==> amount == value
            &&& match sequence.request {
                Request::Kill => op == Some(ClientOp::Kill),
                Request::FocusUp => op == Some(ClientOp::MoveFocus(FocusStep::Up)),
                Request::FocusDown => op == Some(ClientOp::MoveFocus(FocusStep::Down)),
                Request::FocusMaster => op == Some(ClientOp::MoveFocus(FocusStep::Master)),
                Request::FloatToggle => op == Some(ClientOp::FloatToggle),
                Request::FloatRight => op matches Some(ClientOp::Reshape(Reshape::FloatRight(a)))
                    && a == amount,
                Request::FloatLeft => op matches Some(ClientOp::Reshape(Reshape::FloatLeft(a))) && a
                    == amount,
                Request::FloatUp => op matches Some(ClientOp::Reshape(Reshape::FloatUp(a))) && a
                    == amount,
                Request::FloatDown => op matches Some(ClientOp::Reshape(Reshape::FloatDown(a))) && a
                    == amount,
                Request::ResizeRight => op matches Some(ClientOp::Reshape(Reshape::ResizeRight(a)))
                    && a == amount,
                Request::ResizeLeft => op matches Some(ClientOp::Reshape(Reshape::ResizeLeft(a)))
                    && a == amount,
                Request::ResizeUp => op matches Some(ClientOp::Reshape(Reshape::ResizeUp(a))) && a
                    == amount,
                Request::ResizeDown => op matches Some(ClientOp::Reshape(Reshape::ResizeDown(a)))
                    && a == amount,
                _ => op is None,
            }
        }),
{
}

/// Each setting takes the number of the request that is named after it and keeps its
/// value on any other request. A number of pixels is counted around 65536.
pub proof fn settings_take_their_number(config: Config, sequence: Sequence)
    ensures
        ({
            let value = sequence.value;
            let pixels = value % 0x10000;
            let request = sequence.request;
            let after = config.configured(sequence);
            &&& after.padding.top == if request is PaddingTop {
                pixels
            } else {
                config.padding.top as u32
            }
            &&& after.padding.bottom == if request is PaddingBottom {
                pixels
            } else {
                config.padding.bottom as u32
            }
            &&& after.padding.left == if request is PaddingLeft {
                pixels
            } else {
                config.padding.left as u32
            }
            &&& after.padding.right == if request is PaddingRight {
                pixels
            } else {
                config.padding.right as u32
            }
            &&& after.windows.gaps == if request is WindowGaps {
                pixels
            } else {
                config.windows.gaps as u32
            }
            &&& after.windows.borders.width == if request is BorderWidth {
                pixels
            } else {
                config.windows.borders.width as u32
            }
            &&& after.windows.borders.normal == if request is NormalBorder {
                value
            } else {
                config.windows.borders.normal
            }
            &&& after.windows.borders.focused == if request is FocusedBorder {
                value
            } else {
                config.windows.borders.focused
            }
            &&& after.windows.mouse_movement == if request is EnableMouse {
                true
            } else if request is DisableMouse {
                false
            } else {
                config.windows.mouse_movement
            }
        }),
{
}

/// A monitor is laid out within its area less the padding, with the configured gaps;
/// for that, the padding has to fit, and then the clients.
pub proof fn monitor_is_laid_out_within_its_padding(monitor: MonitorView, config: Config)
    ensures
        monitor.can_tile(config) <==> monitor.area.can_pad(config.padding)
            && monitor.workspace.can_tile(
            monitor.area.padded(config.padding),
            config.windows.gaps,
        ),
        monitor.tile_actions(config) == monitor.workspace.tile_actions(
            monitor.area.padded(config.padding),
            config.windows.gaps,
        ),
{
}

/// No change to the workspaces of a monitor moves the monitor.
pub proof fn monitors_stay_in_place(
    monitor: MonitorView,
    client: Client,
    number: u32,
    size: nat,
    wid: u32,
    change: spec_fn(Client) -> Client,
)
    ensures
        monitor.inserted(client).area == monitor.area,
        monitor.inserted(client).workspace == monitor.workspace.inserted(client),
        monitor.selected(number).area == monitor.area,
        monitor.selected(number).workspace == monitor.workspace.selected(number),
        monitor.resized(size).area == monitor.area,
        monitor.resized(size).workspace == monitor.workspace.resized(size),
        monitor.change_client(wid, change).area == monitor.area,
        monitor.change_client(wid, change).workspace == monitor.workspace.change_client(wid, change),
        monitor.unmapped(wid).area == monitor.area,
{
}

/// A window that goes away is taken out at the place where it is found. If it stands
/// in the workspace once more, the focus goes to the client before that place;
/// otherwise it stays. So the only workspace that it cannot be taken out of is one
/// that begins with it twice.
pub proof fn window_goes_away_from_its_place(monitor: MonitorView, wid: u32)
    requires
        monitor.workspace.has_current(),
    ensures
        monitor.unmapped(wid).workspace == match monitor.workspace.find(wid) {
            Some(i) => monitor.workspace.removed(i),
            None => monitor.workspace,
        },
        monitor.unmap_actions(wid) == match monitor.workspace.find(wid) {
            Some(i) => match monitor.workspace.removed(i).find(wid) {
                Some(j) => if j > 0 {
                    seq![
                        Action::SetInputFocus {
                            window: monitor.workspace.removed(i).shown()[j - 1].window,
                        },
                    ]
                } else {
                    Seq::empty()
                },
                None => Seq::empty(),
            },
            None => Seq::empty(),
        },
        ({
            let clients = monitor.workspace.shown();
            monitor.can_unmap(wid) <==> !(clients.len() >= 2 && clients[0].window == wid
                && clients[1].window == wid)
        }),
{
    let clients = monitor.workspace.shown();
    crate::workspace::position_is_first(clients, wid);
    if let Some(i) = monitor.workspace.find(wid) {
        let rest = monitor.workspace.removed(i).shown();
        assert(rest == clients.remove(i));
        crate::workspace::position_is_first(rest, wid);
        if i == 0 && rest.len() > 0 {
            assert(rest[0] == clients[1]);
        }
        if i > 0 {
            assert(rest[0] == clients[0]);
        }
    }
}

/// A monitor needs a workspace that is shown before a window can be taken out.
pub proof fn nothing_goes_away_from_nowhere(monitor: MonitorView, wid: u32)
    ensures
        !monitor.workspace.has_current() ==> !monitor.can_unmap(wid),
{
}

/// From the place of a window, the focus goes to the client before it, or stays at
/// the first one; to the client after it, if there is one; or to the first one. From
/// a window that is not there it goes nowhere.
pub proof fn focus_goes_to_the_neighbour(monitor: MonitorView, focus: u32)
    requires
        monitor.workspace.has_current(),
    ensures
        ({
            let clients = monitor.workspace.shown();
            let up = monitor.move_actions(focus, FocusStep::Up);
            let down = monitor.move_actions(focus, FocusStep::Down);
            let master = monitor.move_actions(focus, FocusStep::Master);
            match monitor.workspace.find(focus) {
                Some(i) => {
                    &&& up == seq![
                        Action::SetInputFocus {
                            window: clients[if i > 0 {
                                i - 1
                            } else {
                                0
                            }].window,
                        },
                    ]
                    &&& i + 1 < clients.len() ==> down == seq![
                        Action::SetInputFocus { window: clients[i + 1].window },
                    ]
                    &&& i + 1 == clients.len() ==> down == Seq::<Action>::empty()
                    &&& master == seq![Action::SetInputFocus { window: clients[0].window }]
                },
                None => {
                    &&& up == Seq::<Action>::empty()
                    &&& down == Seq::<Action>::empty()
                    &&& master == Seq::<Action>::empty()
                },
            }
        }),
{
    crate::workspace::position_is_first(monitor.workspace.shown(), focus);
}

/// A change to all monitors is made to each of them, one to the monitors under the
/// pointer to each that contains it, and no other is touched. What is done for them
/// is done in their order.
pub proof fn monitors_are_visited_in_order(
    monitors: MonitorsView,
    x: u16,
    y: u16,
    change: spec_fn(MonitorView) -> MonitorView,
    report: spec_fn(MonitorView) -> Seq<Action>,
)
    ensures
        ({
            let list = monitors.monitors;
            let all = monitors.change_all(change);
            let focused = monitors.change_focused(x, y, change);
            &&& all.root == monitors.root && focused.root == monitors.root
            &&& all.monitors.len() == list.len() && focused.monitors.len() == list.len()
            &&& forall|i: int| 0 <= i < list.len() ==> #[trigger] all.monitors[i] == change(list[i])
            &&& forall|i: int|
                0 <= i < list.len() ==> #[trigger] focused.monitors[i] == if list[i].area.covers(
                    x,
                    y,
                ) {
                    change(list[i])
                } else {
                    list[i]
                }
            &&& monitors.actions_for_all(report) == Seq::new(
                list.len(),
                |i: int| report(list[i]),
            ).flatten()
            &&& monitors.actions_for_focused(x, y, report) == Seq::new(
                list.len(),
                |i: int|
                    if list[i].area.covers(x, y) {
                        report(list[i])
                    } else {
                        Seq::empty()
                    },
            ).flatten()
        }),
{
    let list = monitors.monitors;
    let step = |m: MonitorView|
        if m.area.covers(x, y) {
            report(m)
        } else {
            Seq::empty()
        };
    assert(list.map_values(report) =~= Seq::new(list.len(), |i: int| report(list[i])));
    assert(list.map_values(step) =~= Seq::new(
        list.len(),
        |i: int|
            if list[i].area.covers(x, y) {
                report(list[i])
            } else {
                Seq::empty()
            },
    ));
    assert(monitors.actions_for_focused(x, y, report) == list.map_values(step).flatten());
}

/// What has to hold of every monitor is asked of each of them.
pub proof fn every_monitor_is_asked(
    monitors: MonitorsView,
    wid: u32,
    n: int,
    x: u16,
    y: u16,
    config: Config,
)
    requires
        0 <= n <= monitors.monitors.len(),
    ensures
        ({
            let list = monitors.monitors;
            &&& monitors.can_locate(x, y) <==> forall|i: int|
                0 <= i < list.len() ==> (#[trigger] list[i]).area.can_locate(x, y)
            &&& monitors.shown_at(x, y) <==> forall|i: int|
                0 <= i < list.len() && (#[trigger] list[i]).area.covers(x, y)
                    ==> list[i].workspace.has_current()
            &&& monitors.can_tile(config) <==> forall|i: int|
                0 <= i < list.len() ==> (#[trigger] list[i]).can_tile(config)
            &&& monitors.floats_on_first(wid, n) <==> forall|i: int|
                0 <= i < n ==> (#[trigger] list[i]).workspace.floats(wid)
            &&& monitors.can_judge(wid) <==> forall|i: int|
                0 <= i < list.len() && (forall|j: int|
                    0 <= j < i ==> (#[trigger] list[j]).workspace.floats(wid)) ==> (
                #[trigger] list[i]).workspace.has_current()
        }),
{
    let list = monitors.monitors;
    if monitors.can_judge(wid) {
        assert forall|i: int|
            0 <= i < list.len() && (forall|j: int|
                0 <= j < i ==> (#[trigger] list[j]).workspace.floats(wid)) implies (
        #[trigger] list[i]).workspace.has_current() by {
            assert(monitors.floats_on_first(wid, i));
        }
    }
}

/// A search for a monitor under the pointer looks at each monitor up to the one that
/// it finds, and at no other.
pub proof fn search_under_the_pointer_looks_no_further(
    monitors: MonitorsView,
    x: u16,
    y: u16,
    from: int,
)
    requires
        0 <= from,
    ensures
        monitors.can_scan(x, y, from) <==> forall|i: int|
            from <= i < monitors.monitors.len() && (monitors.under(x, y, from) matches Some(k) ==> i
                <= k) ==> (#[trigger] monitors.monitors[i]).area.can_locate(x, y),
    decreases monitors.monitors.len() - from,
{
    crate::monitor::under_is_first(monitors, x, y, from);
    if from < monitors.monitors.len() {
        let here = monitors.monitors[from];
        search_under_the_pointer_looks_no_further(monitors, x, y, from + 1);
        crate::monitor::under_is_first(monitors, x, y, from + 1);
    }
}

/// A search for a monitor that shows a window looks at each monitor up to the one
/// that it finds, and at no other.
pub proof fn search_for_a_window_looks_no_further(monitors: MonitorsView, wid: u32, from: int)
    requires
        0 <= from,
    ensures
        monitors.can_seek(wid, from) <==> forall|i: int|
            from <= i < monitors.monitors.len() && (monitors.showing(wid, from) matches Some(k)
                ==> i <= k) ==> (#[trigger] monitors.monitors[i]).workspace.has_current(),
    decreases monitors.monitors.len() - from,
{
    crate::monitor::showing_is_first(monitors, wid, from);
    if from < monitors.monitors.len() {
        let here = monitors.monitors[from];
        search_for_a_window_looks_no_further(monitors, wid, from + 1);
        crate::monitor::showing_is_first(monitors, wid, from + 1);
    }
}

/// A search for a monitor under the pointer where a window floats looks at each
/// monitor up to the one that it finds, and at no other.
pub proof fn search_for_a_floating_window_looks_no_further(
    monitors: MonitorsView,
    wid: u32,
    x: u16,
    y: u16,
    from: int,
)
    requires
        0 <= from,
    ensures
        monitors.can_spot(wid, x, y, from) <==> forall|i: int|
            from <= i < monitors.monitors.len() && (monitors.floating(wid, x, y, from) matches Some(k)
                ==> i <= k) ==> (#[trigger] monitors.monitors[i]).area.can_locate(x, y) && (
            monitors.monitors[i].area.covers(x, y)
                ==> monitors.monitors[i].workspace.has_current()),
    decreases monitors.monitors.len() - from,
{
    crate::monitor::floating_is_first(monitors, wid, x, y, from);
    if from < monitors.monitors.len() {
        let here = monitors.monitors[from];
        search_for_a_floating_window_looks_no_further(monitors, wid, x, y, from + 1);
        crate::monitor::floating_is_first(monitors, wid, x, y, from + 1);
    }
}

/// The parts of the state are exchanged one at a time.
pub proof fn one_part_is_exchanged(
    manager: ManagerView,
    monitors: MonitorsView,
    config: Config,
    grab: Option<Grab>,
    i: int,
    monitor: MonitorView,
)
    ensures
        manager.with_monitors(monitors) == (ManagerView { monitors, ..manager }),
        manager.with_config(config) == (ManagerView { config, ..manager }),
        manager.with_grab(grab) == (ManagerView { grab, ..manager }),
        0 <= i < manager.monitors.monitors.len() ==> {
            let after = manager.with_monitor(i, monitor);
            &&& after == (ManagerView { monitors: after.monitors, ..manager })
            &&& after.monitors.root == manager.monitors.root
            &&& after.monitors.monitors.len() == manager.monitors.monitors.len()
            &&& after.monitors.monitors[i] == monitor
            &&& forall|j: int|
                0 <= j < manager.monitors.monitors.len() && j != i
                    ==> #[trigger] after.monitors.monitors[j] == manager.monitors.monitors[j]
        },
{
}

/// The clients of the monitors are laid out monitor by monitor, with the
/// configuration that holds.
pub proof fn layout_goes_monitor_by_monitor(manager: ManagerView)
    ensures
        manager.tile_actions() == Seq::new(
            manager.monitors.monitors.len(),
            |i: int| manager.monitors.monitors[i].tile_actions(manager.config),
        ).flatten(),
        manager.can_tile() <==> forall|i: int|
            0 <= i < manager.monitors.monitors.len() ==> (
            #[trigger] manager.monitors.monitors[i]).can_tile(manager.config),
{
    let report = |m: MonitorView| m.tile_actions(manager.config);
    assert(manager.monitors.monitors.map_values(report) =~= Seq::new(
        manager.monitors.monitors.len(),
        |i: int| manager.monitors.monitors[i].tile_actions(manager.config),
    ));
}

/// Every map request, of whatever window, asks where the pointer is in order to add
/// that window there, and does nothing before.
pub proof fn every_map_request_leads_to_adding(manager: ManagerView, window: u32)
    ensures
        ({
            let event = Event::MapRequest { window };
            &&& manager.accepts_event(event)
            &&& manager.state_after_event(event) == manager
            &&& manager.reaction_to_event(event).actions == Seq::<Action>::empty()
            &&& manager.reaction_to_event(event).next == Next::Pointer(
                PointerWait::Insert { window },
            )
        }),
{
}

/// From the reply on, the window is looked up for the first monitor under the
/// pointer. Each lookup that went through adds a tiled client of the window behind
/// the others of that monitor, on no other monitor, and leads to the lookup for the
/// next one. After the last monitor, the clients are laid out, and the window is
/// looked up, watched and given the focus; then its border is drawn.
pub proof fn adding_goes_monitor_by_monitor(
    manager: ManagerView,
    window: u32,
    x: u16,
    y: u16,
    from: int,
    i: int,
)
    requires
        0 <= i < manager.monitors.monitors.len(),
    ensures
        ({
            let wait = PointerWait::Insert { window };
            &&& manager.state_after_pointer(wait, x, y) == manager
            &&& manager.reaction_to_pointer(wait, x, y) == manager.insert_reaction(window, x, y, 0)
            &&& manager.accepts_pointer(wait, x, y) == manager.accepts_insert(x, y, 0)
        }),
        ({
            let reaction = manager.insert_reaction(window, x, y, from);
            match manager.monitors.under(x, y, from) {
                Some(k) => {
                    &&& reaction.actions == seq![Action::Resolve { window }]
                    &&& reaction.next == Next::Resolved(
                        InsertWait { window, x, y, monitor: k as usize },
                    )
                },
                None => {
                    &&& reaction.actions == manager.tile_actions() + seq![
                        Action::Resolve { window },
                        Action::SelectInput { window },
                        Action::SetInputFocus { window },
                    ]
                    &&& reaction.next == manager.border_next(window)
                },
            }
        }),
        manager.accepts_insert(x, y, from) <==> manager.monitors.can_scan(x, y, from) && (
        manager.monitors.under(x, y, from) is Some || manager.can_tile()),
        ({
            let after = manager.inserted_at(window, i);
            &&& after == (ManagerView { monitors: after.monitors, ..manager })
            &&& after.monitors.root == manager.monitors.root
            &&& after.monitors.monitors.len() == manager.monitors.monitors.len()
            &&& after.monitors.monitors[i].area == manager.monitors.monitors[i].area
            &&& after.monitors.monitors[i].workspace
                == manager.monitors.monitors[i].workspace.inserted(Client { window, float: false })
            &&& forall|j: int|
                0 <= j < manager.monitors.monitors.len() && j != i
                    ==> #[trigger] after.monitors.monitors[j] == manager.monitors.monitors[j]
        }),
{
}

/// When a window was looked up for a monitor, that monitor has to be there and to show
/// a workspace, and the next step has to be possible once the window is added.
pub proof fn lookup_can_be_followed(manager: ManagerView, wait: InsertWait)
    ensures
        manager.accepts_resolved(wait) <==> wait.monitor < manager.monitors.monitors.len()
            && manager.monitors.monitors[wait.monitor as int].workspace.has_current()
            && manager.inserted_at(wait.window, wait.monitor as int).accepts_insert(
            wait.x,
            wait.y,
            wait.monitor + 1,
        ),
{
}

/// A window that goes away is taken out of the first monitor that shows it, and of no
/// other in the same step; after the last one, the clients are laid out.
pub proof fn unmapping_goes_monitor_by_monitor(manager: ManagerView, window: u32, from: int)
    requires
        0 <= from,
    ensures
        ({
            let event = Event::UnmapNotify { window };
            &&& manager.accepts_event(event) == manager.accepts_unmap(window, 0)
            &&& manager.state_after_event(event) == manager.unmap_state(window, 0)
            &&& manager.reaction_to_event(event) == manager.unmap_reaction(window, 0)
        }),
        ({
            let list = manager.monitors.monitors;
            let after = manager.unmap_state(window, from);
            let reaction = manager.unmap_reaction(window, from);
            match manager.monitors.showing(window, from) {
                Some(k) => {
                    &&& after == manager.with_monitor(k, list[k].unmapped(window))
                    &&& reaction.actions == list[k].unmap_actions(window)
                    &&& reaction.next == Next::Unmapped(UnmapWait { window, monitor: k as usize })
                    &&& manager.accepts_unmap(window, from) <==> manager.monitors.can_seek(
                        window,
                        from,
                    ) && list[k].can_unmap(window)
                },
                None => {
                    &&& after == manager
                    &&& reaction.actions == manager.tile_actions()
                    &&& reaction.next == Next::Done
                    &&& manager.accepts_unmap(window, from) <==> manager.monitors.can_seek(
                        window,
                        from,
                    ) && manager.can_tile()
                },
            }
        }),
{
}

/// Later steps of taking a window out and of showing a workspace, and of moving or
/// resizing a window, need the monitor of the step before to be there.
pub proof fn steps_can_be_followed(
    manager: ManagerView,
    unmap: UnmapWait,
    select: SelectWait,
    reshape: ReshapeWait,
)
    ensures
        ({
            let n = manager.monitors.monitors.len();
            &&& manager.accepts_unmapped(unmap) <==> unmap.monitor < n && manager.accepts_unmap(
                unmap.window,
                unmap.monitor + 1,
            )
            &&& manager.accepts_selected(select) <==> select.monitor < n && manager.accepts_select(
                select.number,
                select.x,
                select.y,
                select.monitor + 1,
            )
            &&& manager.accepts_reshaped(reshape) <==> reshape.monitor < n
                && manager.monitors.can_spot(
                reshape.window,
                reshape.x,
                reshape.y,
                reshape.monitor + 1,
            )
        }),
{
}

/// The pointer entering a window gives it the focus, unless it is the root window.
pub proof fn focus_follows_the_pointer(manager: ManagerView, window: u32)
    ensures
        ({
            let event = Event::EnterNotify { window };
            &&& manager.accepts_event(event)
            &&& manager.state_after_event(event) == manager
            &&& manager.reaction_to_event(event).next == Next::Done
            &&& window != manager.root ==> manager.reaction_to_event(event).actions == seq![
                Action::Resolve { window },
                Action::SetInputFocus { window },
            ]
            &&& window == manager.root ==> manager.reaction_to_event(event).actions == Seq::<
                Action,
            >::empty()
        }),
{
}

/// A window that gets the focus has the borders drawn anew, unless it is the root
/// window or one of the ids 0 and 1.
pub proof fn borders_follow_the_focus(manager: ManagerView, window: u32)
    ensures
        ({
            let event = Event::FocusIn { window };
            let none = window == manager.root || window == 0 || window == 1;
            &&& manager.accepts_event(event)
            &&& manager.state_after_event(event) == manager
            &&& manager.reaction_to_event(event).actions == Seq::<Action>::empty()
            &&& manager.reaction_to_event(event).next == manager.border_next(window)
            &&& manager.border_next(window) == if none {
                Next::Done
            } else {
                Next::Pointer(PointerWait::Borders { focused: window })
            }
        }),
{
}

/// The borders are drawn on the monitors under the pointer, in their order, and then
/// on the window that has the focus.
pub proof fn borders_are_drawn_in_order(manager: ManagerView, focused: u32, x: u16, y: u16)
    ensures
        ({
            let list = manager.monitors.monitors;
            let borders = manager.config.windows.borders;
            let wait = PointerWait::Borders { focused };
            &&& manager.accepts_pointer(wait, x, y) == manager.monitors.can_locate(x, y)
            &&& manager.state_after_pointer(wait, x, y) == manager
            &&& manager.reaction_to_pointer(wait, x, y).next == Next::Done
            &&& manager.reaction_to_pointer(wait, x, y).actions == Seq::new(
                list.len(),
                |i: int|
                    if list[i].area.covers(x, y) {
                        list[i].workspace.border_actions(borders)
                    } else {
                        Seq::empty()
                    },
            ).flatten() + seq![
                Action::Resolve { window: focused },
                Action::SetBorderPixel { window: focused, pixel: borders.focused },
            ]
        }),
{
    let borders = manager.config.windows.borders;
    let report = |m: MonitorView| m.workspace.border_actions(borders);
    monitors_are_visited_in_order(manager.monitors, x, y, |m: MonitorView| m, report);
    let list = manager.monitors.monitors;
    assert(Seq::new(
        list.len(),
        |i: int|
            if list[i].area.covers(x, y) {
                report(list[i])
            } else {
                Seq::empty()
            },
    ) =~= Seq::new(
        list.len(),
        |i: int|
            if list[i].area.covers(x, y) {
                list[i].workspace.border_actions(borders)
            } else {
                Seq::empty()
            },
    ));
}

/// A press begins a drag exactly if the window floats on every monitor and the mouse
/// may move windows: the window is looked up, raised and grabbed, and its geometry is
/// asked for, with the button and the place of the press. Any other press does
/// nothing.
pub proof fn press_begins_a_drag(
    manager: ManagerView,
    root_x: u16,
    root_y: u16,
    subwindow: u32,
    button: Button,
)
    ensures
        ({
            let event = Event::ButtonEvent {
                kind: EventKind::Press,
                root_x,
                root_y,
                subwindow,
                button,
            };
            let reaction = manager.reaction_to_event(event);
            let begins = manager.config.windows.mouse_movement && forall|i: int|
                0 <= i < manager.monitors.monitors.len() ==> (
                #[trigger] manager.monitors.monitors[i]).workspace.floats(subwindow);
            &&& manager.accepts_event(event) == manager.monitors.can_judge(subwindow)
            &&& manager.state_after_event(event) == manager
            &&& begins ==> {
                &&& reaction.actions == seq![
                    Action::Resolve { window: subwindow },
                    Action::Raise { window: subwindow },
                    Action::GrabPointer { window: subwindow },
                ]
                &&& reaction.next == Next::Geometry(
                    GrabWait { button, window: subwindow, x: root_x, y: root_y },
                )
            }
            &&& !begins ==> {
                &&& reaction.actions == Seq::<Action>::empty()
                &&& reaction.next == Next::Done
            }
        }),
{
}

/// A released button asks for the end of the grab exactly if there is a drag, whatever
/// the button and wherever the pointer is; motion is followed exactly if there is one.
pub proof fn release_and_motion_need_a_drag(
    manager: ManagerView,
    root_x: u16,
    root_y: u16,
    subwindow: u32,
    button: Button,
)
    ensures
        ({
            let release = Event::ButtonEvent {
                kind: EventKind::Release,
                root_x,
                root_y,
                subwindow,
                button,
            };
            let reaction = manager.reaction_to_event(release);
            &&& manager.accepts_event(release)
            &&& manager.state_after_event(release) == manager
            &&& manager.grab is Some ==> reaction.actions == seq![Action::UngrabPointer]
                && reaction.next == Next::Ungrabbed
            &&& manager.grab is None ==> reaction.actions == Seq::<Action>::empty() && reaction.next
                == Next::Done
        }),
        ({
            let motion = Event::MotionNotify { root_x, root_y };
            let reaction = manager.reaction_to_event(motion);
            &&& manager.state_after_event(motion) == manager
            &&& reaction.next == Next::Done
            &&& match manager.grab {
                Some(grab) => {
                    &&& reaction.actions == grab.drag_actions(root_x, root_y)
                    &&& manager.accepts_event(motion) == grab.can_drag(root_x, root_y)
                },
                None => {
                    &&& reaction.actions == Seq::<Action>::empty()
                    &&& manager.accepts_event(motion)
                },
            }
        }),
{
}

/// Requests of windows to be placed elsewhere, and events that are not known, do
/// nothing.
pub proof fn other_events_do_nothing(manager: ManagerView, window: u32)
    ensures
        forall|event: Event|
            event == (Event::ConfigureRequest { window }) || event == Event::Other ==> {
                &&& #[trigger] manager.accepts_event(event)
                &&& manager.state_after_event(event) == manager
                &&& manager.reaction_to_event(event).actions == Seq::<Action>::empty()
                &&& manager.reaction_to_event(event).next == Next::Done
            },
{
}

/// What each request leads to. Requests about the client that has the focus ask which
/// window that is; the request for a workspace asks where the pointer is; paddings
/// and gaps lay out anew, and have to leave room for that; borders are drawn anew;
/// the number of workspaces is set on every monitor; the others do nothing more.
pub proof fn requests_lead_on(manager: ManagerView, sequence: Sequence)
    ensures
        ({
            let value = sequence.value;
            let after = manager.state_after_request(sequence);
            let reaction = manager.reaction_to_request(sequence);
            let quiet = reaction.actions == Seq::<Action>::empty();
            let configured = after == manager.with_config(manager.config.configured(sequence));
            match sequence.request {
                Request::Workspace => {
                    &&& manager.accepts_request(sequence)
                    &&& after == manager
                    &&& quiet
                    &&& reaction.next == Next::Pointer(PointerWait::Workspace { number: value })
                },
                Request::PaddingTop
                | Request::PaddingBottom
                | Request::PaddingLeft
                | Request::PaddingRight
                | Request::WindowGaps => {
                    &&& manager.accepts_request(sequence) == after.can_tile()
                    &&& configured
                    &&& reaction.actions == after.tile_actions()
                    &&& reaction.next == Next::Done
                },
                Request::FocusedBorder | Request::NormalBorder | Request::BorderWidth => {
                    &&& manager.accepts_request(sequence)
                    &&& configured
                    &&& quiet
                    &&& reaction.next == Next::Focus(FocusWait::Borders)
                },
                Request::EnableMouse | Request::DisableMouse => {
                    &&& manager.accepts_request(sequence)
                    &&& configured
                    &&& quiet
                    &&& reaction.next == Next::Done
                },
                Request::WorkspacePerMonitor => {
                    &&& manager.accepts_request(sequence)
                    &&& after == manager.with_monitors(after.monitors)
                    &&& after.monitors.root == manager.monitors.root
                    &&& after.monitors.monitors.len() == manager.monitors.monitors.len()
                    &&& forall|i: int|
                        0 <= i < manager.monitors.monitors.len() ==> {
                            &&& (#[trigger] after.monitors.monitors[i]).area
                                == manager.monitors.monitors[i].area
                            &&& after.monitors.monitors[i].workspace
                                == manager.monitors.monitors[i].workspace.resized(value as nat)
                        }
                    &&& quiet
                    &&& reaction.next == Next::Done
                },
                Request::Close | Request::Unknown => {
                    &&& manager.accepts_request(sequence)
                    &&& after == manager
                    &&& quiet
                    &&& reaction.next == Next::Done
                },
                _ => {
                    &&& manager.accepts_request(sequence)
                    &&& after == manager
                    &&& quiet
                    &&& sequence.client_op() matches Some(op) && reaction.next == Next::Focus(
                        FocusWait::Client(op),
                    )
                },
            }
        }),
{
}

/// Once it is known which window has the focus, the place of the pointer is asked for:
/// for an operation on the client of that window, or to draw the borders, if the
/// window has one.
pub proof fn focus_leads_on(manager: ManagerView, op: ClientOp, window: u32)
    ensures
        ({
            let client = manager.reaction_to_focus(FocusWait::Client(op), window);
            let borders = manager.reaction_to_focus(FocusWait::Borders, window);
            &&& client.actions == Seq::<Action>::empty()
            &&& client.next == Next::Pointer(PointerWait::Client { op, focus: window })
            &&& borders.actions == Seq::<Action>::empty()
            &&& borders.next == manager.border_next(window)
        }),
{
}

/// A workspace is shown on the first monitor under the pointer, which is laid out, and
/// on no other in the same step.
pub proof fn selecting_goes_monitor_by_monitor(
    manager: ManagerView,
    number: u32,
    x: u16,
    y: u16,
    from: int,
)
    requires
        0 <= from,
    ensures
        ({
            let wait = PointerWait::Workspace { number };
            &&& manager.accepts_pointer(wait, x, y) == manager.accepts_select(number, x, y, 0)
            &&& manager.state_after_pointer(wait, x, y) == manager.select_state(number, x, y, 0)
            &&& manager.reaction_to_pointer(wait, x, y) == manager.select_reaction(number, x, y, 0)
        }),
        ({
            let list = manager.monitors.monitors;
            let after = manager.select_state(number, x, y, from);
            let reaction = manager.select_reaction(number, x, y, from);
            match manager.monitors.under(x, y, from) {
                Some(k) => {
                    &&& after == manager.with_monitor(k, list[k].selected(number))
                    &&& reaction.actions == list[k].selected(number).tile_actions(manager.config)
                    &&& reaction.next == Next::Selected(
                        SelectWait { number, x, y, monitor: k as usize },
                    )
                    &&& manager.accepts_select(number, x, y, from) <==> manager.monitors.can_scan(
                        x,
                        y,
                        from,
                    ) && list[k].selected(number).can_tile(manager.config)
                },
                None => {
                    &&& after == manager
                    &&& reaction.actions == Seq::<Action>::empty()
                    &&& reaction.next == Next::Done
                    &&& manager.accepts_select(number, x, y, from) <==> manager.monitors.can_scan(
                        x,
                        y,
                        from,
                    )
                },
            }
        }),
{
}

/// Moving or resizing asks for the geometry of the window because of the first monitor
/// under the pointer where it floats, and changes nothing in the state.
pub proof fn reshaping_asks_for_the_geometry(
    manager: ManagerView,
    focus: u32,
    change: Reshape,
    x: u16,
    y: u16,
    from: int,
)
    ensures
        ({
            let wait = PointerWait::Client { op: ClientOp::Reshape(change), focus };
            &&& manager.accepts_pointer(wait, x, y) == manager.monitors.can_spot(focus, x, y, 0)
            &&& manager.state_after_pointer(wait, x, y) == manager
            &&& manager.reaction_to_pointer(wait, x, y) == manager.reshape_reaction(
                focus,
                change,
                x,
                y,
                0,
            )
        }),
        ({
            let reaction = manager.reshape_reaction(focus, change, x, y, from);
            &&& reaction.actions == Seq::<Action>::empty()
            &&& reaction.next == match manager.monitors.floating(focus, x, y, from) {
                Some(k) => Next::Placement(
                    ReshapeWait { window: focus, change, x, y, monitor: k as usize },
                ),
                None => Next::Done,
            }
        }),
{
}

/// The window that has the focus is killed once for each monitor under the pointer that
/// shows it, whether it floats or not, and nothing else is done.
pub proof fn kill_reaches_the_focus_on_every_monitor(
    manager: ManagerView,
    focus: u32,
    x: u16,
    y: u16,
)
    ensures
        ({
            let list = manager.monitors.monitors;
            let wait = PointerWait::Client { op: ClientOp::Kill, focus };
            &&& manager.accepts_pointer(wait, x, y) <==> manager.monitors.can_locate(x, y)
                && manager.monitors.shown_at(x, y)
            &&& manager.state_after_pointer(wait, x, y) == manager
            &&& manager.reaction_to_pointer(wait, x, y).next == Next::Done
            &&& manager.reaction_to_pointer(wait, x, y).actions == Seq::new(
                list.len(),
                |i: int|
                    if list[i].area.covers(x, y) && list[i].workspace.find(focus) is Some {
                        seq![Action::Kill { window: focus }]
                    } else {
                        Seq::<Action>::empty()
                    },
            ).flatten()
            &&& manager.reaction_to_pointer(wait, x, y).actions.contains(
                Action::Kill { window: focus },
            ) <==> exists|i: int|
                0 <= i < list.len() && (#[trigger] list[i]).area.covers(x, y)
                    && list[i].workspace.find(focus) is Some
        }),
{
    let list = manager.monitors.monitors;
    let kill = |c: Client| seq![Action::Kill { window: c.window }];
    let report = |m: MonitorView| m.workspace.actions_for_client(focus, kill);
    monitors_are_visited_in_order(manager.monitors, x, y, |m: MonitorView| m, report);
    let visited = Seq::new(
        list.len(),
        |i: int|
            if list[i].area.covers(x, y) {
                report(list[i])
            } else {
                Seq::empty()
            },
    );
    let expected = Seq::new(
        list.len(),
        |i: int|
            if list[i].area.covers(x, y) && list[i].workspace.find(focus) is Some {
                seq![Action::Kill { window: focus }]
            } else {
                Seq::<Action>::empty()
            },
    );
    assert forall|i: int| 0 <= i < list.len() implies visited[i] == expected[i] by {
        crate::workspace::position_is_first(list[i].workspace.shown(), focus);
    }
    assert(visited =~= expected);
    assert(manager.actions_for_client(focus, x, y, kill) == visited.flatten());
    let action = Action::Kill { window: focus };
    crate::workspace::flatten_contains(expected, action);
    assert forall|i: int| 0 <= i < list.len() implies (#[trigger] expected[i]).contains(action) == (
    list[i].area.covers(x, y) && list[i].workspace.find(focus) is Some) by {
        if list[i].area.covers(x, y) && list[i].workspace.find(focus) is Some {
            assert(expected[i][0] == action);
        }
    }
    if exists|i: int|
        0 <= i < list.len() && (#[trigger] list[i]).area.covers(x, y)
            && list[i].workspace.find(focus) is Some {
        let i = choose|i: int|
            0 <= i < list.len() && (#[trigger] list[i]).area.covers(x, y)
                && list[i].workspace.find(focus) is Some;
        assert(expected[i].contains(action));
    }
}

/// The focus is moved on the monitors under the pointer, in their order.
pub proof fn focus_moves_on_every_monitor(
    manager: ManagerView,
    step: FocusStep,
    focus: u32,
    x: u16,
    y: u16,
)
    ensures
        ({
            let list = manager.monitors.monitors;
            let wait = PointerWait::Client { op: ClientOp::MoveFocus(step), focus };
            &&& manager.accepts_pointer(wait, x, y) <==> manager.monitors.can_locate(x, y)
                && manager.monitors.shown_at(x, y)
            &&& manager.state_after_pointer(wait, x, y) == manager
            &&& manager.reaction_to_pointer(wait, x, y).next == Next::Done
            &&& manager.reaction_to_pointer(wait, x, y).actions == Seq::new(
                list.len(),
                |i: int|
                    if list[i].area.covers(x, y) {
                        list[i].move_actions(focus, step)
                    } else {
                        Seq::<Action>::empty()
                    },
            ).flatten()
        }),
{
    let list = manager.monitors.monitors;
    let report = |m: MonitorView| m.move_actions(focus, step);
    monitors_are_visited_in_order(manager.monitors, x, y, |m: MonitorView| m, report);
    assert(Seq::new(
        list.len(),
        |i: int|
            if list[i].area.covers(x, y) {
                report(list[i])
            } else {
                Seq::empty()
            },
    ) =~= Seq::new(
        list.len(),
        |i: int|
            if list[i].area.covers(x, y) {
                list[i].move_actions(focus, step)
            } else {
                Seq::<Action>::empty()
            },
    ));
}

/// Toggling turns a floating client into a tiled one and the other way round: on each
/// monitor under the pointer the client at the place where the window that has the
/// focus is found, and no other client anywhere. Then all clients are laid out.
pub proof fn toggle_reaches_the_focus(manager: ManagerView, focus: u32, x: u16, y: u16)
    requires
        manager.monitors.shown_at(x, y),
    ensures
        ({
            let list = manager.monitors.monitors;
            let wait = PointerWait::Client { op: ClientOp::FloatToggle, focus };
            let after = manager.state_after_pointer(wait, x, y);
            &&& after == manager.with_monitors(after.monitors)
            &&& after.monitors.root == manager.monitors.root
            &&& after.monitors.monitors.len() == list.len()
            &&& forall|i: int|
                0 <= i < list.len() ==> {
                    let before = list[i].workspace;
                    let toggled = (#[trigger] after.monitors.monitors[i]).workspace;
                    &&& after.monitors.monitors[i].area == list[i].area
                    &&& toggled.current == before.current
                    &&& toggled.workspaces.len() == before.workspaces.len()
                    &&& forall|w: int|
                        0 <= w < before.workspaces.len() ==> (
                        #[trigger] toggled.workspaces[w]).len() == before.workspaces[w].len()
                    &&& forall|w: int, k: int|
                        0 <= w < before.workspaces.len() && 0 <= k < before.workspaces[w].len() ==> {
                            let client = before.workspaces[w][k];
                            let found = list[i].area.covers(x, y) && w == before.current
                                && before.find(focus) == Some(k);
                            &&& (#[trigger] toggled.workspaces[w][k]).window == client.window
                            &&& found ==> toggled.workspaces[w][k].float != client.float
                            &&& !found ==> toggled.workspaces[w][k].float == client.float
                        }
                }
            &&& manager.reaction_to_pointer(wait, x, y).actions == after.tile_actions()
            &&& manager.reaction_to_pointer(wait, x, y).next == Next::Done
            &&& manager.accepts_pointer(wait, x, y) <==> manager.monitors.can_locate(x, y)
                && after.can_tile()
        }),
{
    let list = manager.monitors.monitors;
    let toggle = |c: Client| Client { float: !c.float, ..c };
    let none = |c: Client| Seq::<Action>::empty();
    let after = manager.toggled(focus, x, y);
    assert forall|i: int| 0 <= i < list.len() implies {
        let before = list[i].workspace;
        let toggled = (#[trigger] after.monitors.monitors[i]).workspace;
        &&& after.monitors.monitors[i].area == list[i].area
        &&& toggled.current == before.current
        &&& toggled.workspaces.len() == before.workspaces.len()
        &&& forall|w: int|
            0 <= w < before.workspaces.len() ==> (#[trigger] toggled.workspaces[w]).len()
                == before.workspaces[w].len()
        &&& forall|w: int, k: int|
            0 <= w < before.workspaces.len() && 0 <= k < before.workspaces[w].len() ==> {
                let client = before.workspaces[w][k];
                let found = list[i].area.covers(x, y) && w == before.current && before.find(focus)
                    == Some(k);
                &&& (#[trigger] toggled.workspaces[w][k]).window == client.window
                &&& found ==> toggled.workspaces[w][k].float != client.float
                &&& !found ==> toggled.workspaces[w][k].float == client.float
            }
    } by {
        if list[i].area.covers(x, y) {
            crate::workspace::change_reaches_the_found_client(
                list[i].workspace,
                focus,
                toggle,
                none,
            );
            assert(after.monitors.monitors[i].workspace == list[i].workspace.change_client(
                focus,
                toggle,
            ));
        }
    }
}

/// A reaction is what it was made of.
pub proof fn reactions_hold_what_they_are_given(actions: Seq<Action>, next: Next)
    ensures
        ReactionView::act(actions).actions == actions,
        ReactionView::act(actions).next == Next::Done,
        ReactionView::ask(next).actions == Seq::<Action>::empty(),
        ReactionView::ask(next).next == next,
{
}

/// The four bytes of an id make up the id again, the first one counting least.
pub proof fn bytes_make_up_the_number(value: u32)
    ensures
        ({
            let bytes = crate::setup::bytes_of(value);
            &&& bytes.len() == 4
            &&& bytes[0] + 0x100 * bytes[1] + 0x10000 * bytes[2] + 0x1000000 * bytes[3] == value
        }),
{
}

/// The window manager announces itself as "yaxwm".
pub proof fn name_is_spelled_out()
    ensures
        crate::setup::manager_name().len() == "yaxwm"@.len(),
        forall|i: int|
            0 <= i < "yaxwm"@.len() ==> (#[trigger] crate::setup::manager_name()[i]) as char
                == "yaxwm"@[i],
{
    reveal_strlit("yaxwm");
}

/// A monitor begins at its place on the screen, without workspaces, and the first one
/// to come is the one that is shown.
pub proof fn monitors_begin_bare(area: Area)
    ensures
        crate::setup::bare_monitor(area).area == area,
        crate::setup::bare_monitor(area).workspace.workspaces.len() == 0,
        crate::setup::bare_monitor(area).workspace.current == 0,
{
}

/// A grab takes the events that it is made for and no others, and leaves the cursor,
/// the course of events, the windows of the window manager and the freedom of the
/// pointer as they are.
pub proof fn grabs_take_only_their_events(events: Seq<EventMask>)
    ensures
        ({
            let settings = crate::setup::grab_of(events);
            &&& settings.events == events
            &&& settings.cursor == GrabCursor::Unchanged
            &&& settings.pointer_mode == GrabMode::Asynchronous
            &&& settings.keyboard_mode == GrabMode::Asynchronous
            &&& settings.owner_events
            &&& settings.confine_to == 0
        }),
{
}

/// When each part of the main loop has its turn.
pub proof fn turns_come_in_order(done: Done, should_close: bool)
    ensures
        ({
            let turn = crate::setup::turn_after(done, should_close);
            let round = done == Done::Announce || done == Done::Incoming;
            &&& turn == Turn::Setup <==> done == Done::Nothing
            &&& turn == Turn::Announce <==> done == Done::Setup
            &&& turn == Turn::Poll <==> round && !should_close
            &&& turn == Turn::Close <==> round && should_close
            &&& turn == Turn::Event <==> done == (Done::Poll { ready: true })
            &&& turn == Turn::Incoming <==> done == Done::Event || done == (Done::Poll {
                ready: false,
            })
        }),
{
}

/// The views leave nothing out and change nothing.
pub proof fn views_leave_nothing_out(
    monitor: Monitor,
    monitors: Monitors,
    manager: WindowManager,
    reaction: Reaction,
    settings: GrabSettings,
    property: PropertyChange,
)
    ensures
        monitor@.area == monitor.area,
        monitor@.workspace == monitor.workspace@,
        monitors@.root == monitors.root,
        monitors@.monitors.len() == monitors.monitors@.len(),
        forall|i: int|
            0 <= i < monitors.monitors@.len() ==> #[trigger] monitors@.monitors[i]
                == monitors.monitors@[i]@,
        manager@.root == manager.root,
        manager@.monitors == manager.monitors@,
        manager@.config == manager.config,
        manager@.grab == manager.grab,
        manager@.should_close == manager.should_close,
        reaction@.actions == reaction.actions@,
        reaction@.next == reaction.next,
        settings@.events == settings.events@,
        settings@.cursor == settings.cursor,
        settings@.pointer_mode == settings.pointer_mode,
        settings@.keyboard_mode == settings.keyboard_mode,
        settings@.owner_events == settings.owner_events,
        settings@.confine_to == settings.confine_to,
        property@.window == property.window,
        property@.property == property.property,
        property@.kind == property.kind,
        property@.format == property.format,
        property@.data == property.data@,
{
}

} // verus!
