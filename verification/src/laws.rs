//! What holds of the window manager as a whole.

use vstd::prelude::*;

use crate::action::Action;
use crate::area::Area;
use crate::config::Config;
use crate::event::{Button, Event, EventKind};
use crate::manager::ManagerView;
use crate::monitor::{MonitorView, MonitorsView};
use crate::reaction::{GrabWait, InsertWait, Next, PointerWait, ReshapeWait};
use crate::request::{ClientOp, FocusStep, Sequence};
use crate::reshape::Reshape;
use crate::workspace::Client;

verus! {

/// Both states have the same monitors at the same places.
pub open spec fn same_screens(a: MonitorsView, b: MonitorsView) -> bool {
    &&& a.root == b.root
    &&& a.monitors.len() == b.monitors.len()
    &&& forall|i: int|
        0 <= i < a.monitors.len() ==> (#[trigger] a.monitors[i]).area == b.monitors[i].area
}

/// Every monitor shows a workspace.
pub open spec fn all_shown(monitors: MonitorsView) -> bool {
    forall|i: int|
        0 <= i < monitors.monitors.len() ==> (
        #[trigger] monitors.monitors[i]).workspace.has_current()
}

/// What the two states have in common besides the monitors, the configuration and
/// a drag.
pub open spec fn same_frame(a: ManagerView, b: ManagerView) -> bool {
    &&& same_screens(a.monitors, b.monitors)
    &&& a.should_close == b.should_close
    &&& a.root == b.root
}

/// Events and replies leave the configuration alone, events and requests leave a
/// drag alone, nothing moves a monitor, and nothing makes the manager close.
pub proof fn inputs_touch_only_their_part(
    manager: ManagerView,
    event: Event,
    sequence: Sequence,
    wait: PointerWait,
    window: u32,
    number: u32,
    x: u16,
    y: u16,
    i: nat,
)
    ensures
        ({
            let after = manager.state_after_event(event);
            &&& same_frame(manager, after)
            &&& after.config == manager.config && after.grab == manager.grab
        }),
        ({
            let after = manager.state_after_request(sequence);
            &&& same_frame(manager, after)
            &&& after.grab == manager.grab
        }),
        ({
            let after = manager.state_after_pointer(wait, x, y);
            &&& same_frame(manager, after)
            &&& after.config == manager.config && after.grab == manager.grab
        }),
        i < manager.monitors.monitors.len() ==> {
            let after = manager.inserted_at(window, i as int);
            &&& same_frame(manager, after)
            &&& after.config == manager.config && after.grab == manager.grab
        },
        ({
            let after = manager.select_state(number, x, y, i as int);
            &&& same_frame(manager, after)
            &&& after.config == manager.config && after.grab == manager.grab
        }),
        ({
            let after = manager.unmap_state(window, i as int);
            &&& same_frame(manager, after)
            &&& after.config == manager.config && after.grab == manager.grab
        }),
{
    crate::monitor::under_is_first(manager.monitors, x, y, 0);
    crate::monitor::under_is_first(manager.monitors, x, y, i as int);
    crate::monitor::showing_is_first(manager.monitors, window, i as int);
    if let Event::UnmapNotify { window } = event {
        crate::monitor::showing_is_first(manager.monitors, window, 0);
    }
}

/// One step of adding a window, of showing a workspace or of taking a window out
/// changes one monitor: the one that was asked for, the first one under the
/// pointer, or the first one that shows the window. So when the display server
/// fails at some monitor, the later ones are as they were.
pub proof fn steps_change_one_monitor(
    manager: ManagerView,
    window: u32,
    number: u32,
    x: u16,
    y: u16,
    i: nat,
    j: int,
)
    requires
        i < manager.monitors.monitors.len(),
        0 <= j < manager.monitors.monitors.len(),
    ensures
        j != i ==> manager.inserted_at(window, i as int).monitors.monitors[j]
            == manager.monitors.monitors[j],
        manager.monitors.under(x, y, i as int) != Some(j) ==> manager.select_state(
            number,
            x,
            y,
            i as int,
        ).monitors.monitors[j] == manager.monitors.monitors[j],
        manager.monitors.showing(window, i as int) != Some(j) ==> manager.unmap_state(
            window,
            i as int,
        ).monitors.monitors[j] == manager.monitors.monitors[j],
{
    crate::monitor::under_is_first(manager.monitors, x, y, i as int);
    crate::monitor::showing_is_first(manager.monitors, window, i as int);
}

/// Once every monitor shows a workspace, this stays so, except when a request
/// makes the number of workspaces smaller without making it zero.
pub proof fn workspaces_stay_shown(
    manager: ManagerView,
    event: Event,
    sequence: Sequence,
    wait: PointerWait,
    window: u32,
    number: u32,
    x: u16,
    y: u16,
    i: nat,
)
    requires
        all_shown(manager.monitors),
    ensures
        all_shown(manager.state_after_event(event).monitors),
        all_shown(manager.state_after_pointer(wait, x, y).monitors),
        !(sequence.request is WorkspacePerMonitor) || sequence.value == 0 || (forall|i: int|
            0 <= i < manager.monitors.monitors.len() ==> (
            #[trigger] manager.monitors.monitors[i]).workspace.workspaces.len() <= sequence.value)
            ==> all_shown(manager.state_after_request(sequence).monitors),
        i < manager.monitors.monitors.len() ==> all_shown(
            manager.inserted_at(window, i as int).monitors,
        ),
        all_shown(manager.select_state(number, x, y, i as int).monitors),
        all_shown(manager.unmap_state(window, i as int).monitors),
{
    let before = manager.monitors.monitors;
    if let Event::UnmapNotify { window } = event {
        unmap_keeps_shown(manager, window, 0);
    }
    unmap_keeps_shown(manager, window, i as int);
    select_keeps_shown(manager, number, x, y, i as int);
    match wait {
        PointerWait::Workspace { number } => select_keeps_shown(manager, number, x, y, 0),
        _ => {
            let after = manager.state_after_pointer(wait, x, y).monitors.monitors;
            assert forall|i: int| 0 <= i < after.len() implies (
            #[trigger] after[i]).workspace.has_current() by {
                assert(before[i].workspace.has_current());
            }
        },
    }
    if i < before.len() {
        let after = manager.inserted_at(window, i as int).monitors.monitors;
        assert forall|k: int| 0 <= k < after.len() implies (
        #[trigger] after[k]).workspace.has_current() by {
            assert(before[k].workspace.has_current());
        }
    }
    if !(sequence.request is WorkspacePerMonitor) || sequence.value == 0 || (forall|i: int|
        0 <= i < before.len() ==> (#[trigger] before[i]).workspace.workspaces.len()
            <= sequence.value) {
        let after = manager.state_after_request(sequence).monitors.monitors;
        assert forall|i: int| 0 <= i < after.len() implies (
        #[trigger] after[i]).workspace.has_current() by {
            assert(before[i].workspace.has_current());
        }
    }
}

/// Taking a window out of a monitor leaves every workspace shown.
proof fn unmap_keeps_shown(manager: ManagerView, window: u32, from: int)
    requires
        all_shown(manager.monitors),
        0 <= from,
    ensures
        all_shown(manager.unmap_state(window, from).monitors),
{
    crate::monitor::showing_is_first(manager.monitors, window, from);
    let before = manager.monitors.monitors;
    let after = manager.unmap_state(window, from).monitors.monitors;
    assert forall|k: int| 0 <= k < after.len() implies (
    #[trigger] after[k]).workspace.has_current() by {
        assert(before[k].workspace.has_current());
    }
}

/// Showing another workspace on a monitor leaves every monitor with one shown.
proof fn select_keeps_shown(manager: ManagerView, number: u32, x: u16, y: u16, from: int)
    requires
        all_shown(manager.monitors),
        0 <= from,
    ensures
        all_shown(manager.select_state(number, x, y, from).monitors),
{
    crate::monitor::under_is_first(manager.monitors, x, y, from);
    let before = manager.monitors.monitors;
    let after = manager.select_state(number, x, y, from).monitors.monitors;
    assert forall|k: int| 0 <= k < after.len() implies (
    #[trigger] after[k]).workspace.has_current() by {
        assert(before[k].workspace.has_current());
    }
}

/// The first request for workspaces makes every new monitor show one.
pub proof fn first_workspaces_are_shown(manager: ManagerView, sequence: Sequence)
    requires
        sequence.request is WorkspacePerMonitor,
        sequence.value > 0,
        forall|i: int|
            0 <= i < manager.monitors.monitors.len() ==> (#[trigger] manager.monitors.monitors[i])
                == crate::setup::bare_monitor(manager.monitors.monitors[i].area),
    ensures
        all_shown(manager.state_after_request(sequence).monitors),
{
    let after = manager.state_after_request(sequence).monitors.monitors;
    assert forall|i: int| 0 <= i < after.len() implies (
    #[trigger] after[i]).workspace.has_current() by {
        assert(manager.monitors.monitors[i] == crate::setup::bare_monitor(
            manager.monitors.monitors[i].area,
        ));
    }
}

/// Once the clients of every monitor can be laid out, this stays so after
/// everything that the manager accepts; while a window is being added, it is so
/// again after the last monitor.
pub proof fn layout_stays_possible(
    manager: ManagerView,
    event: Event,
    sequence: Sequence,
    wait: PointerWait,
    insert: InsertWait,
    window: u32,
    number: u32,
    x: u16,
    y: u16,
    from: nat,
)
    requires
        manager.can_tile(),
    ensures
        manager.accepts_event(event) ==> manager.state_after_event(event).can_tile(),
        manager.accepts_request(sequence) ==> manager.state_after_request(sequence).can_tile(),
        manager.accepts_pointer(wait, x, y) ==> manager.state_after_pointer(wait, x, y).can_tile(),
        manager.accepts_select(number, x, y, from as int) ==> manager.select_state(
            number,
            x,
            y,
            from as int,
        ).can_tile(),
        manager.accepts_unmap(window, from as int) ==> manager.unmap_state(
            window,
            from as int,
        ).can_tile(),
        manager.accepts_resolved(insert) && manager.monitors.under(
            insert.x,
            insert.y,
            insert.monitor + 1,
        ) is None ==> manager.inserted_at(insert.window, insert.monitor as int).can_tile(),
{
    let before = manager.monitors.monitors;
    if sequence.request is WorkspacePerMonitor {
        let after = manager.state_after_request(sequence).monitors.monitors;
        assert forall|i: int| 0 <= i < after.len() implies (#[trigger] after[i]).can_tile(
            manager.config,
        ) by {
            assert(before[i].can_tile(manager.config));
        }
    } else if !ManagerView::changes_layout(sequence.request) {
        let config = manager.config.configured(sequence);
        assert forall|i: int| 0 <= i < before.len() implies (#[trigger] before[i]).can_tile(
            config,
        ) by {
            assert(before[i].can_tile(manager.config));
        }
    }
    if let PointerWait::Workspace { number } = wait {
        if manager.accepts_pointer(wait, x, y) {
            select_keeps_layout(manager, number, x, y, 0);
        }
    }
    if manager.accepts_select(number, x, y, from as int) {
        select_keeps_layout(manager, number, x, y, from as int);
    }
    if let Event::UnmapNotify { window } = event {
        if manager.accepts_event(event) {
            unmap_keeps_layout(manager, window, 0);
        }
    }
    if manager.accepts_unmap(window, from as int) {
        unmap_keeps_layout(manager, window, from as int);
    }
    if manager.accepts_resolved(insert) {
        areas_decide(
            manager.monitors,
            manager.inserted_at(insert.window, insert.monitor as int).monitors,
            insert.x,
            insert.y,
            insert.monitor + 1,
        );
    }
}

/// Which monitors are under the pointer depends on their places alone.
proof fn areas_decide(a: MonitorsView, b: MonitorsView, x: u16, y: u16, from: int)
    requires
        same_screens(a, b),
        0 <= from,
    ensures
        a.under(x, y, from) == b.under(x, y, from),
        a.can_scan(x, y, from) == b.can_scan(x, y, from),
    decreases a.monitors.len() - from,
{
    if from < a.monitors.len() {
        areas_decide(a, b, x, y, from + 1);
        assert(a.monitors[from].area == b.monitors[from].area);
    }
}

/// The clients fit after a workspace was shown on which they fit.
proof fn select_keeps_layout(manager: ManagerView, number: u32, x: u16, y: u16, from: int)
    requires
        manager.can_tile(),
        0 <= from,
        manager.accepts_select(number, x, y, from),
    ensures
        manager.select_state(number, x, y, from).can_tile(),
{
    crate::monitor::under_is_first(manager.monitors, x, y, from);
    let after = manager.select_state(number, x, y, from).monitors.monitors;
    assert forall|k: int| 0 <= k < after.len() implies (#[trigger] after[k]).can_tile(
        manager.config,
    ) by {
        assert(manager.monitors.monitors[k].can_tile(manager.config));
    }
}

/// The clients that stay fit where more of them did.
proof fn unmap_keeps_layout(manager: ManagerView, window: u32, from: int)
    requires
        manager.can_tile(),
        0 <= from,
        manager.accepts_unmap(window, from),
    ensures
        manager.unmap_state(window, from).can_tile(),
{
    crate::monitor::showing_is_first(manager.monitors, window, from);
    let config = manager.config;
    let after = manager.unmap_state(window, from).monitors.monitors;
    assert forall|k: int| 0 <= k < after.len() implies (#[trigger] after[k]).can_tile(config) by {
        let m = manager.monitors.monitors[k];
        assert(m.can_tile(config));
        if manager.monitors.showing(window, from) == Some(k) {
            let shown = m.workspace.shown();
            crate::workspace::position_is_first(shown, window);
            let place = m.workspace.find(window)->0;
            crate::workspace::removal_adds_no_tiled(shown, place);
            crate::area::fewer_windows_fit(
                m.area.padded(config.padding),
                crate::workspace::tiled(shown.remove(place)),
                crate::workspace::tiled(shown),
                config.windows.gaps,
            );
        }
    }
}

/// No monitor shows the window twice.
pub open spec fn shown_once(monitors: MonitorsView, window: u32) -> bool {
    forall|i: int, j: int, k: int|
        0 <= i < monitors.monitors.len() && 0 <= j < k < monitors.monitors[i].workspace.shown().len()
            ==> !((#[trigger] monitors.monitors[i].workspace.shown()[j]).window == window && (
        #[trigger] monitors.monitors[i].workspace.shown()[k]).window == window)
}

/// When the clients can be laid out, every monitor shows a workspace, and no
/// monitor shows the window twice, then the manager accepts that the window goes
/// away, at the first step and at every later one, and does not move the focus on
/// that account.
pub proof fn single_windows_can_go_away(manager: ManagerView, window: u32, from: nat)
    requires
        manager.can_tile(),
        all_shown(manager.monitors),
        shown_once(manager.monitors, window),
    ensures
        manager.accepts_event(Event::UnmapNotify { window }),
        manager.accepts_unmap(window, from as int),
        manager.monitors.showing(window, from as int) is Some ==> manager.unmap_reaction(
            window,
            from as int,
        ).actions == Seq::<Action>::empty(),
        ({
            let after = manager.unmap_state(window, from as int);
            &&& after.can_tile()
            &&& all_shown(after.monitors)
            &&& shown_once(after.monitors, window)
        }),
{
    single_window_is_accepted(manager, window, 0);
    single_window_is_accepted(manager, window, from as int);
    unmap_keeps_layout(manager, window, from as int);
    unmap_keeps_shown(manager, window, from as int);
}

/// One step of taking out a window that no monitor shows twice.
proof fn single_window_is_accepted(manager: ManagerView, window: u32, from: int)
    requires
        manager.can_tile(),
        all_shown(manager.monitors),
        shown_once(manager.monitors, window),
        0 <= from,
    ensures
        manager.accepts_unmap(window, from),
        manager.monitors.showing(window, from) is Some ==> manager.unmap_reaction(
            window,
            from,
        ).actions == Seq::<Action>::empty(),
        shown_once(manager.unmap_state(window, from).monitors, window),
{
    shown_monitors_can_be_sought(manager.monitors, window, from);
    crate::monitor::showing_is_first(manager.monitors, window, from);
    if let Some(i) = manager.monitors.showing(window, from) {
        let m = manager.monitors.monitors[i];
        let shown = m.workspace.shown();
        assert(m.workspace.has_current());
        crate::workspace::position_is_first(shown, window);
        let place = m.workspace.find(window)->0;
        let rest = m.unmapped(window).workspace.shown();
        assert(rest == shown.remove(place));
        assert forall|j: int| 0 <= j < rest.len() implies rest[j].window != window by {
            assert(shown[place].window == window);
            assert(rest[j] == shown[if j < place {
                j
            } else {
                j + 1
            }]);
        }
        crate::workspace::position_is_first(rest, window);
        let after = manager.unmap_state(window, from).monitors;
        assert forall|h: int, j: int, k: int|
            0 <= h < after.monitors.len() && 0 <= j < k
                < after.monitors[h].workspace.shown().len() implies !((
        #[trigger] after.monitors[h].workspace.shown()[j]).window == window && (
        #[trigger] after.monitors[h].workspace.shown()[k]).window == window) by {
            if h == i {
                assert(after.monitors[h].workspace.shown() == rest);
            } else {
                assert(after.monitors[h] == manager.monitors.monitors[h]);
            }
        }
    }
}

/// Where every monitor shows a workspace, a window can be looked for.
proof fn shown_monitors_can_be_sought(monitors: MonitorsView, window: u32, from: int)
    requires
        all_shown(monitors),
        0 <= from,
    ensures
        monitors.can_seek(window, from),
    decreases monitors.monitors.len() - from,
{
    if from < monitors.monitors.len() {
        shown_monitors_can_be_sought(monitors, window, from + 1);
        assert(monitors.monitors[from].workspace.has_current());
    }
}

/// What the monitors come to when a change is made to each of them from index
/// `from` on.
pub open spec fn changed_from(
    monitors: Seq<MonitorView>,
    from: int,
    change: spec_fn(MonitorView) -> MonitorView,
) -> Seq<MonitorView> {
    Seq::new(
        monitors.len(),
        |i: int|
            if from <= i {
                change(monitors[i])
            } else {
                monitors[i]
            },
    )
}

/// What is done for the monitors from index `from` on, one after the other.
pub open spec fn joined_from(
    monitors: Seq<MonitorView>,
    from: int,
    report: spec_fn(MonitorView) -> Seq<Action>,
) -> Seq<Action> {
    monitors.skip(from).map_values(report).flatten()
}

/// The first monitor is dealt with before the others, and a change to it does not
/// matter for them.
proof fn first_comes_first(
    monitors: Seq<MonitorView>,
    from: int,
    change: spec_fn(MonitorView) -> MonitorView,
    report: spec_fn(MonitorView) -> Seq<Action>,
)
    requires
        0 <= from < monitors.len(),
    ensures
        ({
            let next = monitors.update(from, change(monitors[from]));
            &&& changed_from(next, from + 1, change) == changed_from(monitors, from, change)
            &&& joined_from(monitors, from, report) == report(monitors[from]) + joined_from(
                next,
                from + 1,
                report,
            )
        }),
{
    let next = monitors.update(from, change(monitors[from]));
    assert(changed_from(next, from + 1, change) =~= changed_from(monitors, from, change));
    let parts = monitors.skip(from).map_values(report);
    assert(parts.drop_first() =~= next.skip(from + 1).map_values(report));
    assert(parts.first() == report(monitors[from]));
}

/// Beyond the last monitor nothing is changed, and nothing is done.
proof fn nothing_comes_last(
    monitors: Seq<MonitorView>,
    change: spec_fn(MonitorView) -> MonitorView,
    report: spec_fn(MonitorView) -> Seq<Action>,
)
    ensures
        changed_from(monitors, monitors.len() as int, change) == monitors,
        joined_from(monitors, monitors.len() as int, report) == Seq::<Action>::empty(),
{
    assert(changed_from(monitors, monitors.len() as int, change) =~= monitors);
    assert(monitors.skip(monitors.len() as int).map_values(report) =~= Seq::<Seq<Action>>::empty());
}

/// From the first monitor on, all of them are meant.
proof fn all_from_the_first(
    monitors: Seq<MonitorView>,
    change: spec_fn(MonitorView) -> MonitorView,
    report: spec_fn(MonitorView) -> Seq<Action>,
)
    ensures
        changed_from(monitors, 0, change) == monitors.map_values(change),
        joined_from(monitors, 0, report) == monitors.map_values(report).flatten(),
{
    assert(changed_from(monitors, 0, change) =~= monitors.map_values(change));
    assert(monitors.skip(0) =~= monitors);
}

/// All actions, and the state in the end, when a window is added on the monitors
/// under the pointer from index `from` on and no action fails.
pub open spec fn insert_run(manager: ManagerView, window: u32, x: u16, y: u16, from: int) -> (
    Seq<Action>,
    ManagerView,
)
    decreases manager.monitors.monitors.len() - from,
{
    let actions = manager.insert_reaction(window, x, y, from).actions;
    match manager.monitors.under(x, y, from) {
        Some(i) => if 0 <= from <= i < manager.monitors.monitors.len() {
            let rest = insert_run(manager.inserted_at(window, i), window, x, y, i + 1);
            (actions + rest.0, rest.1)
        } else {
            (actions, manager)
        },
        None => (actions, manager),
    }
}

/// All actions, and the state in the end, when a workspace is shown on the monitors
/// under the pointer from index `from` on and no action fails.
pub open spec fn select_run(manager: ManagerView, number: u32, x: u16, y: u16, from: int) -> (
    Seq<Action>,
    ManagerView,
)
    decreases manager.monitors.monitors.len() - from,
{
    let actions = manager.select_reaction(number, x, y, from).actions;
    match manager.monitors.under(x, y, from) {
        Some(i) => if 0 <= from <= i < manager.monitors.monitors.len() {
            let rest = select_run(manager.select_state(number, x, y, from), number, x, y, i + 1);
            (actions + rest.0, rest.1)
        } else {
            (actions, manager)
        },
        None => (actions, manager),
    }
}

/// All actions, and the state in the end, when a window is taken out of the
/// monitors from index `from` on and no action fails.
pub open spec fn unmap_run(manager: ManagerView, window: u32, from: int) -> (
    Seq<Action>,
    ManagerView,
)
    decreases manager.monitors.monitors.len() - from,
{
    let actions = manager.unmap_reaction(window, from).actions;
    match manager.monitors.showing(window, from) {
        Some(i) => if 0 <= from <= i < manager.monitors.monitors.len() {
            let rest = unmap_run(manager.unmap_state(window, from), window, i + 1);
            (actions + rest.0, rest.1)
        } else {
            (actions, manager)
        },
        None => (actions, manager),
    }
}

/// When no action fails, adding a window step by step adds it on every monitor
/// under the pointer, after one lookup for each, then lays out the clients and
/// gives the window the focus.
pub proof fn adding_reaches_every_monitor(manager: ManagerView, window: u32, x: u16, y: u16)
    ensures
        insert_run(manager, window, x, y, 0).1 == manager.inserted(window, x, y),
        insert_run(manager, window, x, y, 0).0 == manager.monitors.actions_for_focused(
            x,
            y,
            |m: MonitorView| seq![Action::Resolve { window }],
        ) + (manager.inserted(window, x, y).tile_actions() + seq![
            Action::Resolve { window },
            Action::SelectInput { window },
            Action::SetInputFocus { window },
        ]),
{
    let client = Client { window, float: false };
    let insert = |m: MonitorView| m.inserted(client);
    let resolve = |m: MonitorView| seq![Action::Resolve { window }];
    let change = |m: MonitorView|
        if m.area.covers(x, y) {
            insert(m)
        } else {
            m
        };
    let report = |m: MonitorView|
        if m.area.covers(x, y) {
            resolve(m)
        } else {
            Seq::<Action>::empty()
        };
    adding_goes_on(manager, window, x, y, 0, change, report);
    let monitors = manager.monitors.monitors;
    all_from_the_first(monitors, change, report);
    assert(manager.inserted(window, x, y).monitors.monitors =~= monitors.map_values(change));
    assert(manager.monitors.actions_for_focused(x, y, resolve) == monitors.map_values(
        report,
    ).flatten());
}

/// What adding a window comes to from one monitor on.
proof fn adding_goes_on(
    manager: ManagerView,
    window: u32,
    x: u16,
    y: u16,
    from: int,
    change: spec_fn(MonitorView) -> MonitorView,
    report: spec_fn(MonitorView) -> Seq<Action>,
)
    requires
        0 <= from <= manager.monitors.monitors.len(),
        forall|m: MonitorView| #[trigger]
            change(m) == if m.area.covers(x, y) {
                m.inserted(Client { window, float: false })
            } else {
                m
            },
        forall|m: MonitorView| #[trigger]
            report(m) == if m.area.covers(x, y) {
                seq![Action::Resolve { window }]
            } else {
                Seq::<Action>::empty()
            },
    ensures
        ({
            let monitors = manager.monitors.monitors;
            let end = manager.with_monitors(
                MonitorsView {
                    monitors: changed_from(monitors, from, change),
                    ..manager.monitors
                },
            );
            let run = insert_run(manager, window, x, y, from);
            &&& run.1 == end
            &&& run.0 == joined_from(monitors, from, report) + (end.tile_actions() + seq![
                Action::Resolve { window },
                Action::SelectInput { window },
                Action::SetInputFocus { window },
            ])
        }),
    decreases manager.monitors.monitors.len() - from,
{
    let monitors = manager.monitors.monitors;
    if from == monitors.len() {
        nothing_comes_last(monitors, change, report);
    } else {
        first_comes_first(monitors, from, change, report);
        if monitors[from].area.covers(x, y) {
            adding_goes_on(manager.inserted_at(window, from), window, x, y, from + 1, change, report);
        } else {
            assert(monitors.update(from, monitors[from]) =~= monitors);
            adding_goes_on(manager, window, x, y, from + 1, change, report);
            assert(insert_run(manager, window, x, y, from) == insert_run(
                manager,
                window,
                x,
                y,
                from + 1,
            ));
        }
    }
}

/// When no action fails, showing a workspace step by step shows it on every monitor
/// under the pointer, and lays each of them out.
pub proof fn selecting_reaches_every_monitor(manager: ManagerView, number: u32, x: u16, y: u16)
    ensures
        select_run(manager, number, x, y, 0).1 == manager.with_monitors(
            manager.monitors.change_focused(x, y, |m: MonitorView| m.selected(number)),
        ),
        select_run(manager, number, x, y, 0).0 == manager.monitors.actions_for_focused(
            x,
            y,
            |m: MonitorView| m.selected(number).tile_actions(manager.config),
        ),
{
    let select = |m: MonitorView| m.selected(number);
    let lay_out = |m: MonitorView| m.selected(number).tile_actions(manager.config);
    let change = |m: MonitorView|
        if m.area.covers(x, y) {
            select(m)
        } else {
            m
        };
    let report = |m: MonitorView|
        if m.area.covers(x, y) {
            lay_out(m)
        } else {
            Seq::<Action>::empty()
        };
    selecting_goes_on(manager, number, x, y, 0, change, report);
    let monitors = manager.monitors.monitors;
    all_from_the_first(monitors, change, report);
    assert(manager.monitors.change_focused(x, y, select).monitors =~= monitors.map_values(change));
    assert(manager.monitors.actions_for_focused(x, y, lay_out) == monitors.map_values(
        report,
    ).flatten());
}

/// What showing a workspace comes to from one monitor on.
proof fn selecting_goes_on(
    manager: ManagerView,
    number: u32,
    x: u16,
    y: u16,
    from: int,
    change: spec_fn(MonitorView) -> MonitorView,
    report: spec_fn(MonitorView) -> Seq<Action>,
)
    requires
        0 <= from <= manager.monitors.monitors.len(),
        forall|m: MonitorView| #[trigger]
            change(m) == if m.area.covers(x, y) {
                m.selected(number)
            } else {
                m
            },
        forall|m: MonitorView| #[trigger]
            report(m) == if m.area.covers(x, y) {
                m.selected(number).tile_actions(manager.config)
            } else {
                Seq::<Action>::empty()
            },
    ensures
        ({
            let monitors = manager.monitors.monitors;
            let run = select_run(manager, number, x, y, from);
            &&& run.1 == manager.with_monitors(
                MonitorsView {
                    monitors: changed_from(monitors, from, change),
                    ..manager.monitors
                },
            )
            &&& run.0 == joined_from(monitors, from, report)
        }),
    decreases manager.monitors.monitors.len() - from,
{
    let monitors = manager.monitors.monitors;
    if from == monitors.len() {
        nothing_comes_last(monitors, change, report);
    } else {
        first_comes_first(monitors, from, change, report);
        if monitors[from].area.covers(x, y) {
            selecting_goes_on(
                manager.select_state(number, x, y, from),
                number,
                x,
                y,
                from + 1,
                change,
                report,
            );
        } else {
            assert(monitors.update(from, monitors[from]) =~= monitors);
            selecting_goes_on(manager, number, x, y, from + 1, change, report);
            crate::monitor::under_is_first(manager.monitors, x, y, from + 1);
            assert(select_run(manager, number, x, y, from) == select_run(
                manager,
                number,
                x,
                y,
                from + 1,
            ));
        }
    }
}

/// When no action fails, taking a window out step by step takes it out of every
/// monitor that shows it, and then lays out the clients.
pub proof fn unmapping_reaches_every_monitor(manager: ManagerView, window: u32)
    ensures
        unmap_run(manager, window, 0).1 == manager.unmapped(window),
        unmap_run(manager, window, 0).0 == manager.monitors.actions_for_all(
            |m: MonitorView| m.unmap_actions(window),
        ) + manager.unmapped(window).tile_actions(),
{
    let change = |m: MonitorView| m.unmapped(window);
    let report = |m: MonitorView| m.unmap_actions(window);
    unmapping_goes_on(manager, window, 0, change, report);
    all_from_the_first(manager.monitors.monitors, change, report);
}

/// What taking a window out comes to from one monitor on.
proof fn unmapping_goes_on(
    manager: ManagerView,
    window: u32,
    from: int,
    change: spec_fn(MonitorView) -> MonitorView,
    report: spec_fn(MonitorView) -> Seq<Action>,
)
    requires
        0 <= from <= manager.monitors.monitors.len(),
        forall|m: MonitorView| #[trigger] change(m) == m.unmapped(window),
        forall|m: MonitorView| #[trigger] report(m) == m.unmap_actions(window),
    ensures
        ({
            let monitors = manager.monitors.monitors;
            let end = manager.with_monitors(
                MonitorsView {
                    monitors: changed_from(monitors, from, change),
                    ..manager.monitors
                },
            );
            let run = unmap_run(manager, window, from);
            &&& run.1 == end
            &&& run.0 == joined_from(monitors, from, report) + end.tile_actions()
        }),
    decreases manager.monitors.monitors.len() - from,
{
    let monitors = manager.monitors.monitors;
    if from == monitors.len() {
        nothing_comes_last(monitors, change, report);
    } else {
        first_comes_first(monitors, from, change, report);
        if monitors[from].workspace.find(window) is Some {
            unmapping_goes_on(manager.unmap_state(window, from), window, from + 1, change, report);
        } else {
            assert(monitors.update(from, monitors[from]) =~= monitors);
            unmapping_goes_on(manager, window, from + 1, change, report);
            assert(unmap_run(manager, window, from) == unmap_run(manager, window, from + 1));
        }
    }
}

/// Toggling between floating and tiled twice changes nothing.
pub proof fn toggling_twice_restores(manager: ManagerView, focus: u32, x: u16, y: u16)
    requires
        manager.monitors.shown_at(x, y),
    ensures
        manager.toggled(focus, x, y).toggled(focus, x, y) == manager,
{
    let before = manager.monitors.monitors;
    let once = manager.toggled(focus, x, y).monitors.monitors;
    let twice = manager.toggled(focus, x, y).toggled(focus, x, y).monitors.monitors;
    let toggle = |c: Client| Client { float: !c.float, ..c };
    assert forall|i: int| 0 <= i < before.len() implies twice[i] == before[i] by {
        let m = before[i];
        if m.area.covers(x, y) {
            let shown = m.workspace.shown();
            let toggled = m.change_client(focus, toggle).workspace.shown();
            crate::workspace::position_is_first(shown, focus);
            crate::workspace::position_is_first(toggled, focus);
            if let Some(k) = m.workspace.find(focus) {
                assert(toggled == shown.update(k, toggle(shown[k])));
                assert(crate::workspace::first_at(toggled, focus, k));
                assert(toggled.update(k, toggle(toggled[k])) =~= shown);
            }
            assert(twice[i].workspace.workspaces =~= m.workspace.workspaces);
        }
    }
    assert(twice =~= before);
}

/// Toggling changes which clients float, but neither which windows there are nor
/// their order.
pub proof fn toggling_keeps_windows(manager: ManagerView, focus: u32, x: u16, y: u16, i: int)
    requires
        manager.monitors.shown_at(x, y),
        0 <= i < manager.monitors.monitors.len(),
    ensures
        ({
            let before = manager.monitors.monitors[i].workspace;
            let after = manager.toggled(focus, x, y).monitors.monitors[i].workspace;
            &&& after.workspaces.len() == before.workspaces.len()
            &&& after.current == before.current
            &&& forall|w: int, k: int|
                0 <= w < before.workspaces.len() && 0 <= k < before.workspaces[w].len() ==> (
                #[trigger] after.workspaces[w][k]).window == before.workspaces[w][k].window
            &&& forall|w: int|
                0 <= w < before.workspaces.len() ==> (#[trigger] after.workspaces[w]).len()
                    == before.workspaces[w].len()
        }),
{
    let m = manager.monitors.monitors[i];
    if m.area.covers(x, y) {
        crate::workspace::position_is_first(m.workspace.shown(), focus);
    }
}

/// A window that was not there is found on every monitor under the pointer after
/// it was added, as the last one, and is tiled there.
pub proof fn added_window_is_tiled(manager: ManagerView, window: u32, x: u16, y: u16, i: int)
    requires
        manager.monitors.shown_at(x, y),
        0 <= i < manager.monitors.monitors.len(),
        manager.monitors.monitors[i].area.covers(x, y),
        manager.monitors.monitors[i].workspace.find(window) is None,
    ensures
        ({
            let before = manager.monitors.monitors[i].workspace;
            let after = manager.inserted(window, x, y).monitors.monitors[i].workspace;
            &&& after.find(window) == Some(before.shown().len() as int)
            &&& !after.floats(window)
        }),
{
    let m = manager.monitors.monitors[i];
    crate::workspace::insert_is_found(m.workspace, Client { window, float: false }, window);
}

/// When a window that was added goes away again, all is as it was before.
pub proof fn unmapping_undoes_adding(manager: ManagerView, window: u32, x: u16, y: u16)
    requires
        all_shown(manager.monitors),
        forall|i: int|
            0 <= i < manager.monitors.monitors.len() ==> (
            #[trigger] manager.monitors.monitors[i]).workspace.find(window) is None,
    ensures
        manager.inserted(window, x, y).unmapped(window) == manager,
{
    let before = manager.monitors.monitors;
    let after = manager.inserted(window, x, y).unmapped(window).monitors.monitors;
    let client = Client { window, float: false };
    assert forall|i: int| 0 <= i < before.len() implies after[i] == before[i] by {
        let m = before[i];
        assert(m.workspace.find(window) is None);
        assert(m.workspace.has_current());
        if m.area.covers(x, y) {
            crate::workspace::insert_is_found(m.workspace, client, window);
            crate::workspace::remove_undoes_insert(m.workspace, client);
        }
    }
    assert(after =~= before);
}

/// A window that goes away is taken out once from each monitor that shows it, and
/// no other client moves out of its order.
pub proof fn unmapping_takes_out_one(monitor: MonitorView, window: u32)
    requires
        monitor.workspace.has_current(),
    ensures
        match monitor.workspace.find(window) {
            Some(i) => {
                &&& monitor.unmapped(window).workspace.shown() == monitor.workspace.shown().remove(i)
                &&& monitor.workspace.shown()[i].window == window
            },
            None => monitor.unmapped(window) == monitor,
        },
{
    crate::workspace::position_is_first(monitor.workspace.shown(), window);
}

/// Tiled clients of one monitor do not overlap, and no tiled client reaches
/// outside its monitor.
pub proof fn tiled_clients_stay_on_their_monitor(
    monitor: MonitorView,
    config: Config,
    i: int,
    j: int,
)
    requires
        monitor.can_tile(config),
        monitor.workspace.has_current(),
        0 <= i < j < monitor.workspace.shown().len(),
        !monitor.workspace.shown()[i].float,
        !monitor.workspace.shown()[j].float,
    ensures
        ({
            let clients = monitor.workspace.shown();
            let area = monitor.area.padded(config.padding);
            let gaps = config.windows.gaps;
            let first = crate::workspace::placed(clients, i, area, gaps);
            let second = crate::workspace::placed(clients, j, area, gaps);
            &&& first.disjoint(second)
            &&& first.within(monitor.area)
            &&& second.within(monitor.area)
        }),
{
    let area = monitor.area.padded(config.padding);
    crate::workspace::tiled_clients_do_not_overlap(
        monitor.workspace.shown(),
        i,
        j,
        area,
        config.windows.gaps,
    );
    crate::area::padding_stays_within(monitor.area, config.padding);
}

/// The focus does not leave the first client upwards, does not leave the last one
/// downwards, and going down and up again leads back.
pub proof fn focus_moves_step_by_step(monitor: MonitorView, focus: u32, next: u32)
    requires
        monitor.workspace.has_current(),
    ensures
        monitor.workspace.find(focus) == Some(0int) ==> monitor.move_actions(focus, FocusStep::Up)
            == seq![Action::SetInputFocus { window: focus }],
        monitor.workspace.find(focus) == Some(monitor.workspace.shown().len() - 1)
            ==> monitor.move_actions(focus, FocusStep::Down) == Seq::<Action>::empty(),
        monitor.workspace.find(focus) is None ==> forall|step: FocusStep| #[trigger]
            monitor.move_actions(focus, step) == Seq::<Action>::empty(),
        monitor.workspace.find(focus) matches Some(i) && monitor.workspace.find(next) == Some(i + 1)
            ==> {
            &&& monitor.move_actions(focus, FocusStep::Down) == seq![
                Action::SetInputFocus { window: next },
            ]
            &&& monitor.move_actions(next, FocusStep::Up) == seq![
                Action::SetInputFocus { window: focus },
            ]
        },
        monitor.workspace.find(focus) is Some ==> monitor.move_actions(focus, FocusStep::Master)
            == seq![Action::SetInputFocus { window: monitor.workspace.shown()[0].window }],
{
    crate::workspace::position_is_first(monitor.workspace.shown(), focus);
    crate::workspace::position_is_first(monitor.workspace.shown(), next);
}

/// What is done for the monitors under the pointer is done for one of them.
proof fn done_for_some_monitor(
    monitors: MonitorsView,
    x: u16,
    y: u16,
    report: spec_fn(MonitorView) -> Seq<Action>,
    action: Action,
) -> (i: int)
    requires
        monitors.actions_for_focused(x, y, report).contains(action),
    ensures
        0 <= i < monitors.monitors.len(),
        monitors.monitors[i].area.covers(x, y),
        report(monitors.monitors[i]).contains(action),
{
    let parts = monitors.monitors.map_values(
        |m: MonitorView|
            if m.area.covers(x, y) {
                report(m)
            } else {
                Seq::empty()
            },
    );
    crate::workspace::flatten_contains(parts, action);
    choose|i: int| 0 <= i < parts.len() && (#[trigger] parts[i]).contains(action)
}

/// What is done for the client of a window is done for a client of that window,
/// on a monitor under the pointer.
proof fn done_for_some_client(
    manager: ManagerView,
    focus: u32,
    x: u16,
    y: u16,
    report: spec_fn(Client) -> Seq<Action>,
    action: Action,
) -> (i: int)
    requires
        manager.actions_for_client(focus, x, y, report).contains(action),
    ensures
        0 <= i < manager.monitors.monitors.len(),
        manager.monitors.monitors[i].area.covers(x, y),
        ({
            let workspace = manager.monitors.monitors[i].workspace;
            workspace.find(focus) matches Some(k) && workspace.shown()[k].window == focus && report(
                workspace.shown()[k],
            ).contains(action)
        }),
{
    let i = done_for_some_monitor(
        manager.monitors,
        x,
        y,
        |m: MonitorView| m.workspace.actions_for_client(focus, report),
        action,
    );
    crate::workspace::position_is_first(manager.monitors.monitors[i].workspace.shown(), focus);
    i
}

/// A request to kill kills nothing but the window that has the focus.
pub proof fn kill_keeps_to_the_focus(
    manager: ManagerView,
    focus: u32,
    x: u16,
    y: u16,
    action: Action,
)
    ensures
        manager.reaction_to_pointer(
            PointerWait::Client { op: ClientOp::Kill, focus },
            x,
            y,
        ).actions.contains(action) ==> action == (Action::Kill { window: focus }),
{
    let kill = |c: Client| seq![Action::Kill { window: c.window }];
    if manager.actions_for_client(focus, x, y, kill).contains(action) {
        let i = done_for_some_client(manager, focus, x, y, kill, action);
    }
}

/// A request to move or resize asks for the geometry of the window that has the
/// focus, and of no other, and only because of a monitor under the pointer where
/// that window floats. Where there is none, nothing is done.
pub proof fn only_floating_windows_are_reshaped(
    manager: ManagerView,
    focus: u32,
    change: Reshape,
    x: u16,
    y: u16,
    from: nat,
)
    ensures
        ({
            let reaction = manager.reshape_reaction(focus, change, x, y, from as int);
            &&& reaction.actions == Seq::<Action>::empty()
            &&& match manager.monitors.floating(focus, x, y, from as int) {
                Some(i) => {
                    &&& reaction.next == Next::Placement(
                        ReshapeWait { window: focus, change, x, y, monitor: i as usize },
                    )
                    &&& from <= i < manager.monitors.monitors.len()
                    &&& manager.monitors.monitors[i].area.covers(x, y)
                    &&& manager.monitors.monitors[i].workspace.floats(focus)
                },
                None => {
                    &&& reaction.next is Done
                    &&& forall|j: int|
                        from <= j < manager.monitors.monitors.len() ==> !((
                        #[trigger] manager.monitors.monitors[j]).area.covers(x, y)
                            && manager.monitors.monitors[j].workspace.floats(focus))
                },
            }
        }),
{
    crate::monitor::floating_is_first(manager.monitors, focus, x, y, from as int);
}

/// All actions when a window is moved or resized on the monitors under the pointer
/// from index `from` on and no action fails. Its geometry before the step for
/// monitor `i` is `geometries(i)`.
pub open spec fn reshape_run(
    manager: ManagerView,
    focus: u32,
    change: Reshape,
    x: u16,
    y: u16,
    from: int,
    geometries: spec_fn(int) -> Area,
) -> Seq<Action>
    decreases manager.monitors.monitors.len() - from,
{
    match manager.monitors.floating(focus, x, y, from) {
        Some(i) => if 0 <= from <= i < manager.monitors.monitors.len() {
            seq![Action::MovResize { window: focus, area: change.applied(geometries(i)) }]
                + reshape_run(manager, focus, change, x, y, i + 1, geometries)
        } else {
            Seq::empty()
        },
        None => Seq::empty(),
    }
}

/// What is done to move or resize a window because of monitor `i`, given the
/// geometry that the window has: where it floats under the pointer, it goes to what
/// the change makes of that geometry.
pub open spec fn reshape_part(
    manager: ManagerView,
    focus: u32,
    change: Reshape,
    x: u16,
    y: u16,
    i: int,
    geometry: Area,
) -> Seq<Action> {
    let monitor = manager.monitors.monitors[i];
    if monitor.area.covers(x, y) && monitor.workspace.floats(focus) {
        seq![Action::MovResize { window: focus, area: change.applied(geometry) }]
    } else {
        Seq::empty()
    }
}

/// When no action fails, the window is moved and resized once for each monitor
/// under the pointer on which it floats, each time to what the change makes of the
/// geometry that it has then.
pub proof fn reshaping_reaches_every_monitor(
    manager: ManagerView,
    focus: u32,
    change: Reshape,
    x: u16,
    y: u16,
    from: nat,
    geometries: spec_fn(int) -> Area,
)
    requires
        from <= manager.monitors.monitors.len(),
    ensures
        reshape_run(manager, focus, change, x, y, from as int, geometries) == Seq::new(
            (manager.monitors.monitors.len() - from) as nat,
            |k: int| reshape_part(manager, focus, change, x, y, from + k, geometries(from + k)),
        ).flatten(),
    decreases manager.monitors.monitors.len() - from,
{
    let monitors = manager.monitors;
    let parts = Seq::new(
        (monitors.monitors.len() - from) as nat,
        |k: int| reshape_part(manager, focus, change, x, y, from + k, geometries(from + k)),
    );
    if from < monitors.monitors.len() {
        let next: nat = from + 1;
        reshaping_reaches_every_monitor(manager, focus, change, x, y, next, geometries);
        assert(parts.drop_first() =~= Seq::new(
            (monitors.monitors.len() - next) as nat,
            |k: int| reshape_part(manager, focus, change, x, y, next + k, geometries(next + k)),
        ));
        crate::monitor::floating_is_first(monitors, focus, x, y, next as int);
    }
}

/// A drag begins only with a press on a window that floats on every monitor, while
/// the mouse may move windows; and it then concerns that window.
pub proof fn only_floating_windows_are_dragged(
    manager: ManagerView,
    root_x: u16,
    root_y: u16,
    subwindow: u32,
    button: Button,
    event: Event,
)
    ensures
        manager.reaction_to_event(event).next is Geometry ==> (event matches Event::ButtonEvent {
            kind,
            root_x,
            root_y,
            subwindow,
            button,
        } && kind == EventKind::Press && manager.can_be_dragged(subwindow)
            && manager.reaction_to_event(event).next == Next::Geometry(
            GrabWait { button, window: subwindow, x: root_x, y: root_y },
        )),
        manager.can_be_dragged(subwindow) ==> manager.reaction_to_event(
            Event::ButtonEvent { kind: EventKind::Press, root_x, root_y, subwindow, button },
        ).next is Geometry,
{
}

/// A released button ends the grab of the pointer if there is a drag, and the drag
/// stays until the grab has ended. While no drag is in progress, neither motion nor
/// a released button does anything.
pub proof fn drags_end_with_the_button(
    manager: ManagerView,
    root_x: u16,
    root_y: u16,
    subwindow: u32,
    button: Button,
)
    ensures
        ({
            let release = Event::ButtonEvent {
                kind: EventKind::Release,
                root_x,
                root_y,
                subwindow,
                button,
            };
            let motion = Event::MotionNotify { root_x, root_y };
            let ended = manager.with_grab(None);
            &&& manager.state_after_event(release) == manager
            &&& manager.grab is Some ==> manager.reaction_to_event(release).actions == seq![
                Action::UngrabPointer,
            ] && manager.reaction_to_event(release).next is Ungrabbed
            &&& ended.state_after_event(release) == ended
            &&& ended.reaction_to_event(release).actions == Seq::<Action>::empty()
            &&& ended.reaction_to_event(release).next is Done
            &&& ended.reaction_to_event(motion).actions == Seq::<Action>::empty()
        }),
{
}

/// Drawing the borders paints the focused window last, in its own colour; every
/// other pixel that is set is the plain one.
pub proof fn focused_border_is_painted_last(
    manager: ManagerView,
    focused: u32,
    x: u16,
    y: u16,
    k: int,
)
    requires
        0 <= k < manager.border_actions(focused, x, y).len() - 1,
    ensures
        manager.border_actions(focused, x, y).last() == (Action::SetBorderPixel {
            window: focused,
            pixel: manager.config.windows.borders.focused,
        }),
        match manager.border_actions(focused, x, y)[k] {
            Action::SetBorderPixel { pixel, .. } => pixel == manager.config.windows.borders.normal,
            Action::SetBorderWidth { width, .. } => width == manager.config.windows.borders.width,
            Action::Resolve { window } => window == focused,
            _ => false,
        },
{
    let borders = manager.config.windows.borders;
    let report = |m: MonitorView| m.workspace.border_actions(borders);
    let plain = manager.monitors.actions_for_focused(x, y, report);
    if k < plain.len() {
        let action = plain[k];
        assert(plain.contains(action));
        let i = done_for_some_monitor(manager.monitors, x, y, report, action);
        let workspace = manager.monitors.monitors[i].workspace;
        let pieces = workspace.clients().map_values(
            |client: Client| crate::workspace::plain_border(client, borders),
        );
        crate::workspace::flatten_contains(pieces, action);
        let c = choose|c: int| 0 <= c < pieces.len() && (#[trigger] pieces[c]).contains(action);
        assert(pieces[c] == crate::workspace::plain_border(workspace.clients()[c], borders));
    }
}

/// Borders are drawn for a window that gets the focus, unless it is the root
/// window or none at all.
pub proof fn no_border_for_the_root(manager: ManagerView)
    ensures
        manager.border_next(manager.root) is Done,
        manager.border_next(0) is Done,
        manager.border_next(1) is Done,
{
}

/// The later of two requests for one setting counts, and requests for different
/// settings do not get in each other's way.
pub proof fn settings_are_independent(config: Config, first: Sequence, second: Sequence)
    ensures
        first.request == second.request ==> config.configured(first).configured(second)
            == config.configured(second),
        first.request != second.request && !(first.request is EnableMouse
            && second.request is DisableMouse) && !(first.request is DisableMouse
            && second.request is EnableMouse) ==> config.configured(first).configured(second)
            == config.configured(second).configured(first),
        (first.request is EnableMouse || first.request is DisableMouse) && (
        second.request is EnableMouse || second.request is DisableMouse) ==> config.configured(
            first,
        ).configured(second) == config.configured(second),
{
}

/// A request that is about the client with the focus, or about which workspace is
/// shown, changes nothing before the replies are there.
pub proof fn asking_changes_nothing(manager: ManagerView, sequence: Sequence)
    requires
        sequence.client_op() is Some || sequence.request is Workspace,
    ensures
        manager.state_after_request(sequence) == manager,
        manager.reaction_to_request(sequence).actions == Seq::<Action>::empty(),
        !(manager.reaction_to_request(sequence).next is Done),
{
}

/// Showing another workspace keeps all clients of all workspaces, and leaves
/// monitors alone that are not under the pointer.
pub proof fn showing_a_workspace_keeps_clients(
    manager: ManagerView,
    number: u32,
    x: u16,
    y: u16,
    from: nat,
    i: int,
)
    requires
        0 <= i < manager.monitors.monitors.len(),
    ensures
        manager.select_state(number, x, y, from as int).monitors.monitors[i].workspace.workspaces
            == manager.monitors.monitors[i].workspace.workspaces,
        !manager.monitors.monitors[i].area.covers(x, y) ==> manager.select_state(
            number,
            x,
            y,
            from as int,
        ).monitors.monitors[i] == manager.monitors.monitors[i],
{
    crate::monitor::under_is_first(manager.monitors, x, y, from as int);
}

} // verus!
