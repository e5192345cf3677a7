use yaxum::action::{Action, Outcome};
use yaxum::area::Area;
use yaxum::config::{Borders, Config, Padding, Windows};
use yaxum::monitor::{Monitor, Monitors};
use yaxum::request::FocusStep;
use yaxum::workspace::{Client, Workspaces};

fn config() -> Config {
    Config {
        padding: Padding { top: 20, bottom: 0, left: 0, right: 0 },
        windows: Windows {
            gaps: 10,
            borders: Borders { width: 1, normal: 2, focused: 3 },
            mouse_movement: true,
        },
    }
}

fn monitor(x: u16, windows: &[(u32, bool)]) -> Monitor {
    let mut workspace = Workspaces::new();
    workspace.resize(2);
    for (window, float) in windows {
        workspace.insert(Client::new(*window, *float));
    }
    Monitor { area: Area::new(x, 0, 1000, 820), workspace }
}

fn windows_of(monitor: &Monitor) -> Vec<u32> {
    monitor.workspace.workspaces[0].iter().map(|client| client.window).collect()
}

fn raise(monitor: &Monitor, result: Result<(), u16>) -> Outcome<u16> {
    Outcome { actions: vec![Action::Raise { window: monitor.area.x as u32 }], result }
}

#[test]
fn tile_keeps_the_padding_free() {
    let monitor = monitor(0, &[(1, false), (2, false)]);
    assert!(monitor.tiles(config()));
    assert_eq!(
        monitor.tile(config()),
        vec![
            Action::MovResize { window: 1, area: Area::new(10, 30, 480, 780) },
            Action::MapWindow { window: 1 },
            Action::MovResize { window: 2, area: Area::new(510, 30, 480, 780) },
            Action::MapWindow { window: 2 },
        ]
    );
}

#[test]
fn tile_needs_room() {
    let monitor = monitor(0, &[(1, false), (2, false)]);
    let mut tight = config();
    tight.padding.left = 1000;
    assert!(!monitor.tiles(tight));
    tight.padding.left = 1001;
    assert!(!monitor.tiles(tight));
    tight.windows.gaps = 0;
    tight.padding.left = 1000;
    assert!(monitor.tiles(tight));
}

#[test]
fn tiles_selected_looks_at_the_other_workspace() {
    let mut monitor = monitor(0, &[(1, false), (2, false)]);
    let mut wide = config();
    wide.windows.gaps = 300;
    assert!(!monitor.tiles_selected(1, wide));
    assert!(monitor.tiles_selected(2, wide));
    assert!(!monitor.tiles_selected(3, wide));
    monitor.workspace.select(2);
    assert!(!monitor.tiles_selected(1, wide));
    assert!(monitor.tiles_selected(3, wide));
}

#[test]
fn unmap_takes_one_client_out() {
    let mut monitor = monitor(0, &[(1, false), (2, true), (3, false)]);
    assert!(monitor.unmaps(2));
    assert_eq!(monitor.unmap(2), vec![]);
    assert_eq!(windows_of(&monitor), vec![1, 3]);
    assert_eq!(monitor.unmap(9), vec![]);
    assert_eq!(windows_of(&monitor), vec![1, 3]);
}

#[test]
fn unmap_of_a_doubled_window_moves_the_focus() {
    let mut monitor = monitor(0, &[(1, false), (2, false), (2, false)]);
    assert!(monitor.unmaps(2));
    assert_eq!(monitor.unmap(2), vec![Action::SetInputFocus { window: 1 }]);
    assert_eq!(windows_of(&monitor), vec![1, 2]);
}

#[test]
fn unmap_needs_a_client_to_go_to() {
    assert!(!monitor(0, &[(2, false), (2, false)]).unmaps(2));
    assert!(monitor(0, &[(2, false), (3, false)]).unmaps(2));
    let bare = Monitor { area: Area::new(0, 0, 1, 1), workspace: Workspaces::new() };
    assert!(!bare.unmaps(2));
}

#[test]
fn focus_steps_up_down_and_to_the_first() {
    let monitor = monitor(0, &[(1, false), (2, true), (3, false)]);
    let to = |window: u32| vec![Action::SetInputFocus { window }];
    assert_eq!(monitor.move_focus(2, FocusStep::Up), to(1));
    assert_eq!(monitor.move_focus(1, FocusStep::Up), to(1));
    assert_eq!(monitor.move_focus(2, FocusStep::Down), to(3));
    assert_eq!(monitor.move_focus(3, FocusStep::Down), vec![]);
    assert_eq!(monitor.move_focus(3, FocusStep::Master), to(1));
    assert_eq!(monitor.move_focus(9, FocusStep::Master), vec![]);
}

#[test]
fn append_keeps_the_order() {
    let mut monitors = Monitors::new(7);
    assert_eq!(monitors.root, 7);
    monitors.append(monitor(0, &[]));
    monitors.append(monitor(1000, &[]));
    let places: Vec<u16> = monitors.monitors.iter().map(|monitor| monitor.area.x).collect();
    assert_eq!(places, vec![0, 1000]);
}

#[test]
fn window_is_tiled_unless_it_floats_everywhere() {
    let mut monitors = Monitors::new(7);
    assert!(!monitors.is_tiled(1));
    monitors.append(monitor(0, &[(1, true), (2, false)]));
    assert!(!monitors.is_tiled(1));
    assert!(monitors.is_tiled(2));
    assert!(monitors.is_tiled(3));
    monitors.append(monitor(1000, &[(2, true)]));
    assert!(monitors.is_tiled(1));
    assert!(monitors.is_tiled(2));
}

#[test]
fn judging_needs_workspaces_as_far_as_it_looks() {
    let mut monitors = Monitors::new(7);
    monitors.append(monitor(0, &[(1, true), (2, false)]));
    monitors.append(Monitor { area: Area::new(0, 0, 1, 1), workspace: Workspaces::new() });
    assert!(!monitors.judges(1));
    assert!(monitors.judges(2));
}

#[test]
fn focused_visits_the_monitors_under_the_point() {
    let mut monitors = Monitors::new(7);
    monitors.append(monitor(0, &[]));
    monitors.append(monitor(1000, &[]));
    monitors.append(monitor(500, &[]));
    assert!(monitors.locates(1200, 10));
    let outcome = monitors.focused(1200, 10, |monitor| {
        monitor.workspace.insert(Client::new(4, false));
        raise(monitor, Ok(()))
    });
    assert_eq!(outcome.result, Ok(()));
    assert_eq!(outcome.actions, vec![Action::Raise { window: 1000 }, Action::Raise { window: 500 }]);
    let counts: Vec<usize> =
        monitors.monitors.iter().map(|monitor| monitor.workspace.workspaces[0].len()).collect();
    assert_eq!(counts, vec![0, 1, 1]);
}

#[test]
fn all_visits_every_monitor() {
    let mut monitors = Monitors::new(7);
    monitors.append(monitor(0, &[]));
    monitors.append(monitor(1000, &[]));
    let outcome = monitors.all(|monitor| {
        monitor.workspace.select(2);
        raise(monitor, Ok(()))
    });
    assert_eq!(outcome.result, Ok(()));
    assert_eq!(outcome.actions, vec![Action::Raise { window: 0 }, Action::Raise { window: 1000 }]);
    assert_eq!(monitors.monitors[0].workspace.current, 1);
    assert_eq!(monitors.monitors[1].workspace.current, 1);
}

#[test]
fn checks_look_at_the_right_monitors() {
    let mut monitors = Monitors::new(7);
    monitors.append(monitor(0, &[(1, false)]));
    monitors.append(Monitor { area: Area::new(1000, 0, 1000, 820), workspace: Workspaces::new() });
    assert!(monitors.shows_at(10, 10));
    assert!(!monitors.shows_at(1010, 10));
    assert!(monitors.tiles(config()));
    let mut padded = config();
    padded.padding.top = 821;
    assert!(!monitors.tiles(padded));
    let copy = monitors.duplicate();
    assert_eq!(copy.root, 7);
    assert_eq!(windows_of(&copy.monitors[0]), vec![1]);
}

#[test]
fn visits_stop_at_the_first_failure() {
    let mut monitors = Monitors::new(7);
    monitors.append(monitor(0, &[]));
    monitors.append(monitor(100, &[]));
    monitors.append(monitor(200, &[]));
    let all = monitors.all(|monitor| {
        monitor.workspace.select(2);
        raise(monitor, if monitor.area.x == 100 { Err(100) } else { Ok(()) })
    });
    assert_eq!(all.result, Err(100));
    assert_eq!(all.actions, vec![Action::Raise { window: 0 }, Action::Raise { window: 100 }]);
    let shown: Vec<usize> =
        monitors.monitors.iter().map(|monitor| monitor.workspace.current).collect();
    assert_eq!(shown, vec![1, 1, 0]);
    let focused = monitors.focused(150, 10, |monitor| {
        monitor.workspace.select(1);
        raise(monitor, Err(monitor.area.x))
    });
    assert_eq!(focused.result, Err(0));
    assert_eq!(focused.actions, vec![Action::Raise { window: 0 }]);
    let shown: Vec<usize> =
        monitors.monitors.iter().map(|monitor| monitor.workspace.current).collect();
    assert_eq!(shown, vec![0, 1, 0]);
}

#[test]
fn monitors_under_the_point_are_found_one_by_one() {
    let mut monitors = Monitors::new(7);
    monitors.append(monitor(0, &[]));
    monitors.append(monitor(2000, &[]));
    monitors.append(monitor(500, &[]));
    assert_eq!(monitors.next_under(600, 10, 0), Some(0));
    assert_eq!(monitors.next_under(600, 10, 1), Some(2));
    assert_eq!(monitors.next_under(600, 10, 3), None);
    assert_eq!(monitors.next_under(600, 900, 0), None);
    monitors.append(monitor(65000, &[]));
    assert!(monitors.scans(65100, 900, 4));
    assert!(!monitors.scans(65100, 10, 0));
    assert!(monitors.scans(600, 10, 0));
}

#[test]
fn monitors_that_show_a_window_are_found_one_by_one() {
    let mut monitors = Monitors::new(7);
    monitors.append(monitor(0, &[(1, false)]));
    monitors.append(monitor(1000, &[(2, false)]));
    monitors.append(monitor(2000, &[(3, true), (1, true)]));
    assert_eq!(monitors.next_showing(1, 0), Some(0));
    assert_eq!(monitors.next_showing(1, 1), Some(2));
    assert_eq!(monitors.next_showing(1, 3), None);
    assert_eq!(monitors.next_showing(9, 0), None);
    monitors.append(Monitor { area: Area::new(0, 0, 1, 1), workspace: Workspaces::new() });
    assert!(monitors.seeks(1, 1));
    assert!(!monitors.seeks(1, 3));
    assert!(!monitors.seeks(9, 0));
}

#[test]
fn visit_that_fails_does_not_look_at_later_monitors() {
    let mut monitors = Monitors::new(7);
    monitors.append(monitor(0, &[]));
    monitors.append(Monitor { area: Area::new(5, 65530, 100, 10), workspace: Workspaces::new() });
    let outcome = monitors.focused(10, 10, |monitor| raise(monitor, Err(4)));
    assert_eq!(outcome.result, Err(4));
    assert_eq!(outcome.actions, vec![Action::Raise { window: 0 }]);
}

#[test]
fn monitors_where_a_window_floats_are_found_one_by_one() {
    let mut monitors = Monitors::new(7);
    monitors.append(monitor(0, &[(1, false), (2, true)]));
    monitors.append(monitor(500, &[(1, true), (2, true)]));
    monitors.append(monitor(2000, &[(1, true)]));
    assert_eq!(monitors.next_floating(1, 600, 10, 0), Some(1));
    assert_eq!(monitors.next_floating(2, 600, 10, 0), Some(0));
    assert_eq!(monitors.next_floating(2, 600, 10, 1), Some(1));
    assert_eq!(monitors.next_floating(1, 600, 10, 2), None);
    assert_eq!(monitors.next_floating(9, 600, 10, 0), None);
    monitors.append(Monitor { area: Area::new(0, 0, 1000, 10), workspace: Workspaces::new() });
    assert!(monitors.spots(1, 600, 5, 0));
    assert!(!monitors.spots(1, 600, 5, 2));
    assert!(monitors.spots(1, 600, 10, 2));
}
