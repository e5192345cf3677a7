use yaxum::action::Action;
use yaxum::area::Area;
use yaxum::config::{Borders, Config, Padding, Windows};
use yaxum::event::{Button, Event, EventKind};
use yaxum::grab::Grab;
use yaxum::manager::WindowManager;
use yaxum::reaction::{
    FocusWait, GrabWait, InsertWait, Next, PointerWait, Reaction, ReshapeWait, SelectWait, UnmapWait,
};
use yaxum::request::{ClientOp, FocusStep, Request, Sequence};
use yaxum::reshape::Reshape;
use yaxum::workspace::Client;

const ROOT: u32 = 100;

fn config() -> Config {
    Config {
        padding: Padding { top: 0, bottom: 0, left: 0, right: 0 },
        windows: Windows {
            gaps: 0,
            borders: Borders { width: 2, normal: 0x222222, focused: 0xff0000 },
            mouse_movement: true,
        },
    }
}

fn bare() -> WindowManager {
    let mut manager = WindowManager::new(ROOT, config());
    manager.load_monitors(&vec![Area::new(0, 0, 1000, 800), Area::new(1000, 0, 600, 800)]);
    manager
}

fn ready() -> WindowManager {
    let mut manager = bare();
    let reaction = manager.handle_incoming(Sequence::new(Request::WorkspacePerMonitor, 3));
    assert_eq!(reaction.actions, vec![]);
    assert_eq!(reaction.next, Next::Done);
    manager
}

fn finish(manager: &mut WindowManager, reaction: Reaction) -> Reaction {
    let mut joined = reaction;
    loop {
        let mut step = match joined.next {
            Next::Resolved(wait) => {
                assert!(manager.takes_resolved(wait));
                manager.handle_resolved(wait)
            }
            Next::Selected(wait) => {
                assert!(manager.takes_selected(wait));
                manager.handle_selected(wait)
            }
            Next::Unmapped(wait) => {
                assert!(manager.takes_unmapped(wait));
                manager.handle_unmapped(wait)
            }
            _ => return joined,
        };
        joined.actions.append(&mut step.actions);
        joined.next = step.next;
    }
}

fn add(manager: &mut WindowManager, window: u32, x: u16, y: u16) -> Reaction {
    let asked = manager.handle_event(Event::MapRequest { window });
    assert_eq!(asked.actions, vec![]);
    let wait = PointerWait::Insert { window };
    assert_eq!(asked.next, Next::Pointer(wait));
    assert!(manager.takes_pointer(wait, x, y));
    let reaction = manager.handle_pointer(wait, x, y);
    finish(manager, reaction)
}

fn client_request(
    manager: &mut WindowManager,
    request: Request,
    value: u32,
    focus: u32,
    x: u16,
    y: u16,
) -> Reaction {
    let first = manager.handle_incoming(Sequence::new(request, value));
    assert_eq!(first.actions, vec![]);
    match first.next {
        Next::Focus(wait) => {
            let second = manager.handle_focus(wait, focus);
            assert_eq!(second.actions, vec![]);
            match second.next {
                Next::Pointer(wait) => {
                    assert!(manager.takes_pointer(wait, x, y));
                    manager.handle_pointer(wait, x, y)
                }
                _ => panic!("the pointer was not asked for"),
            }
        }
        _ => panic!("the focus was not asked for"),
    }
}

fn clients(manager: &WindowManager, monitor: usize, workspace: usize) -> Vec<Client> {
    manager.monitors.monitors[monitor].workspace.workspaces[workspace].clone()
}

fn placed(window: u32, x: u16, y: u16, width: u16, height: u16) -> Action {
    Action::MovResize { window, area: Area::new(x, y, width, height) }
}

#[test]
fn mapped_window_is_tiled_and_gets_the_focus() {
    let mut manager = ready();
    let reaction = add(&mut manager, 5, 10, 10);
    assert_eq!(
        reaction.actions,
        vec![
            Action::Resolve { window: 5 },
            placed(5, 0, 0, 1000, 800),
            Action::MapWindow { window: 5 },
            Action::Resolve { window: 5 },
            Action::SelectInput { window: 5 },
            Action::SetInputFocus { window: 5 },
        ]
    );
    assert_eq!(reaction.next, Next::Pointer(PointerWait::Borders { focused: 5 }));
    assert_eq!(clients(&manager, 0, 0), vec![Client::new(5, false)]);
    assert_eq!(clients(&manager, 1, 0), vec![]);
}

#[test]
fn mapped_windows_share_the_monitor_under_the_pointer() {
    let mut manager = ready();
    add(&mut manager, 5, 10, 10);
    add(&mut manager, 6, 1010, 10);
    let reaction = add(&mut manager, 7, 10, 10);
    assert_eq!(
        reaction.actions,
        vec![
            Action::Resolve { window: 7 },
            placed(5, 0, 0, 500, 800),
            Action::MapWindow { window: 5 },
            placed(7, 500, 0, 500, 800),
            Action::MapWindow { window: 7 },
            placed(6, 1000, 0, 600, 800),
            Action::MapWindow { window: 6 },
            Action::Resolve { window: 7 },
            Action::SelectInput { window: 7 },
            Action::SetInputFocus { window: 7 },
        ]
    );
}

#[test]
fn window_mapped_off_all_monitors_is_not_managed() {
    let mut manager = ready();
    let reaction = add(&mut manager, 5, 10, 900);
    assert_eq!(
        reaction.actions,
        vec![
            Action::Resolve { window: 5 },
            Action::SelectInput { window: 5 },
            Action::SetInputFocus { window: 5 },
        ]
    );
    assert_eq!(clients(&manager, 0, 0), vec![]);
}

#[test]
fn mapping_needs_a_workspace() {
    let manager = bare();
    assert!(manager.takes_pointer(PointerWait::Insert { window: 5 }, 10, 10));
    assert!(!manager.takes_resolved(InsertWait { window: 5, x: 10, y: 10, monitor: 0 }));
    assert!(!ready().takes_resolved(InsertWait { window: 5, x: 10, y: 10, monitor: 2 }));
    assert!(ready().takes_resolved(InsertWait { window: 5, x: 10, y: 10, monitor: 1 }));
}

fn overlapping() -> WindowManager {
    let mut manager = WindowManager::new(ROOT, config());
    manager.load_monitors(&vec![
        Area::new(0, 0, 1000, 800),
        Area::new(2000, 0, 600, 800),
        Area::new(500, 0, 1000, 800),
    ]);
    manager.handle_incoming(Sequence::new(Request::WorkspacePerMonitor, 2));
    manager
}

#[test]
fn window_is_added_only_where_its_lookup_went_through() {
    let mut manager = overlapping();
    let first = manager.handle_pointer(PointerWait::Insert { window: 5 }, 600, 10);
    assert_eq!(first.actions, vec![Action::Resolve { window: 5 }]);
    let wait = InsertWait { window: 5, x: 600, y: 10, monitor: 0 };
    assert_eq!(first.next, Next::Resolved(wait));
    assert_eq!(clients(&manager, 0, 0), vec![]);
    let second = manager.handle_resolved(wait);
    assert_eq!(second.actions, vec![Action::Resolve { window: 5 }]);
    let wait = InsertWait { window: 5, x: 600, y: 10, monitor: 2 };
    assert_eq!(second.next, Next::Resolved(wait));
    assert_eq!(clients(&manager, 0, 0), vec![Client::new(5, false)]);
    assert_eq!(clients(&manager, 2, 0), vec![]);
    let last = manager.handle_resolved(wait);
    assert_eq!(
        last.actions,
        vec![
            placed(5, 0, 0, 1000, 800),
            Action::MapWindow { window: 5 },
            placed(5, 500, 0, 1000, 800),
            Action::MapWindow { window: 5 },
            Action::Resolve { window: 5 },
            Action::SelectInput { window: 5 },
            Action::SetInputFocus { window: 5 },
        ]
    );
    assert_eq!(last.next, Next::Pointer(PointerWait::Borders { focused: 5 }));
    assert_eq!(clients(&manager, 1, 0), vec![]);
    assert_eq!(clients(&manager, 2, 0), vec![Client::new(5, false)]);
}

#[test]
fn workspace_is_shown_monitor_by_monitor() {
    let mut manager = overlapping();
    add(&mut manager, 5, 10, 10);
    add(&mut manager, 6, 1200, 10);
    let shown = |manager: &WindowManager| -> Vec<usize> {
        manager.monitors.monitors.iter().map(|monitor| monitor.workspace.current).collect()
    };
    let first = manager.handle_pointer(PointerWait::Workspace { number: 2 }, 600, 10);
    assert_eq!(first.actions, vec![Action::UnmapWindow { window: 5 }]);
    let wait = SelectWait { number: 2, x: 600, y: 10, monitor: 0 };
    assert_eq!(first.next, Next::Selected(wait));
    assert_eq!(shown(&manager), vec![1, 0, 0]);
    let second = manager.handle_selected(wait);
    assert_eq!(second.actions, vec![Action::UnmapWindow { window: 6 }]);
    let wait = SelectWait { number: 2, x: 600, y: 10, monitor: 2 };
    assert_eq!(second.next, Next::Selected(wait));
    assert_eq!(shown(&manager), vec![1, 0, 1]);
    let last = manager.handle_selected(wait);
    assert_eq!(last.actions, vec![]);
    assert_eq!(last.next, Next::Done);
    assert!(!manager.takes_selected(SelectWait { number: 2, x: 600, y: 10, monitor: 3 }));
}

#[test]
fn window_is_taken_out_monitor_by_monitor() {
    let mut manager = overlapping();
    add(&mut manager, 4, 600, 10);
    add(&mut manager, 5, 600, 10);
    add(&mut manager, 5, 10, 10);
    let first = manager.handle_event(Event::UnmapNotify { window: 5 });
    assert_eq!(first.actions, vec![Action::SetInputFocus { window: 4 }]);
    let wait = UnmapWait { window: 5, monitor: 0 };
    assert_eq!(first.next, Next::Unmapped(wait));
    assert_eq!(clients(&manager, 0, 0), vec![Client::new(4, false), Client::new(5, false)]);
    assert_eq!(clients(&manager, 2, 0), vec![Client::new(4, false), Client::new(5, false)]);
    let second = manager.handle_unmapped(wait);
    assert_eq!(second.actions, vec![]);
    let wait = UnmapWait { window: 5, monitor: 2 };
    assert_eq!(second.next, Next::Unmapped(wait));
    assert_eq!(clients(&manager, 2, 0), vec![Client::new(4, false)]);
    let last = manager.handle_unmapped(wait);
    assert_eq!(
        last.actions,
        vec![
            placed(4, 0, 0, 500, 800),
            Action::MapWindow { window: 4 },
            placed(5, 500, 0, 500, 800),
            Action::MapWindow { window: 5 },
            placed(4, 500, 0, 1000, 800),
            Action::MapWindow { window: 4 },
        ]
    );
    assert_eq!(last.next, Next::Done);
    assert!(!manager.takes_unmapped(UnmapWait { window: 5, monitor: 3 }));
}

#[test]
fn unmapping_undoes_mapping() {
    let mut manager = ready();
    add(&mut manager, 5, 10, 10);
    add(&mut manager, 6, 10, 10);
    let event = Event::UnmapNotify { window: 6 };
    assert!(manager.takes_event(event));
    let reaction = manager.handle_event(event);
    let reaction = finish(&mut manager, reaction);
    assert_eq!(
        reaction.actions,
        vec![placed(5, 0, 0, 1000, 800), Action::MapWindow { window: 5 }]
    );
    assert_eq!(reaction.next, Next::Done);
    assert_eq!(clients(&manager, 0, 0), vec![Client::new(5, false)]);
}

#[test]
fn unmapping_needs_workspaces() {
    assert!(!bare().takes_event(Event::UnmapNotify { window: 6 }));
    assert!(ready().takes_event(Event::UnmapNotify { window: 6 }));
}

#[test]
fn entered_window_gets_the_focus() {
    let mut manager = ready();
    let reaction = manager.handle_event(Event::EnterNotify { window: 5 });
    assert_eq!(
        reaction.actions,
        vec![Action::Resolve { window: 5 }, Action::SetInputFocus { window: 5 }]
    );
    let root = manager.handle_event(Event::EnterNotify { window: ROOT });
    assert_eq!(root.actions, vec![]);
    assert_eq!(root.next, Next::Done);
}

#[test]
fn focus_draws_the_borders() {
    let mut manager = ready();
    add(&mut manager, 5, 10, 10);
    add(&mut manager, 6, 1010, 10);
    add(&mut manager, 7, 10, 10);
    let asked = manager.handle_event(Event::FocusIn { window: 7 });
    assert_eq!(asked.next, Next::Pointer(PointerWait::Borders { focused: 7 }));
    let reaction = manager.handle_pointer(PointerWait::Borders { focused: 7 }, 10, 10);
    assert_eq!(
        reaction.actions,
        vec![
            Action::SetBorderWidth { window: 5, width: 2 },
            Action::SetBorderPixel { window: 5, pixel: 0x222222 },
            Action::SetBorderWidth { window: 7, width: 2 },
            Action::SetBorderPixel { window: 7, pixel: 0x222222 },
            Action::Resolve { window: 7 },
            Action::SetBorderPixel { window: 7, pixel: 0xff0000 },
        ]
    );
    assert_eq!(reaction.next, Next::Done);
}

#[test]
fn root_and_no_window_have_no_border() {
    let mut manager = ready();
    for window in [ROOT, 0, 1] {
        let reaction = manager.handle_event(Event::FocusIn { window });
        assert_eq!(reaction.actions, vec![]);
        assert_eq!(reaction.next, Next::Done);
        assert_eq!(manager.set_focused_border(window), Next::Done);
    }
}

#[test]
fn press_on_a_floating_window_begins_a_drag() {
    let mut manager = WindowManager::new(ROOT, config());
    manager.load_monitors(&vec![Area::new(0, 0, 1000, 800)]);
    manager.handle_incoming(Sequence::new(Request::WorkspacePerMonitor, 1));
    add(&mut manager, 5, 10, 10);
    let press = Event::ButtonEvent {
        kind: EventKind::Press,
        root_x: 50,
        root_y: 60,
        subwindow: 5,
        button: Button::Button1,
    };
    let tiled = manager.handle_event(press);
    assert_eq!(tiled.actions, vec![]);
    assert_eq!(tiled.next, Next::Done);
    client_request(&mut manager, Request::FloatToggle, 0, 5, 10, 10);
    assert!(manager.takes_event(press));
    let reaction = manager.handle_event(press);
    assert_eq!(
        reaction.actions,
        vec![
            Action::Resolve { window: 5 },
            Action::Raise { window: 5 },
            Action::GrabPointer { window: 5 },
        ]
    );
    let wait = GrabWait { button: Button::Button1, window: 5, x: 50, y: 60 };
    assert_eq!(reaction.next, Next::Geometry(wait));
    assert_eq!(manager.grab, None);
    let geometry = Area::new(10, 20, 300, 200);
    manager.handle_geometry(wait, geometry);
    assert_eq!(manager.grab, Some(Grab::new(Button::Button1, 5, geometry, 50, 60)));
    let motion = Event::MotionNotify { root_x: 55, root_y: 58 };
    assert!(manager.takes_event(motion));
    assert_eq!(
        manager.handle_event(motion).actions,
        vec![Action::Mov { window: 5, x: 15, y: 18 }]
    );
    let release = Event::ButtonEvent {
        kind: EventKind::Release,
        root_x: 55,
        root_y: 58,
        subwindow: 5,
        button: Button::Button1,
    };
    let released = manager.handle_event(release);
    assert_eq!(released.actions, vec![Action::UngrabPointer]);
    assert_eq!(released.next, Next::Ungrabbed);
    assert_eq!(manager.grab, Some(Grab::new(Button::Button1, 5, geometry, 50, 60)));
    manager.handle_ungrabbed();
    assert_eq!(manager.grab, None);
    let again = manager.handle_event(release);
    assert_eq!(again.actions, vec![]);
    assert_eq!(again.next, Next::Done);
    assert_eq!(manager.handle_event(motion).actions, vec![]);
}

#[test]
fn disabled_mouse_begins_no_drag() {
    let mut manager = WindowManager::new(ROOT, config());
    manager.handle_incoming(Sequence::new(Request::DisableMouse, 0));
    assert!(!manager.config.windows.mouse_movement);
    let press = Event::ButtonEvent {
        kind: EventKind::Press,
        root_x: 50,
        root_y: 60,
        subwindow: 5,
        button: Button::Button1,
    };
    assert_eq!(manager.handle_event(press).next, Next::Done);
    manager.handle_incoming(Sequence::new(Request::EnableMouse, 0));
    assert!(manager.config.windows.mouse_movement);
    assert!(matches!(manager.handle_event(press).next, Next::Geometry(_)));
}

#[test]
fn other_events_do_nothing() {
    let mut manager = ready();
    for event in [Event::ConfigureRequest { window: 5 }, Event::Other] {
        let reaction = manager.handle_event(event);
        assert_eq!(reaction.actions, vec![]);
        assert_eq!(reaction.next, Next::Done);
    }
}

#[test]
fn workspace_request_shows_another_workspace() {
    let mut manager = ready();
    add(&mut manager, 5, 10, 10);
    let asked = manager.handle_incoming(Sequence::new(Request::Workspace, 2));
    let wait = PointerWait::Workspace { number: 2 };
    assert_eq!(asked.next, Next::Pointer(wait));
    assert!(manager.takes_pointer(wait, 10, 10));
    let reaction = manager.handle_pointer(wait, 10, 10);
    let reaction = finish(&mut manager, reaction);
    assert_eq!(reaction.actions, vec![Action::UnmapWindow { window: 5 }]);
    assert_eq!(reaction.next, Next::Done);
    assert_eq!(manager.monitors.monitors[0].workspace.current, 1);
    assert_eq!(manager.monitors.monitors[1].workspace.current, 0);
    assert_eq!(clients(&manager, 0, 0), vec![Client::new(5, false)]);
    let back = manager.handle_pointer(PointerWait::Workspace { number: 1 }, 10, 10);
    assert_eq!(back.actions, vec![placed(5, 0, 0, 1000, 800), Action::MapWindow { window: 5 }]);
    let same = manager.handle_pointer(PointerWait::Workspace { number: 9 }, 10, 10);
    assert_eq!(same.actions, back.actions);
}

#[test]
fn kill_request_kills_the_focused_client() {
    let mut manager = ready();
    add(&mut manager, 5, 10, 10);
    add(&mut manager, 6, 10, 10);
    let reaction = client_request(&mut manager, Request::Kill, 0, 6, 10, 10);
    assert_eq!(reaction.actions, vec![Action::Kill { window: 6 }]);
    assert_eq!(clients(&manager, 0, 0).len(), 2);
    let elsewhere = client_request(&mut manager, Request::Kill, 0, 6, 1010, 10);
    assert_eq!(elsewhere.actions, vec![]);
}

#[test]
fn focus_requests_move_the_focus() {
    let mut manager = ready();
    add(&mut manager, 5, 10, 10);
    add(&mut manager, 6, 10, 10);
    add(&mut manager, 7, 10, 10);
    let up = client_request(&mut manager, Request::FocusUp, 0, 7, 10, 10);
    assert_eq!(up.actions, vec![Action::SetInputFocus { window: 6 }]);
    let down = client_request(&mut manager, Request::FocusDown, 0, 6, 10, 10);
    assert_eq!(down.actions, vec![Action::SetInputFocus { window: 7 }]);
    let master = client_request(&mut manager, Request::FocusMaster, 0, 7, 10, 10);
    assert_eq!(master.actions, vec![Action::SetInputFocus { window: 5 }]);
    let last = client_request(&mut manager, Request::FocusDown, 0, 7, 10, 10);
    assert_eq!(last.actions, vec![]);
}

#[test]
fn toggling_twice_tiles_again() {
    let mut manager = ready();
    add(&mut manager, 5, 10, 10);
    add(&mut manager, 6, 10, 10);
    let once = client_request(&mut manager, Request::FloatToggle, 0, 5, 10, 10);
    assert_eq!(
        once.actions,
        vec![
            Action::MapWindow { window: 5 },
            placed(6, 0, 0, 1000, 800),
            Action::MapWindow { window: 6 },
        ]
    );
    assert_eq!(clients(&manager, 0, 0), vec![Client::new(5, true), Client::new(6, false)]);
    client_request(&mut manager, Request::FloatToggle, 0, 5, 10, 10);
    assert_eq!(clients(&manager, 0, 0), vec![Client::new(5, false), Client::new(6, false)]);
}

#[test]
fn only_floating_clients_are_moved_and_resized() {
    let mut manager = ready();
    add(&mut manager, 5, 10, 10);
    let tiled = client_request(&mut manager, Request::FloatRight, 8, 5, 10, 10);
    assert_eq!(tiled.actions, vec![]);
    client_request(&mut manager, Request::FloatToggle, 0, 5, 10, 10);
    let geometry = Area::new(100, 200, 300, 400);
    for (request, change) in [
        (Request::FloatRight, Reshape::FloatRight(8)),
        (Request::FloatLeft, Reshape::FloatLeft(8)),
        (Request::FloatUp, Reshape::FloatUp(8)),
        (Request::FloatDown, Reshape::FloatDown(8)),
        (Request::ResizeRight, Reshape::ResizeRight(8)),
        (Request::ResizeLeft, Reshape::ResizeLeft(8)),
        (Request::ResizeUp, Reshape::ResizeUp(8)),
        (Request::ResizeDown, Reshape::ResizeDown(8)),
    ] {
        let reaction = client_request(&mut manager, request, 0x30008, 5, 10, 10);
        assert_eq!(reaction.actions, vec![]);
        let wait = ReshapeWait { window: 5, change, x: 10, y: 10, monitor: 0 };
        assert_eq!(reaction.next, Next::Placement(wait));
        let moved = manager.handle_placement(wait, geometry);
        assert_eq!(
            moved.actions,
            vec![Action::MovResize { window: 5, area: change.apply(geometry) }]
        );
        assert_eq!(moved.next, Next::Reshaped(wait));
        assert!(manager.takes_reshaped(wait));
        let last = manager.handle_reshaped(wait);
        assert_eq!(last.actions, vec![]);
        assert_eq!(last.next, Next::Done);
    }
}

#[test]
fn floating_window_is_reshaped_once_for_each_monitor() {
    let mut manager = overlapping();
    add(&mut manager, 5, 600, 10);
    client_request(&mut manager, Request::FloatToggle, 0, 5, 600, 10);
    let asked = client_request(&mut manager, Request::FloatRight, 7, 5, 600, 10);
    let change = Reshape::FloatRight(7);
    let wait = ReshapeWait { window: 5, change, x: 600, y: 10, monitor: 0 };
    assert_eq!(asked.next, Next::Placement(wait));
    let first = manager.handle_placement(wait, Area::new(10, 20, 30, 40));
    assert_eq!(first.actions, vec![placed(5, 17, 20, 30, 40)]);
    let again = manager.handle_reshaped(wait);
    assert_eq!(again.actions, vec![]);
    let wait = ReshapeWait { window: 5, change, x: 600, y: 10, monitor: 2 };
    assert_eq!(again.next, Next::Placement(wait));
    let second = manager.handle_placement(wait, Area::new(17, 20, 30, 40));
    assert_eq!(second.actions, vec![placed(5, 24, 20, 30, 40)]);
    assert_eq!(manager.handle_reshaped(wait).next, Next::Done);
    assert!(!manager.takes_reshaped(ReshapeWait { window: 5, change, x: 600, y: 10, monitor: 3 }));
}

#[test]
fn padding_and_gaps_lay_out_anew() {
    let mut manager = ready();
    add(&mut manager, 5, 10, 10);
    manager.handle_incoming(Sequence::new(Request::PaddingTop, 0x10014));
    manager.handle_incoming(Sequence::new(Request::PaddingBottom, 30));
    manager.handle_incoming(Sequence::new(Request::PaddingLeft, 40));
    manager.handle_incoming(Sequence::new(Request::PaddingRight, 50));
    assert_eq!(manager.config.padding, Padding { top: 20, bottom: 30, left: 40, right: 50 });
    let gaps = Sequence::new(Request::WindowGaps, 5);
    assert!(manager.takes_request(gaps));
    let reaction = manager.handle_incoming(gaps);
    assert_eq!(
        reaction.actions,
        vec![placed(5, 45, 25, 900, 740), Action::MapWindow { window: 5 }]
    );
    assert_eq!(manager.config.windows.gaps, 5);
}

#[test]
fn settings_have_to_leave_room() {
    let mut manager = ready();
    assert!(!manager.takes_request(Sequence::new(Request::PaddingTop, 801)));
    assert!(manager.takes_request(Sequence::new(Request::PaddingTop, 800)));
    assert!(manager.takes_request(Sequence::new(Request::WindowGaps, 5000)));
    add(&mut manager, 5, 10, 10);
    assert!(!manager.takes_request(Sequence::new(Request::WindowGaps, 5000)));
    assert!(manager.tiles());
    manager.config.windows.gaps = 5000;
    assert!(!manager.tiles());
}

#[test]
fn border_requests_draw_anew() {
    let mut manager = ready();
    for (request, value) in [
        (Request::FocusedBorder, 0xabcdef01u32),
        (Request::NormalBorder, 0x12345678u32),
        (Request::BorderWidth, 0x20007u32),
    ] {
        let reaction = manager.handle_incoming(Sequence::new(request, value));
        assert_eq!(reaction.actions, vec![]);
        assert_eq!(reaction.next, Next::Focus(FocusWait::Borders));
    }
    assert_eq!(
        manager.config.windows.borders,
        Borders { width: 7, normal: 0x12345678, focused: 0xabcdef01 }
    );
    assert_eq!(manager.update_borders(), Next::Focus(FocusWait::Borders));
    let reaction = manager.handle_focus(FocusWait::Borders, 5);
    assert_eq!(reaction.next, Next::Pointer(PointerWait::Borders { focused: 5 }));
    assert_eq!(manager.handle_focus(FocusWait::Borders, 1).next, Next::Done);
}

#[test]
fn close_and_unknown_requests_do_nothing() {
    let mut manager = ready();
    for request in [Request::Close, Request::Unknown] {
        let reaction = manager.handle_incoming(Sequence::new(request, 7));
        assert_eq!(reaction.actions, vec![]);
        assert_eq!(reaction.next, Next::Done);
    }
    assert!(!manager.should_close);
    assert_eq!(manager.config, config());
}

#[test]
fn fewer_workspaces_leave_none() {
    let mut manager = ready();
    add(&mut manager, 5, 10, 10);
    manager.handle_incoming(Sequence::new(Request::WorkspacePerMonitor, 0));
    assert_eq!(manager.monitors.monitors[0].workspace.len(), 3);
    manager.handle_incoming(Sequence::new(Request::WorkspacePerMonitor, 2));
    assert_eq!(manager.monitors.monitors[0].workspace.len(), 0);
    assert!(!manager.takes_pointer(
        PointerWait::Client { op: ClientOp::MoveFocus(FocusStep::Up), focus: 5 },
        10,
        10
    ));
}

#[test]
fn layout_covers_every_monitor() {
    let mut manager = ready();
    add(&mut manager, 6, 1010, 10);
    add(&mut manager, 5, 10, 10);
    assert_eq!(
        manager.tile(),
        vec![
            placed(5, 0, 0, 1000, 800),
            Action::MapWindow { window: 5 },
            placed(6, 1000, 0, 600, 800),
            Action::MapWindow { window: 6 },
        ]
    );
}

#[test]
fn drag_out_of_range_is_not_taken() {
    let mut manager = ready();
    let wait = GrabWait { button: Button::Button3, window: 5, x: 0, y: 0 };
    manager.handle_geometry(wait, Area::new(0, 0, 32000, 10));
    assert!(manager.takes_event(Event::MotionNotify { root_x: 700, root_y: 0 }));
    assert!(!manager.takes_event(Event::MotionNotify { root_x: 800, root_y: 0 }));
    assert!(manager.takes_event(Event::MapRequest { window: 5 }));
}

#[test]
fn press_needs_a_workspace_to_look_at() {
    let press = Event::ButtonEvent {
        kind: EventKind::Press,
        root_x: 0,
        root_y: 0,
        subwindow: 5,
        button: Button::Button1,
    };
    assert!(!bare().takes_event(press));
    assert!(ready().takes_event(press));
}

#[test]
fn later_setting_counts() {
    let mut first = config();
    first.configure(Sequence::new(Request::WindowGaps, 5));
    first.configure(Sequence::new(Request::WindowGaps, 9));
    let mut second = config();
    second.configure(Sequence::new(Request::WindowGaps, 9));
    assert_eq!(first, second);
    first.configure(Sequence::new(Request::PaddingTop, 1));
    first.configure(Sequence::new(Request::BorderWidth, 2));
    second.configure(Sequence::new(Request::BorderWidth, 2));
    second.configure(Sequence::new(Request::PaddingTop, 1));
    assert_eq!(first, second);
}

#[test]
fn single_window_can_always_go_away() {
    let mut manager = ready();
    manager.handle_incoming(Sequence::new(Request::WindowGaps, 190));
    add(&mut manager, 5, 10, 10);
    add(&mut manager, 6, 10, 10);
    let event = Event::UnmapNotify { window: 5 };
    assert!(manager.tiles());
    assert!(manager.takes_event(event));
    let reaction = manager.handle_event(event);
    let reaction = finish(&mut manager, reaction);
    assert_eq!(
        reaction.actions,
        vec![placed(6, 190, 190, 620, 420), Action::MapWindow { window: 6 }]
    );
    assert!(manager.tiles());
}

#[test]
fn doubled_window_in_front_cannot_go_away() {
    let mut manager = ready();
    add(&mut manager, 5, 10, 10);
    add(&mut manager, 5, 10, 10);
    assert!(!manager.takes_event(Event::UnmapNotify { window: 5 }));
    assert!(manager.takes_event(Event::UnmapNotify { window: 6 }));
}
