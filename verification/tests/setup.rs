use yaxum::area::Area;
use yaxum::config::{Borders, Config, Padding, Windows};
use yaxum::event::Button;
use yaxum::manager::WindowManager;
use yaxum::setup::{
    button_grab, button_modifiers, check_window, drag_grab, ewmh_atoms, window_events, Done,
    EventMask, EwmhAtom, GrabCursor, GrabMode, GrabSettings, KeyMask, PropertyFormat, PropertyType,
    SetupStep, Turn, WindowClass,
};

fn manager() -> WindowManager {
    let config = Config {
        padding: Padding { top: 0, bottom: 0, left: 0, right: 0 },
        windows: Windows {
            gaps: 0,
            borders: Borders { width: 0, normal: 0, focused: 0 },
            mouse_movement: true,
        },
    };
    WindowManager::new(0x1c3, config)
}

#[test]
fn new_manager_is_empty() {
    let manager = manager();
    assert_eq!(manager.root, 0x1c3);
    assert_eq!(manager.monitors.root, 0x1c3);
    assert_eq!(manager.monitors.monitors.len(), 0);
    assert_eq!(manager.grab, None);
    assert!(!manager.should_close);
    assert!(manager.config.windows.mouse_movement);
}

#[test]
fn setup_goes_step_by_step() {
    assert_eq!(
        manager().setup(),
        vec![
            SetupStep::SelectInput { window: 0x1c3 },
            SetupStep::GrabButton { button: Button::Button1 },
            SetupStep::GrabButton { button: Button::Button3 },
            SetupStep::Listen,
            SetupStep::SupportingEwmh,
            SetupStep::LoadMonitors,
            SetupStep::Startup,
        ]
    );
}

#[test]
fn every_screen_becomes_a_monitor() {
    let mut manager = manager();
    manager.load_monitors(&vec![Area::new(0, 0, 1920, 1080), Area::new(1920, 0, 1280, 1024)]);
    assert_eq!(manager.monitors.monitors.len(), 2);
    assert_eq!(manager.monitors.monitors[0].area, Area::new(0, 0, 1920, 1080));
    assert_eq!(manager.monitors.monitors[1].area, Area::new(1920, 0, 1280, 1024));
    assert_eq!(manager.monitors.monitors[1].workspace.len(), 0);
}

#[test]
fn announcement_names_the_check_window() {
    let changes = manager().set_supporting_ewmh(0x04030201);
    assert_eq!(changes.len(), 3);
    assert_eq!(changes[0].window, 0x04030201);
    assert_eq!(changes[0].property, EwmhAtom::SupportingWmCheck);
    assert_eq!(changes[0].kind, PropertyType::Window);
    assert_eq!(changes[0].format, PropertyFormat::Format32);
    assert_eq!(changes[0].data, vec![1, 2, 3, 4]);
    assert_eq!(changes[1].window, 0x04030201);
    assert_eq!(changes[1].property, EwmhAtom::WmName);
    assert_eq!(changes[1].kind, PropertyType::Named(EwmhAtom::Utf8String));
    assert_eq!(changes[1].format, PropertyFormat::Format8);
    assert_eq!(changes[1].data, b"yaxwm".to_vec());
    assert_eq!(changes[2].window, 0x1c3);
    assert_eq!(changes[2].property, EwmhAtom::SupportingWmCheck);
    assert_eq!(changes[2].kind, PropertyType::Window);
    assert_eq!(changes[2].format, PropertyFormat::Format32);
    assert_eq!(changes[2].data, vec![1, 2, 3, 4]);
}

#[test]
fn ids_are_written_lowest_byte_first() {
    let changes = manager().set_supporting_ewmh(0xfffe00ab);
    assert_eq!(changes[0].data, 0xfffe00abu32.to_le_bytes().to_vec());
}

#[test]
fn atoms_have_their_names() {
    let names: Vec<&str> = ewmh_atoms().iter().map(|atom| atom.name()).collect();
    assert_eq!(names, vec!["_NET_SUPPORTING_WM_CHECK", "_NET_WM_NAME", "UTF8_STRING"]);
    let window = check_window();
    assert_eq!(window.area, Area::new(0, 0, 1, 1));
    assert_eq!(window.border_width, 0);
    assert_eq!(window.class, WindowClass::InputOutput);
}

#[test]
fn watched_events_are_listed() {
    assert_eq!(
        window_events(),
        vec![
            EventMask::SubstructureNotify,
            EventMask::SubstructureRedirect,
            EventMask::EnterWindow,
            EventMask::FocusChange,
        ]
    );
    assert_eq!(
        button_grab().events,
        vec![EventMask::ButtonPress, EventMask::ButtonRelease, EventMask::ButtonMotion]
    );
    assert_eq!(drag_grab().events, vec![EventMask::PointerMotion, EventMask::ButtonRelease]);
    assert_eq!(button_modifiers(), vec![KeyMask::Mod4]);
}

#[test]
fn grabs_leave_everything_else_as_usual() {
    let usual = |settings: GrabSettings| {
        settings.cursor == GrabCursor::Unchanged
            && settings.pointer_mode == GrabMode::Asynchronous
            && settings.keyboard_mode == GrabMode::Asynchronous
            && settings.owner_events
            && settings.confine_to == 0
    };
    assert!(usual(button_grab()));
    assert!(usual(drag_grab()));
}

#[test]
fn loop_deals_with_events_before_requests() {
    let manager = manager();
    assert_eq!(manager.run(Done::Nothing), Turn::Setup);
    assert_eq!(manager.run(Done::Setup), Turn::Announce);
    assert_eq!(manager.run(Done::Announce), Turn::Poll);
    assert_eq!(manager.run(Done::Poll { ready: true }), Turn::Event);
    assert_eq!(manager.run(Done::Event), Turn::Incoming);
    assert_eq!(manager.run(Done::Poll { ready: false }), Turn::Incoming);
    assert_eq!(manager.run(Done::Incoming), Turn::Poll);
}

#[test]
fn loop_ends_only_between_rounds() {
    let mut manager = manager();
    manager.should_close = true;
    assert_eq!(manager.run(Done::Nothing), Turn::Setup);
    assert_eq!(manager.run(Done::Setup), Turn::Announce);
    assert_eq!(manager.run(Done::Announce), Turn::Close);
    assert_eq!(manager.run(Done::Event), Turn::Incoming);
    assert_eq!(manager.run(Done::Incoming), Turn::Close);
}
