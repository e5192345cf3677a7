//! What happens before the first event, and the order in which the window
//! manager then waits for input.

use vstd::prelude::*;

use crate::area::Area;
use crate::event::Button;
use crate::manager::WindowManager;
use crate::monitor::{Monitor, MonitorView, MonitorsView};
use crate::workspace::{Workspaces, WorkspacesView};

verus! {

/// A kind of event that the display server can be asked for.
#[derive(Debug, Clone, Copy, PartialEq, Eq, Structural)]
pub enum EventMask {
    ButtonPress,
    ButtonRelease,
    EnterWindow,
    PointerMotion,
    ButtonMotion,
    SubstructureNotify,
    SubstructureRedirect,
    FocusChange,
}

/// A key that has to be down for a button to be taken.
#[derive(Debug, Clone, Copy, PartialEq, Eq, Structural)]
pub enum KeyMask {
    Mod4,
}

/// The events that the root window and every managed window are watched for.
pub fn window_events() -> (events: Vec<EventMask>)
    ensures
        events@ == seq![
            EventMask::SubstructureNotify,
            EventMask::SubstructureRedirect,
            EventMask::EnterWindow,
            EventMask::FocusChange,
        ],
{
    let events = vec![
        EventMask::SubstructureNotify,
        EventMask::SubstructureRedirect,
        EventMask::EnterWindow,
        EventMask::FocusChange,
    ];
    assert(events@ =~= seq![
        EventMask::SubstructureNotify,
        EventMask::SubstructureRedirect,
        EventMask::EnterWindow,
        EventMask::FocusChange,
    ]);
    events
}

/// How events go on during a grab.
#[derive(Debug, Clone, Copy, PartialEq, Eq, Structural)]
pub enum GrabMode {
    /// As usual.
    Asynchronous,
}

/// The cursor that is shown during a grab.
#[derive(Debug, Clone, Copy, PartialEq, Eq, Structural)]
pub enum GrabCursor {
    /// The usual one.
    Unchanged,
}

/// How a button or the pointer is grabbed.
#[verifier::ext_equal]
pub struct GrabSettingsView {
    pub events: Seq<EventMask>,
    pub cursor: GrabCursor,
    pub pointer_mode: GrabMode,
    pub keyboard_mode: GrabMode,
    pub owner_events: bool,
    pub confine_to: u32,
}

/// How a button or the pointer is grabbed.
pub struct GrabSettings {
    /// The events that are taken.
    pub events: Vec<EventMask>,
    pub cursor: GrabCursor,
    pub pointer_mode: GrabMode,
    pub keyboard_mode: GrabMode,
    /// Whether windows of the window manager get their events as usual.
    pub owner_events: bool,
    /// The window that the pointer cannot leave, or zero.
    pub confine_to: u32,
}

impl View for GrabSettings {
    type V = GrabSettingsView;

    open spec fn view(&self) -> GrabSettingsView {
        GrabSettingsView {
            events: self.events@,
            cursor: self.cursor,
            pointer_mode: self.pointer_mode,
            keyboard_mode: self.keyboard_mode,
            owner_events: self.owner_events,
            confine_to: self.confine_to,
        }
    }
}

/// A grab that takes some events and leaves everything else as usual.
pub open spec fn grab_of(events: Seq<EventMask>) -> GrabSettingsView {
    GrabSettingsView {
        events,
        cursor: GrabCursor::Unchanged,
        pointer_mode: GrabMode::Asynchronous,
        keyboard_mode: GrabMode::Asynchronous,
        owner_events: true,
        confine_to: 0,
    }
}

fn grab_with(events: Vec<EventMask>) -> (settings: GrabSettings)
    ensures
        settings@ == grab_of(events@),
{
    GrabSettings {
        events,
        cursor: GrabCursor::Unchanged,
        pointer_mode: GrabMode::Asynchronous,
        keyboard_mode: GrabMode::Asynchronous,
        owner_events: true,
        confine_to: 0,
    }
}

/// How a button of the root window is grabbed.
pub fn button_grab() -> (settings: GrabSettings)
    ensures
        settings@ == grab_of(
            seq![EventMask::ButtonPress, EventMask::ButtonRelease, EventMask::ButtonMotion],
        ),
{
    let events = vec![EventMask::ButtonPress, EventMask::ButtonRelease, EventMask::ButtonMotion];
    assert(events@ =~= seq![
        EventMask::ButtonPress,
        EventMask::ButtonRelease,
        EventMask::ButtonMotion,
    ]);
    grab_with(events)
}

/// The keys that have to be down for a button of the root window to be taken.
pub fn button_modifiers() -> (modifiers: Vec<KeyMask>)
    ensures
        modifiers@ == seq![KeyMask::Mod4],
{
    let modifiers = vec![KeyMask::Mod4];
    assert(modifiers@ =~= seq![KeyMask::Mod4]);
    modifiers
}

/// How the pointer is grabbed while a window is dragged.
pub fn drag_grab() -> (settings: GrabSettings)
    ensures
        settings@ == grab_of(seq![EventMask::PointerMotion, EventMask::ButtonRelease]),
{
    let events = vec![EventMask::PointerMotion, EventMask::ButtonRelease];
    assert(events@ =~= seq![EventMask::PointerMotion, EventMask::ButtonRelease]);
    grab_with(events)
}

/// One step of the setup.
#[derive(Debug, Clone, Copy, PartialEq, Eq, Structural)]
pub enum SetupStep {
    /// Ask for the events that the root window is watched for.
    SelectInput { window: u32 },
    /// Grab a button of the root window, as `button_grab` says.
    GrabButton { button: Button },
    /// Listen for requests.
    Listen,
    /// Announce a window manager that follows the hints for desktops.
    SupportingEwmh,
    /// Find out the monitors.
    LoadMonitors,
    /// Start the programs of the user.
    Startup,
}

/// An atom that the announcement needs.
#[derive(Debug, Clone, Copy, PartialEq, Eq, Structural)]
pub enum EwmhAtom {
    SupportingWmCheck,
    WmName,
    Utf8String,
}

impl EwmhAtom {
    /// The name by which the display server knows the atom.
    pub fn name(&self) -> (name: &'static str)
        ensures
            match *self {
                EwmhAtom::SupportingWmCheck => name@ == "_NET_SUPPORTING_WM_CHECK"@,
                EwmhAtom::WmName => name@ == "_NET_WM_NAME"@,
                EwmhAtom::Utf8String => name@ == "UTF8_STRING"@,
            },
    {
        match *self {
            EwmhAtom::SupportingWmCheck => "_NET_SUPPORTING_WM_CHECK",
            EwmhAtom::WmName => "_NET_WM_NAME",
            EwmhAtom::Utf8String => "UTF8_STRING",
        }
    }
}

/// The type of a property.
#[derive(Debug, Clone, Copy, PartialEq, Eq, Structural)]
pub enum PropertyType {
    /// The id of a window.
    Window,
    /// The type that an atom names.
    Named(EwmhAtom),
}

/// The size of the items of a property.
#[derive(Debug, Clone, Copy, PartialEq, Eq, Structural)]
pub enum PropertyFormat {
    Format8,
    Format32,
}

/// A property of a window, to be replaced.
#[verifier::ext_equal]
pub struct PropertyChangeView {
    pub window: u32,
    pub property: EwmhAtom,
    pub kind: PropertyType,
    pub format: PropertyFormat,
    pub data: Seq<u8>,
}

/// A property of a window, to be replaced.
pub struct PropertyChange {
    pub window: u32,
    pub property: EwmhAtom,
    pub kind: PropertyType,
    pub format: PropertyFormat,
    pub data: Vec<u8>,
}

impl View for PropertyChange {
    type V = PropertyChangeView;

    open spec fn view(&self) -> PropertyChangeView {
        PropertyChangeView {
            window: self.window,
            property: self.property,
            kind: self.kind,
            format: self.format,
            data: self.data@,
        }
    }
}

/// The four bytes of a number, the lowest one first.
pub open spec fn bytes_of(value: u32) -> Seq<u8> {
    seq![
        (value % 0x100) as u8,
        (value / 0x100 % 0x100) as u8,
        (value / 0x10000 % 0x100) as u8,
        (value / 0x1000000) as u8,
    ]
}

fn to_bytes(value: u32) -> (bytes: Vec<u8>)
    ensures
        bytes@ == bytes_of(value),
{
    let bytes = vec![
        (value % 0x100) as u8,
        (value / 0x100 % 0x100) as u8,
        (value / 0x10000 % 0x100) as u8,
        (value / 0x1000000) as u8,
    ];
    assert(bytes@ =~= bytes_of(value));
    bytes
}

/// The bytes of the name under which the window manager announces itself.
pub open spec fn manager_name() -> Seq<u8> {
    seq![0x79u8, 0x61u8, 0x78u8, 0x77u8, 0x6du8]
}

/// The atoms that the announcement needs, in the order in which they are looked
/// up.
pub fn ewmh_atoms() -> (atoms: Vec<EwmhAtom>)
    ensures
        atoms@ == seq![EwmhAtom::SupportingWmCheck, EwmhAtom::WmName, EwmhAtom::Utf8String],
{
    let atoms = vec![EwmhAtom::SupportingWmCheck, EwmhAtom::WmName, EwmhAtom::Utf8String];
    assert(atoms@ =~= seq![
        EwmhAtom::SupportingWmCheck,
        EwmhAtom::WmName,
        EwmhAtom::Utf8String,
    ]);
    atoms
}

/// What can be done with a new window.
#[derive(Debug, Clone, Copy, PartialEq, Eq, Structural)]
pub enum WindowClass {
    /// It takes input and can be drawn to.
    InputOutput,
}

/// How a window is created.
#[derive(Debug, Clone, Copy, PartialEq, Eq, Structural)]
pub struct WindowSettings {
    pub area: Area,
    pub border_width: u16,
    pub class: WindowClass,
}

/// How the window is created that stands for the window manager.
pub fn check_window() -> (settings: WindowSettings)
    ensures
        settings == (WindowSettings {
            area: Area { x: 0, y: 0, width: 1, height: 1 },
            border_width: 0,
            class: WindowClass::InputOutput,
        }),
{
    WindowSettings {
        area: Area::new(0, 0, 1, 1),
        border_width: 0,
        class: WindowClass::InputOutput,
    }
}

/// What the main loop does at one time.
#[derive(Debug, Clone, Copy, PartialEq, Eq, Structural)]
pub enum Turn {
    /// Perform the steps of the setup.
    Setup,
    /// Report that the window manager runs.
    Announce,
    /// Find out whether an event is there.
    Poll,
    /// Take the next event and deal with it.
    Event,
    /// Deal with the requests that have come in.
    Incoming,
    /// End.
    Close,
}

/// What the main loop has just done.
#[derive(Debug, Clone, Copy, PartialEq, Eq, Structural)]
pub enum Done {
    /// Nothing yet.
    Nothing,
    Setup,
    Announce,
    /// Found out whether an event is there.
    Poll { ready: bool },
    Event,
    Incoming,
}

/// What the main loop does next: setup and a report come first; then, in rounds,
/// an event is dealt with if there is one, and after it the requests that have
/// come in. Between two rounds the loop ends if the manager is to close.
pub open spec fn turn_after(done: Done, should_close: bool) -> Turn {
    match done {
        Done::Nothing => Turn::Setup,
        Done::Setup => Turn::Announce,
        Done::Poll { ready } => if ready {
            Turn::Event
        } else {
            Turn::Incoming
        },
        Done::Event => Turn::Incoming,
        Done::Announce | Done::Incoming => if should_close {
            Turn::Close
        } else {
            Turn::Poll
        },
    }
}

/// Whatever is found when it looks for an event, the manager deals with requests
/// before it looks again; and it closes only between two rounds.
pub proof fn every_round_deals_with_requests(done: Done, ready: bool, should_close: bool)
    ensures
        turn_after(Done::Poll { ready }, should_close) == Turn::Incoming || turn_after(
            Done::Poll { ready },
            should_close,
        ) == Turn::Event && turn_after(Done::Event, should_close) == Turn::Incoming,
        turn_after(done, should_close) == Turn::Event <==> done == (Done::Poll { ready: true }),
        turn_after(done, should_close) == Turn::Close <==> should_close && (done == Done::Announce
            || done == Done::Incoming),
{
}

/// A monitor without workspaces.
pub open spec fn bare_monitor(area: Area) -> MonitorView {
    MonitorView { area, workspace: WorkspacesView { workspaces: Seq::empty(), current: 0 } }
}

impl WindowManager {
    /// The steps of the setup, in their order.
    pub fn setup(&self) -> (steps: Vec<SetupStep>)
        ensures
            steps@ == seq![
                SetupStep::SelectInput { window: self@.root },
                SetupStep::GrabButton { button: Button::Button1 },
                SetupStep::GrabButton { button: Button::Button3 },
                SetupStep::Listen,
                SetupStep::SupportingEwmh,
                SetupStep::LoadMonitors,
                SetupStep::Startup,
            ],
    {
        let steps = vec![
            SetupStep::SelectInput { window: self.root },
            SetupStep::GrabButton { button: Button::Button1 },
            SetupStep::GrabButton { button: Button::Button3 },
            SetupStep::Listen,
            SetupStep::SupportingEwmh,
            SetupStep::LoadMonitors,
            SetupStep::Startup,
        ];
        assert(steps@ =~= seq![
            SetupStep::SelectInput { window: self@.root },
            SetupStep::GrabButton { button: Button::Button1 },
            SetupStep::GrabButton { button: Button::Button3 },
            SetupStep::Listen,
            SetupStep::SupportingEwmh,
            SetupStep::LoadMonitors,
            SetupStep::Startup,
        ]);
        steps
    }

    /// Adds a monitor without workspaces for each screen.
    pub fn load_monitors(&mut self, screens: &Vec<Area>)
        ensures
            final(self)@ == old(self)@.with_monitors(
                MonitorsView {
                    monitors: old(self)@.monitors.monitors + screens@.map_values(
                        |area: Area| bare_monitor(area),
                    ),
                    ..old(self)@.monitors
                },
            ),
    {
        let ghost added = screens@.map_values(|area: Area| bare_monitor(area));
        let mut i: usize = 0;
        while i < screens.len()
            invariant
                i <= screens@.len(),
                added == screens@.map_values(|area: Area| bare_monitor(area)),
                self@ == old(self)@.with_monitors(self@.monitors),
                self@.monitors.root == old(self)@.monitors.root,
                self@.monitors.monitors == old(self)@.monitors.monitors + added.take(i as int),
            decreases screens@.len() - i,
        {
            let screen = screens[i];
            self.monitors.append(Monitor { area: screen, workspace: Workspaces::new() });
            assert(self@.monitors.monitors =~= old(self)@.monitors.monitors + added.take(i + 1));
            i = i + 1;
        }
        assert(added.take(i as int) =~= added);
    }

    /// The properties that announce the window manager: both the window that
    /// stands for it and the root window name that window, and the window has
    /// the name of the window manager.
    pub fn set_supporting_ewmh(&self, window: u32) -> (changes: Vec<PropertyChange>)
        ensures
            changes@.map_values(|change: PropertyChange| change@) == seq![
                PropertyChangeView {
                    window,
                    property: EwmhAtom::SupportingWmCheck,
                    kind: PropertyType::Window,
                    format: PropertyFormat::Format32,
                    data: bytes_of(window),
                },
                PropertyChangeView {
                    window,
                    property: EwmhAtom::WmName,
                    kind: PropertyType::Named(EwmhAtom::Utf8String),
                    format: PropertyFormat::Format8,
                    data: manager_name(),
                },
                PropertyChangeView {
                    window: self@.root,
                    property: EwmhAtom::SupportingWmCheck,
                    kind: PropertyType::Window,
                    format: PropertyFormat::Format32,
                    data: bytes_of(window),
                },
            ],
    {
        let name: Vec<u8> = vec![0x79u8, 0x61u8, 0x78u8, 0x77u8, 0x6du8];
        assert(name@ =~= manager_name());
        let changes = vec![
            PropertyChange {
                window,
                property: EwmhAtom::SupportingWmCheck,
                kind: PropertyType::Window,
                format: PropertyFormat::Format32,
                data: to_bytes(window),
            },
            PropertyChange {
                window,
                property: EwmhAtom::WmName,
                kind: PropertyType::Named(EwmhAtom::Utf8String),
                format: PropertyFormat::Format8,
                data: name,
            },
            PropertyChange {
                window: self.root,
                property: EwmhAtom::SupportingWmCheck,
                kind: PropertyType::Window,
                format: PropertyFormat::Format32,
                data: to_bytes(window),
            },
        ];
        changes
    }

    /// The order of the main loop: setup and a report come first. After that,
    /// until the manager is to close, an event is dealt with if there is one, and
    /// then the requests that have come in.
    pub fn run(&self, done: Done) -> (turn: Turn)
        ensures
            turn == turn_after(done, self@.should_close),
    {
        match done {
            Done::Nothing => Turn::Setup,
            Done::Setup => Turn::Announce,
            Done::Poll { ready } => if ready {
                Turn::Event
            } else {
                Turn::Incoming
            },
            Done::Event => Turn::Incoming,
            Done::Announce | Done::Incoming => if self.should_close {
                Turn::Close
            } else {
                Turn::Poll
            },
        }
    }
}

} // verus!
