//! Monitors, each with its own workspaces.

use vstd::prelude::*;

use crate::action::{Action, Outcome};
use crate::area::Area;
use crate::config::Config;
use crate::request::FocusStep;
use crate::workspace::{Client, Workspaces, WorkspacesView};

verus! {

/// A monitor: its place on the screen, and its workspaces.
#[verifier::ext_equal]
pub struct MonitorView {
    pub area: Area,
    pub workspace: WorkspacesView,
}

impl MonitorView {
    /// What is done to lay out the clients of the monitor.
    pub open spec fn tile_actions(self, config: Config) -> Seq<Action> {
        self.workspace.tile_actions(self.area.padded(config.padding), config.windows.gaps)
    }

    /// The padding fits the monitor, and the tiled clients can share the rest.
    pub open spec fn can_tile(self, config: Config) -> bool {
        &&& self.area.can_pad(config.padding)
        &&& self.workspace.can_tile(self.area.padded(config.padding), config.windows.gaps)
    }

    /// With a client added to the workspace that is shown.
    pub open spec fn inserted(self, client: Client) -> MonitorView {
        MonitorView { workspace: self.workspace.inserted(client), ..self }
    }

    /// With the workspace of a number shown.
    pub open spec fn selected(self, number: u32) -> MonitorView {
        MonitorView { workspace: self.workspace.selected(number), ..self }
    }

    /// With another number of workspaces.
    pub open spec fn resized(self, size: nat) -> MonitorView {
        MonitorView { workspace: self.workspace.resized(size), ..self }
    }

    /// With a change made to the client of a window in the workspace that is
    /// shown, if there is one.
    pub open spec fn change_client(self, wid: u32, change: spec_fn(Client) -> Client) -> MonitorView {
        MonitorView { workspace: self.workspace.change_client(wid, change), ..self }
    }

    /// Without the first client of a window in the workspace that is shown.
    pub open spec fn unmapped(self, wid: u32) -> MonitorView {
        match self.workspace.find(wid) {
            Some(i) => MonitorView { workspace: self.workspace.removed(i), ..self },
            None => self,
        }
    }

    /// Where the focus goes when a window was taken out: if there is another
    /// client of that window, to the client before it.
    pub open spec fn unmap_actions(self, wid: u32) -> Seq<Action> {
        let rest = self.unmapped(wid).workspace;
        if self.workspace.find(wid) is Some {
            match rest.find(wid) {
                Some(i) => crate::workspace::focus_actions(rest.shown(), i - 1),
                None => Seq::empty(),
            }
        } else {
            Seq::empty()
        }
    }

    /// A workspace is shown, and it does not begin with two clients of the
    /// window.
    pub open spec fn can_unmap(self, wid: u32) -> bool {
        &&& self.workspace.has_current()
        &&& self.workspace.find(wid) is Some ==> self.unmapped(wid).workspace.find(wid) != Some(0int)
    }

    /// Where the focus goes when it is to leave a window.
    pub open spec fn move_actions(self, focus: u32, step: FocusStep) -> Seq<Action> {
        match self.workspace.find(focus) {
            Some(i) => crate::workspace::focus_actions(self.workspace.shown(), focus_target(step, i)),
            None => Seq::empty(),
        }
    }
}

/// The index that the focus goes to from index `i`: to the one before, but not
/// before the first; to the one after; to the first.
pub open spec fn focus_target(step: FocusStep, i: int) -> int {
    match step {
        FocusStep::Up => if i == 0 {
            0
        } else {
            i - 1
        },
        FocusStep::Down => i + 1,
        FocusStep::Master => 0,
    }
}

/// A monitor: its place on the screen, and its workspaces.
pub struct Monitor {
    pub area: Area,
    pub workspace: Workspaces,
}

impl View for Monitor {
    type V = MonitorView;

    open spec fn view(&self) -> MonitorView {
        MonitorView { area: self.area, workspace: self.workspace@ }
    }
}

impl Monitor {
    /// Lays out the clients of the monitor.
    pub fn tile(&self, config: Config) -> (actions: Vec<Action>)
        requires
            self@.can_tile(config),
        ensures
            actions@ == self@.tile_actions(config),
    {
        self.workspace.tile(self.area.pad(config.padding), config.windows.gaps)
    }

    /// Whether `tile` could be asked for with the workspace of a number shown.
    pub fn tiles_selected(&self, number: u32, config: Config) -> (possible: bool)
        ensures
            possible == self@.selected(number).can_tile(config),
    {
        let mut trial = Monitor { area: self.area, workspace: self.workspace.duplicate() };
        trial.workspace.select(number);
        trial.tiles(config)
    }

    /// Takes the first client of a window out of the workspace that is shown.
    #[verifier::spinoff_prover]
    pub fn unmap(&mut self, wid: u32) -> (actions: Vec<Action>)
        requires
            old(self)@.can_unmap(wid),
        ensures
            final(self)@ == old(self)@.unmapped(wid),
            actions@ == old(self)@.unmap_actions(wid),
    {
        match self.workspace.find(wid) {
            Some(index) => {
                self.workspace.remove(index);
                assert(self@ == old(self)@.unmapped(wid));
                assert(self.workspace@.find(wid) != Some(0int));
                let before = |index: usize| -> (target: usize)
                    requires
                        index > 0,
                    ensures
                        target == index - 1,
                    { index - 1 };
                proof {
                    self.workspace.shown_is_bounded();
                    crate::workspace::position_is_first(self.workspace@.shown(), wid);
                }
                self.workspace.change_focus(wid, before)
            },
            None => Vec::new(),
        }
    }

    /// Whether `unmap` can be asked for.
    pub fn unmaps(&self, wid: u32) -> (possible: bool)
        ensures
            possible == self@.can_unmap(wid),
    {
        if !self.workspace.shows() {
            return false;
        }
        match self.workspace.find(wid) {
            Some(index) => {
                let mut rest = self.workspace.duplicate();
                rest.remove(index);
                match rest.find(wid) {
                    Some(next) => next != 0,
                    None => true,
                }
            },
            None => true,
        }
    }

    /// Moves the focus away from a window of the workspace that is shown.
    pub fn move_focus(&self, focus: u32, step: FocusStep) -> (actions: Vec<Action>)
        requires
            self@.workspace.has_current(),
        ensures
            actions@ == self@.move_actions(focus, step),
    {
        proof {
            self.workspace.shown_is_bounded();
            crate::workspace::position_is_first(self.workspace@.shown(), focus);
        }
        match step {
            FocusStep::Up => {
                let before = |index: usize| -> (target: usize)
                    ensures
                        target == focus_target(FocusStep::Up, index as int),
                    {
                        if index == 0 {
                            0
                        } else {
                            index - 1
                        }
                    };
                self.workspace.change_focus(focus, before)
            },
            FocusStep::Down => {
                let after = |index: usize| -> (target: usize)
                    requires
                        index < usize::MAX,
                    ensures
                        target == index + 1,
                    { index + 1 };
                self.workspace.change_focus(focus, after)
            },
            FocusStep::Master => {
                let first = |index: usize| -> (target: usize)
                    ensures
                        target == 0,
                    { 0 };
                self.workspace.change_focus(focus, first)
            },
        }
    }

    /// Whether `tile` can be asked for.
    pub fn tiles(&self, config: Config) -> (possible: bool)
        ensures
            possible == self@.can_tile(config),
    {
        self.area.pads(config.padding) && self.workspace.tiles(
            self.area.pad(config.padding),
            config.windows.gaps,
        )
    }
}

/// The monitors in their order, and the id of the root window.
#[verifier::ext_equal]
pub struct MonitorsView {
    pub monitors: Seq<MonitorView>,
    pub root: u32,
}

impl MonitorsView {
    /// It can be told of every monitor whether it contains the point.
    pub open spec fn can_locate(self, x: u16, y: u16) -> bool {
        forall|i: int|
            0 <= i < self.monitors.len() ==> (#[trigger] self.monitors[i]).area.can_locate(x, y)
    }

    /// Every monitor that contains the point shows a workspace.
    pub open spec fn shown_at(self, x: u16, y: u16) -> bool {
        forall|i: int|
            0 <= i < self.monitors.len() && (#[trigger] self.monitors[i]).area.covers(x, y)
                ==> self.monitors[i].workspace.has_current()
    }

    /// The clients of every monitor can be laid out.
    pub open spec fn can_tile(self, config: Config) -> bool {
        forall|i: int| 0 <= i < self.monitors.len() ==> (#[trigger] self.monitors[i]).can_tile(config)
    }

    /// What is done to lay out the clients of every monitor.
    pub open spec fn tile_actions(self, config: Config) -> Seq<Action> {
        self.actions_for_all(|m: MonitorView| m.tile_actions(config))
    }

    /// With a change made to every monitor.
    pub open spec fn change_all(self, change: spec_fn(MonitorView) -> MonitorView) -> MonitorsView {
        MonitorsView { monitors: self.monitors.map_values(change), ..self }
    }

    /// What is done for every monitor, one after the other.
    pub open spec fn actions_for_all(self, report: spec_fn(MonitorView) -> Seq<Action>) -> Seq<
        Action,
    > {
        self.monitors.map_values(report).flatten()
    }

    /// With a change made to the monitors that contain a point.
    pub open spec fn change_focused(
        self,
        x: u16,
        y: u16,
        change: spec_fn(MonitorView) -> MonitorView,
    ) -> MonitorsView {
        self.change_all(
            |m: MonitorView|
                if m.area.covers(x, y) {
                    change(m)
                } else {
                    m
                },
        )
    }

    /// What is done for the monitors that contain a point, one after the other.
    pub open spec fn actions_for_focused(
        self,
        x: u16,
        y: u16,
        report: spec_fn(MonitorView) -> Seq<Action>,
    ) -> Seq<Action> {
        self.actions_for_all(
            |m: MonitorView|
                if m.area.covers(x, y) {
                    report(m)
                } else {
                    Seq::empty()
                },
        )
    }

    /// With another monitor at an index.
    pub open spec fn with_monitor(self, i: int, monitor: MonitorView) -> MonitorsView {
        MonitorsView { monitors: self.monitors.update(i, monitor), ..self }
    }

    /// The first monitor from index `from` on that contains the point.
    pub open spec fn under(self, x: u16, y: u16, from: int) -> Option<int>
        decreases self.monitors.len() - from,
    {
        if from >= self.monitors.len() {
            None
        } else if self.monitors[from].area.covers(x, y) {
            Some(from)
        } else {
            self.under(x, y, from + 1)
        }
    }

    /// It can be told of every monitor from index `from` to the first one that
    /// contains the point whether it does.
    pub open spec fn can_scan(self, x: u16, y: u16, from: int) -> bool
        decreases self.monitors.len() - from,
    {
        from < self.monitors.len() ==> {
            let area = self.monitors[from].area;
            area.can_locate(x, y) && (area.covers(x, y) || self.can_scan(x, y, from + 1))
        }
    }

    /// The first monitor from index `from` on that shows the window.
    pub open spec fn showing(self, wid: u32, from: int) -> Option<int>
        decreases self.monitors.len() - from,
    {
        if from >= self.monitors.len() {
            None
        } else if self.monitors[from].workspace.find(wid) is Some {
            Some(from)
        } else {
            self.showing(wid, from + 1)
        }
    }

    /// Every monitor from index `from` to the first one that shows the window
    /// shows a workspace.
    pub open spec fn can_seek(self, wid: u32, from: int) -> bool
        decreases self.monitors.len() - from,
    {
        from < self.monitors.len() ==> {
            let workspace = self.monitors[from].workspace;
            workspace.has_current() && (workspace.find(wid) is Some || self.can_seek(
                wid,
                from + 1,
            ))
        }
    }

    /// The first monitor from index `from` on that contains the point and on which
    /// the window floats.
    pub open spec fn floating(self, wid: u32, x: u16, y: u16, from: int) -> Option<int>
        decreases self.monitors.len() - from,
    {
        if from >= self.monitors.len() {
            None
        } else if self.monitors[from].area.covers(x, y) && self.monitors[from].workspace.floats(
            wid,
        ) {
            Some(from)
        } else {
            self.floating(wid, x, y, from + 1)
        }
    }

    /// It can be told of every monitor from index `from` to the first one that
    /// contains the point and on which the window floats whether it contains the
    /// point, and those that do show a workspace.
    pub open spec fn can_spot(self, wid: u32, x: u16, y: u16, from: int) -> bool
        decreases self.monitors.len() - from,
    {
        from < self.monitors.len() ==> {
            let monitor = self.monitors[from];
            let here = monitor.area.covers(x, y);
            &&& monitor.area.can_locate(x, y)
            &&& here ==> monitor.workspace.has_current()
            &&& here && monitor.workspace.floats(wid) || self.can_spot(wid, x, y, from + 1)
        }
    }

    /// The window floats on each of the first `n` monitors.
    pub open spec fn floats_on_first(self, wid: u32, n: int) -> bool {
        forall|i: int| 0 <= i < n ==> (#[trigger] self.monitors[i]).workspace.floats(wid)
    }

    /// The monitors up to the first one on which the window does not float each
    /// show a workspace.
    pub open spec fn can_judge(self, wid: u32) -> bool {
        forall|i: int|
            0 <= i < self.monitors.len() && #[trigger] self.floats_on_first(wid, i)
                ==> self.monitors[i].workspace.has_current()
    }
}

/// Parts that agree at every index come to the same when they are joined.
proof fn same_parts(expected: Seq<Seq<Action>>)
    ensures
        forall|outs: Seq<Seq<Action>>|
            outs.len() == expected.len() && (forall|i: int| #[trigger]
                crate::workspace::in_range(i, expected.len()) ==> outs[i] == expected[i])
                ==> #[trigger] outs.flatten() == expected.flatten(),
{
    assert forall|outs: Seq<Seq<Action>>|
        outs.len() == expected.len() && (forall|i: int| #[trigger]
            crate::workspace::in_range(i, expected.len()) ==> outs[i]
            == expected[i]) implies #[trigger] outs.flatten() == expected.flatten() by {
        assert forall|i: int| 0 <= i < outs.len() implies outs[i] == expected[i] by {
            assert(crate::workspace::in_range(i, expected.len()));
        }
        assert(outs =~= expected);
    }
}

/// The monitor that is found is the first one that contains the point; where none
/// is found, no monitor does.
pub proof fn under_is_first(monitors: MonitorsView, x: u16, y: u16, from: int)
    requires
        0 <= from,
    ensures
        match monitors.under(x, y, from) {
            Some(i) => {
                &&& from <= i < monitors.monitors.len()
                &&& monitors.monitors[i].area.covers(x, y)
                &&& forall|j: int|
                    from <= j < i ==> !(#[trigger] monitors.monitors[j]).area.covers(x, y)
            },
            None => forall|j: int|
                from <= j < monitors.monitors.len() ==> !(
                #[trigger] monitors.monitors[j]).area.covers(x, y),
        },
    decreases monitors.monitors.len() - from,
{
    if from < monitors.monitors.len() && !monitors.monitors[from].area.covers(x, y) {
        under_is_first(monitors, x, y, from + 1);
    }
}

/// The monitor that is found is the first one that shows the window; where none is
/// found, no monitor does.
pub proof fn showing_is_first(monitors: MonitorsView, wid: u32, from: int)
    requires
        0 <= from,
    ensures
        match monitors.showing(wid, from) {
            Some(i) => {
                &&& from <= i < monitors.monitors.len()
                &&& monitors.monitors[i].workspace.find(wid) is Some
                &&& forall|j: int|
                    from <= j < i ==> (#[trigger] monitors.monitors[j]).workspace.find(wid) is None
            },
            None => forall|j: int|
                from <= j < monitors.monitors.len() ==> (
                #[trigger] monitors.monitors[j]).workspace.find(wid) is None,
        },
    decreases monitors.monitors.len() - from,
{
    if from < monitors.monitors.len() && monitors.monitors[from].workspace.find(wid) is None {
        showing_is_first(monitors, wid, from + 1);
    }
}

/// The monitor that is found is the first one that contains the point and on which
/// the window floats; where none is found, there is no such monitor.
pub proof fn floating_is_first(monitors: MonitorsView, wid: u32, x: u16, y: u16, from: int)
    requires
        0 <= from,
    ensures
        match monitors.floating(wid, x, y, from) {
            Some(i) => {
                &&& from <= i < monitors.monitors.len()
                &&& monitors.monitors[i].area.covers(x, y)
                &&& monitors.monitors[i].workspace.floats(wid)
                &&& forall|j: int|
                    from <= j < i ==> !((#[trigger] monitors.monitors[j]).area.covers(x, y)
                        && monitors.monitors[j].workspace.floats(wid))
            },
            None => forall|j: int|
                from <= j < monitors.monitors.len() ==> !((
                #[trigger] monitors.monitors[j]).area.covers(x, y)
                    && monitors.monitors[j].workspace.floats(wid)),
        },
    decreases monitors.monitors.len() - from,
{
    if from < monitors.monitors.len() && !(monitors.monitors[from].area.covers(x, y)
        && monitors.monitors[from].workspace.floats(wid)) {
        floating_is_first(monitors, wid, x, y, from + 1);
    }
}

/// No visit of one of the first `n` monitors that contain the point is sure to
/// fail.
pub open spec fn can_reach<E, F: Fn(&mut Monitor) -> Outcome<E>>(
    f: F,
    monitors: Seq<Monitor>,
    x: u16,
    y: u16,
    n: int,
) -> bool {
    forall|j: int|
        0 <= j < n && (#[trigger] monitors[j]).area.covers(x, y) ==> crate::action::can_pass(
            f,
            monitors[j],
        )
}

/// A monitor is reached exactly if no earlier one that contains the point is sure to
/// fail.
pub proof fn reach_goes_by_earlier_visits<E, F: Fn(&mut Monitor) -> Outcome<E>>(
    f: F,
    monitors: Seq<Monitor>,
    x: u16,
    y: u16,
    n: int,
)
    ensures
        can_reach(f, monitors, x, y, n) <==> !exists|j: int|
            0 <= j < n && (#[trigger] monitors[j]).area.covers(x, y) && !crate::action::can_pass(
                f,
                monitors[j],
            ),
{
}

/// All monitors.
pub struct Monitors {
    pub monitors: Vec<Monitor>,
    /// The id of the root window.
    pub root: u32,
}

impl View for Monitors {
    type V = MonitorsView;

    open spec fn view(&self) -> MonitorsView {
        MonitorsView {
            monitors: self.monitors@.map_values(|monitor: Monitor| monitor@),
            root: self.root,
        }
    }
}

impl Monitors {
    /// No monitors yet.
    pub fn new(root: u32) -> (result: Monitors)
        ensures
            result@ == (MonitorsView { monitors: Seq::empty(), root }),
    {
        let result = Monitors { monitors: Vec::new(), root };
        assert(result@.monitors =~= Seq::empty());
        result
    }

    /// Adds a monitor after the others.
    pub fn append(&mut self, monitor: Monitor)
        ensures
            final(self)@ == (MonitorsView {
                monitors: old(self)@.monitors.push(monitor@),
                ..old(self)@
            }),
    {
        self.monitors.push(monitor);
        assert(self@.monitors =~= old(self)@.monitors.push(monitor@));
    }

    /// Whether there is a monitor on which the window does not float. So a
    /// window that is on no monitor is tiled as soon as there is one.
    pub fn is_tiled(&self, wid: u32) -> (is_tiled: bool)
        requires
            self@.can_judge(wid),
        ensures
            is_tiled == exists|i: int|
                0 <= i < self@.monitors.len() && !(#[trigger] self@.monitors[i]).workspace.floats(
                    wid,
                ),
            is_tiled == !self@.floats_on_first(wid, self@.monitors.len() as int),
    {
        let mut i: usize = 0;
        while i < self.monitors.len()
            invariant
                i <= self.monitors@.len(),
                self@.can_judge(wid),
                self@.floats_on_first(wid, i as int),
            decreases self.monitors@.len() - i,
        {
            assert(self@.monitors[i as int].workspace.has_current());
            if !self.monitors[i].workspace.is_float(wid) {
                assert(!self@.monitors[i as int].workspace.floats(wid));
                return true;
            }
            i = i + 1;
        }
        false
    }

    /// Whether `is_tiled` can be asked for.
    pub fn judges(&self, wid: u32) -> (possible: bool)
        ensures
            possible == self@.can_judge(wid),
    {
        let mut i: usize = 0;
        while i < self.monitors.len()
            invariant
                i <= self.monitors@.len(),
                self@.floats_on_first(wid, i as int),
                forall|j: int| 0 <= j < i ==> (#[trigger] self@.monitors[j]).workspace.has_current(),
            decreases self.monitors@.len() - i,
        {
            let ghost here = self@.monitors[i as int];
            if !self.monitors[i].workspace.shows() {
                return false;
            }
            if !self.monitors[i].workspace.is_float(wid) {
                assert forall|j: int|
                    0 <= j < self@.monitors.len() && #[trigger] self@.floats_on_first(
                        wid,
                        j,
                    ) implies self@.monitors[j].workspace.has_current() by {
                    assert(j > i ==> here.workspace.floats(wid));
                }
                return true;
            }
            i = i + 1;
        }
        true
    }

    /// Runs `f` on the monitors that contain a point, in their order, until it
    /// fails, and joins the actions that it asks for.
    pub fn focused<E, F: Fn(&mut Monitor) -> Outcome<E>>(&mut self, x: u16, y: u16, f: F) -> (outcome:
        Outcome<E>)
        requires
            forall|i: int|
                0 <= i < old(self).monitors@.len() && #[trigger] can_reach(
                    f,
                    old(self).monitors@,
                    x,
                    y,
                    i,
                ) ==> old(self).monitors@[i].area.can_locate(x, y),
            forall|m: &mut Monitor, i: int|
                #![trigger can_reach(f, old(self).monitors@, x, y, i), call_requires(f, (m,))]
                0 <= i < old(self).monitors@.len() && can_reach(
                    f,
                    old(self).monitors@,
                    x,
                    y,
                    i,
                ) && old(self).monitors@[i].area.covers(x, y) && *m == old(self).monitors@[i]
                    ==> call_requires(f, (m,)),
        ensures
            final(self).root == old(self).root,
            final(self).monitors@.len() == old(self).monitors@.len(),
            outcome.result is Err ==> exists|m: &mut Monitor, out: Outcome<E>| #[trigger]
                call_ensures(f, (m,), out) && out.result == outcome.result,
            exists|outs: Seq<Seq<Action>>|
                #![trigger outs.flatten()]
                {
                    &&& outs.len() <= old(self).monitors@.len()
                    &&& outcome.actions@ == outs.flatten()
                    &&& outcome.result is Ok ==> outs.len() == old(self).monitors@.len()
                    &&& outcome.result is Err ==> outs.len() > 0 && old(self).monitors@[outs.len()
                        - 1].area.covers(x, y)
                    &&& forall|i: int| #[trigger]
                        crate::workspace::in_range(i, old(self).monitors@.len()) && i < outs.len()
                            ==> if old(self).monitors@[i].area.covers(x, y) {
                            exists|m: &mut Monitor, out: Outcome<E>|
                                {
                                    &&& #[trigger] call_ensures(f, (m,), out)
                                    &&& *m == old(self).monitors@[i]
                                    &&& *final(m) == final(self).monitors@[i]
                                    &&& out.actions@ == outs[i]
                                    &&& out.result == if i + 1 == outs.len() {
                                        outcome.result
                                    } else {
                                        Ok(())
                                    }
                                }
                        } else {
                            &&& final(self).monitors@[i] == old(self).monitors@[i]
                            &&& outs[i] == Seq::<Action>::empty()
                        }
                    &&& forall|i: int|
                        outs.len() <= i < old(self).monitors@.len() ==> final(self).monitors@[i]
                            == old(self).monitors@[i]
                },
    {
        let mut actions: Vec<Action> = Vec::new();
        let ghost mut outs: Seq<Seq<Action>> = Seq::empty();
        let mut i: usize = 0;
        while i < self.monitors.len()
            invariant
                forall|i: int|
                    0 <= i < old(self).monitors@.len() && #[trigger] can_reach(
                        f,
                        old(self).monitors@,
                        x,
                        y,
                        i,
                    ) ==> old(self).monitors@[i].area.can_locate(x, y),
                forall|m: &mut Monitor, i: int|
                    #![trigger can_reach(f, old(self).monitors@, x, y, i), call_requires(f, (m,))]
                    0 <= i < old(self).monitors@.len() && can_reach(
                        f,
                        old(self).monitors@,
                        x,
                        y,
                        i,
                    ) && old(self).monitors@[i].area.covers(x, y) && *m == old(self).monitors@[i]
                        ==> call_requires(f, (m,)),
                self.root == old(self).root,
                self.monitors@.len() == old(self).monitors@.len(),
                i <= self.monitors@.len(),
                outs.len() == i,
                actions@ == outs.flatten(),
                forall|j: int|
                    i <= j < self.monitors@.len() ==> self.monitors@[j] == old(self).monitors@[j],
                forall|j: int| #[trigger]
                    crate::workspace::in_range(j, old(self).monitors@.len()) && j < i
                        ==> if old(self).monitors@[j].area.covers(x, y) {
                        exists|m: &mut Monitor, out: Outcome<E>|
                            {
                                &&& #[trigger] call_ensures(f, (m,), out)
                                &&& *m == old(self).monitors@[j]
                                &&& *final(m) == self.monitors@[j]
                                &&& out.actions@ == outs[j]
                                &&& out.result == Ok::<(), E>(())
                            }
                    } else {
                        &&& self.monitors@[j] == old(self).monitors@[j]
                        &&& outs[j] == Seq::<Action>::empty()
                    },
            decreases self.monitors@.len() - i,
        {
            assert(can_reach(f, old(self).monitors@, x, y, i as int)) by {
                assert forall|j: int|
                    0 <= j < i && (#[trigger] old(self).monitors@[j]).area.covers(
                        x,
                        y,
                    ) implies crate::action::can_pass(f, old(self).monitors@[j]) by {
                    assert(crate::workspace::in_range(j, old(self).monitors@.len()));
                }
            }
            let Outcome { actions: mut part, result } = if self.monitors[i].area.contains(x, y) {
                f(&mut self.monitors[i])
            } else {
                Outcome { actions: Vec::new(), result: Ok(()) }
            };
            proof {
                outs.lemma_flatten_push(part@);
                outs = outs.push(part@);
            }
            actions.append(&mut part);
            if let Err(error) = result {
                assert(crate::workspace::in_range(i as int, old(self).monitors@.len()));
                return Outcome { actions, result: Err(error) };
            }
            assert(result->Ok_0 == ());
            i = i + 1;
        }
        Outcome { actions, result: Ok(()) }
    }

    /// Runs `f` on every monitor, in their order, until it fails, and joins the
    /// actions that it asks for.
    pub fn all<E, F: Fn(&mut Monitor) -> Outcome<E>>(&mut self, f: F) -> (outcome: Outcome<E>)
        requires
            forall|m: &mut Monitor, i: int|
                #![trigger crate::action::can_pass_first(f, old(self).monitors@, i), call_requires(f, (m,))]
                0 <= i < old(self).monitors@.len() && crate::action::can_pass_first(
                    f,
                    old(self).monitors@,
                    i,
                ) && *m == old(self).monitors@[i] ==> call_requires(f, (m,)),
        ensures
            final(self).root == old(self).root,
            final(self).monitors@.len() == old(self).monitors@.len(),
            outcome.result is Err ==> exists|m: &mut Monitor, out: Outcome<E>| #[trigger]
                call_ensures(f, (m,), out) && out.result == outcome.result,
            exists|outs: Seq<Seq<Action>>|
                #![trigger outs.flatten()]
                {
                    &&& outs.len() <= old(self).monitors@.len()
                    &&& outcome.actions@ == outs.flatten()
                    &&& outcome.result is Ok ==> outs.len() == old(self).monitors@.len()
                    &&& outcome.result is Err ==> outs.len() > 0
                    &&& forall|i: int| #[trigger]
                        crate::workspace::in_range(i, old(self).monitors@.len()) && i < outs.len()
                            ==> exists|m: &mut Monitor, out: Outcome<E>|
                            {
                                &&& #[trigger] call_ensures(f, (m,), out)
                                &&& *m == old(self).monitors@[i]
                                &&& *final(m) == final(self).monitors@[i]
                                &&& out.actions@ == outs[i]
                                &&& out.result == if i + 1 == outs.len() {
                                    outcome.result
                                } else {
                                    Ok(())
                                }
                            }
                    &&& forall|i: int|
                        outs.len() <= i < old(self).monitors@.len() ==> final(self).monitors@[i]
                            == old(self).monitors@[i]
                },
    {
        let mut actions: Vec<Action> = Vec::new();
        let ghost mut outs: Seq<Seq<Action>> = Seq::empty();
        let mut i: usize = 0;
        while i < self.monitors.len()
            invariant
                forall|m: &mut Monitor, i: int|
                    #![trigger crate::action::can_pass_first(f, old(self).monitors@, i), call_requires(f, (m,))]
                    0 <= i < old(self).monitors@.len() && crate::action::can_pass_first(
                        f,
                        old(self).monitors@,
                        i,
                    ) && *m == old(self).monitors@[i] ==> call_requires(f, (m,)),
                self.root == old(self).root,
                self.monitors@.len() == old(self).monitors@.len(),
                i <= self.monitors@.len(),
                outs.len() == i,
                actions@ == outs.flatten(),
                forall|j: int|
                    i <= j < self.monitors@.len() ==> self.monitors@[j] == old(self).monitors@[j],
                forall|j: int| #[trigger]
                    crate::workspace::in_range(j, old(self).monitors@.len()) && j < i
                        ==> exists|m: &mut Monitor, out: Outcome<E>|
                        {
                            &&& #[trigger] call_ensures(f, (m,), out)
                            &&& *m == old(self).monitors@[j]
                            &&& *final(m) == self.monitors@[j]
                            &&& out.actions@ == outs[j]
                            &&& out.result == Ok::<(), E>(())
                        },
            decreases self.monitors@.len() - i,
        {
            assert(crate::action::can_pass_first(f, old(self).monitors@, i as int)) by {
                assert forall|j: int| 0 <= j < i implies crate::action::can_pass(
                    f,
                    #[trigger] old(self).monitors@[j],
                ) by {
                    assert(crate::workspace::in_range(j, old(self).monitors@.len()));
                }
            }
            let Outcome { actions: mut part, result } = f(&mut self.monitors[i]);
            proof {
                outs.lemma_flatten_push(part@);
                outs = outs.push(part@);
            }
            actions.append(&mut part);
            if let Err(error) = result {
                assert(crate::workspace::in_range(i as int, old(self).monitors@.len()));
                return Outcome { actions, result: Err(error) };
            }
            assert(result->Ok_0 == ());
            i = i + 1;
        }
        Outcome { actions, result: Ok(()) }
    }

    /// The indices of the monitors can be represented.
    pub(crate) proof fn is_bounded(&self)
        ensures
            self@.monitors.len() <= usize::MAX,
    {
        assert(self.monitors@.len() == self.monitors.len());
    }

    /// What holds of every monitor of the view holds of every monitor of the list.
    pub(crate) proof fn holds_of_each(&self, property: spec_fn(MonitorView) -> bool)
        requires
            forall|i: int| 0 <= i < self@.monitors.len() ==> property(#[trigger] self@.monitors[i]),
        ensures
            forall|m: Monitor| #[trigger] self.monitors@.contains(m) ==> property(m@),
    {
        assert forall|m: Monitor| #[trigger] self.monitors@.contains(m) implies property(m@) by {
            let i = choose|i: int| 0 <= i < self.monitors@.len() && self.monitors@[i] == m;
            assert(self@.monitors[i] == m@);
        }
    }

    /// The first monitor from index `from` on that contains the point.
    pub fn next_under(&self, x: u16, y: u16, from: usize) -> (index: Option<usize>)
        requires
            self@.can_scan(x, y, from as int),
        ensures
            match index {
                Some(i) => self@.under(x, y, from as int) == Some(i as int) && from <= i
                    < self@.monitors.len() && self@.monitors[i as int].area.covers(x, y),
                None => self@.under(x, y, from as int) is None,
            },
    {
        let mut i: usize = from;
        while i < self.monitors.len()
            invariant
                from <= i,
                self@.can_scan(x, y, i as int),
                self@.under(x, y, from as int) == self@.under(x, y, i as int),
            decreases self.monitors@.len() - i,
        {
            assert(self@.monitors[i as int].area == self.monitors[i as int].area);
            if self.monitors[i].area.contains(x, y) {
                return Some(i);
            }
            i = i + 1;
        }
        None
    }

    /// Whether `next_under` can be asked for.
    pub fn scans(&self, x: u16, y: u16, from: usize) -> (possible: bool)
        ensures
            possible == self@.can_scan(x, y, from as int),
    {
        let mut i: usize = from;
        while i < self.monitors.len()
            invariant
                self@.can_scan(x, y, from as int) == self@.can_scan(x, y, i as int),
            decreases self.monitors@.len() - i,
        {
            assert(self@.monitors[i as int].area == self.monitors[i as int].area);
            if !self.monitors[i].area.locates(x, y) {
                return false;
            }
            if self.monitors[i].area.contains(x, y) {
                return true;
            }
            i = i + 1;
        }
        true
    }

    /// The first monitor from index `from` on that shows the window.
    pub fn next_showing(&self, wid: u32, from: usize) -> (index: Option<usize>)
        requires
            self@.can_seek(wid, from as int),
        ensures
            match index {
                Some(i) => self@.showing(wid, from as int) == Some(i as int) && from <= i
                    < self@.monitors.len() && self@.monitors[i as int].workspace.find(wid) is Some,
                None => self@.showing(wid, from as int) is None,
            },
    {
        let mut i: usize = from;
        while i < self.monitors.len()
            invariant
                from <= i,
                self@.can_seek(wid, i as int),
                self@.showing(wid, from as int) == self@.showing(wid, i as int),
            decreases self.monitors@.len() - i,
        {
            assert(self@.monitors[i as int].workspace == self.monitors[i as int].workspace@);
            if self.monitors[i].workspace.find(wid).is_some() {
                return Some(i);
            }
            i = i + 1;
        }
        None
    }

    /// Whether `next_showing` can be asked for.
    pub fn seeks(&self, wid: u32, from: usize) -> (possible: bool)
        ensures
            possible == self@.can_seek(wid, from as int),
    {
        let mut i: usize = from;
        while i < self.monitors.len()
            invariant
                self@.can_seek(wid, from as int) == self@.can_seek(wid, i as int),
            decreases self.monitors@.len() - i,
        {
            assert(self@.monitors[i as int].workspace == self.monitors[i as int].workspace@);
            if !self.monitors[i].workspace.shows() {
                return false;
            }
            if self.monitors[i].workspace.find(wid).is_some() {
                return true;
            }
            i = i + 1;
        }
        true
    }

    /// Runs `f` as `focused` does, where `f` is known to make one change to a
    /// monitor and to report one list of actions for it.
    pub(crate) fn change_focused<F: Fn(&mut Monitor) -> Vec<Action>>(
        &mut self,
        x: u16,
        y: u16,
        f: F,
        Ghost(change): Ghost<spec_fn(MonitorView) -> MonitorView>,
        Ghost(report): Ghost<spec_fn(MonitorView) -> Seq<Action>>,
    ) -> (actions: Vec<Action>)
        requires
            old(self)@.can_locate(x, y),
            forall|m: &mut Monitor|
                m@.area.covers(x, y) && #[trigger] old(self).monitors@.contains(*m)
                    ==> call_requires(f, (m,)),
            forall|m: &mut Monitor, out: Vec<Action>| #[trigger]
                call_ensures(f, (m,), out) ==> final(m)@ == change(m@) && out@ == report(m@),
        ensures
            final(self)@ == old(self)@.change_focused(x, y, change),
            actions@ == old(self)@.actions_for_focused(x, y, report),
    {
        let list = Ghost(self.monitors@);
        let changes = Ghost(change);
        let reports = Ghost(report);
        let run = |m: &mut Monitor| -> (out: Outcome<()>)
            requires
                old(m)@.area.covers(x, y),
                list@.contains(*old(m)),
            ensures
                final(m)@ == changes@(old(m)@),
                out.actions@ == reports@(old(m)@),
                out.result is Ok,
            { Outcome { actions: f(m), result: Ok(()) } };
        assert forall|i: int| 0 <= i < self.monitors@.len() implies (
        #[trigger] self.monitors@[i]).area.can_locate(x, y) by {
            assert(self@.monitors[i].area.can_locate(x, y));
        }
        let outcome = self.focused(x, y, run);
        assert(outcome.result is Ok);
        proof {
            let step = |m: MonitorView|
                if m.area.covers(x, y) {
                    report(m)
                } else {
                    Seq::empty()
                };
            let expected = old(self)@.monitors.map_values(step);
            same_parts(expected);
            let after = old(self)@.change_focused(x, y, change).monitors;
            assert forall|i: int| 0 <= i < after.len() implies self@.monitors[i] == after[i] by {
                assert(crate::workspace::in_range(i, after.len()));
            }
            assert(self@.monitors =~= after);
        }
        outcome.actions
    }

    /// Runs `f` as `all` does, where `f` is known to make one change to a monitor
    /// and to report one list of actions for it.
    pub(crate) fn change_all<F: Fn(&mut Monitor) -> Vec<Action>>(
        &mut self,
        f: F,
        Ghost(change): Ghost<spec_fn(MonitorView) -> MonitorView>,
        Ghost(report): Ghost<spec_fn(MonitorView) -> Seq<Action>>,
    ) -> (actions: Vec<Action>)
        requires
            forall|m: &mut Monitor| #[trigger]
                old(self).monitors@.contains(*m) ==> call_requires(f, (m,)),
            forall|m: &mut Monitor, out: Vec<Action>| #[trigger]
                call_ensures(f, (m,), out) ==> final(m)@ == change(m@) && out@ == report(m@),
        ensures
            final(self)@ == old(self)@.change_all(change),
            actions@ == old(self)@.actions_for_all(report),
    {
        let list = Ghost(self.monitors@);
        let changes = Ghost(change);
        let reports = Ghost(report);
        let run = |m: &mut Monitor| -> (out: Outcome<()>)
            requires
                list@.contains(*old(m)),
            ensures
                final(m)@ == changes@(old(m)@),
                out.actions@ == reports@(old(m)@),
                out.result is Ok,
            { Outcome { actions: f(m), result: Ok(()) } };
        let outcome = self.all(run);
        assert(outcome.result is Ok);
        proof {
            let expected = old(self)@.monitors.map_values(report);
            same_parts(expected);
            let after = old(self)@.change_all(change).monitors;
            assert forall|i: int| 0 <= i < after.len() implies self@.monitors[i] == after[i] by {
                assert(crate::workspace::in_range(i, after.len()));
            }
            assert(self@.monitors =~= after);
        }
        outcome.actions
    }

    /// The first monitor from index `from` on that contains the point and on which
    /// the window floats.
    pub fn next_floating(&self, wid: u32, x: u16, y: u16, from: usize) -> (index: Option<usize>)
        requires
            self@.can_spot(wid, x, y, from as int),
        ensures
            match index {
                Some(i) => self@.floating(wid, x, y, from as int) == Some(i as int) && from <= i
                    < self@.monitors.len(),
                None => self@.floating(wid, x, y, from as int) is None,
            },
    {
        let mut i: usize = from;
        while i < self.monitors.len()
            invariant
                from <= i,
                self@.can_spot(wid, x, y, i as int),
                self@.floating(wid, x, y, from as int) == self@.floating(wid, x, y, i as int),
            decreases self.monitors@.len() - i,
        {
            assert(self@.monitors[i as int] == self.monitors[i as int]@);
            if self.monitors[i].area.contains(x, y) && self.monitors[i].workspace.is_float(wid) {
                return Some(i);
            }
            i = i + 1;
        }
        None
    }

    /// Whether `next_floating` can be asked for.
    pub fn spots(&self, wid: u32, x: u16, y: u16, from: usize) -> (possible: bool)
        ensures
            possible == self@.can_spot(wid, x, y, from as int),
    {
        let mut i: usize = from;
        while i < self.monitors.len()
            invariant
                self@.can_spot(wid, x, y, from as int) == self@.can_spot(wid, x, y, i as int),
            decreases self.monitors@.len() - i,
        {
            assert(self@.monitors[i as int] == self.monitors[i as int]@);
            if !self.monitors[i].area.locates(x, y) {
                return false;
            }
            if self.monitors[i].area.contains(x, y) {
                if !self.monitors[i].workspace.shows() {
                    return false;
                }
                if self.monitors[i].workspace.is_float(wid) {
                    return true;
                }
            }
            i = i + 1;
        }
        true
    }

    /// Whether every monitor can be asked whether it contains the point.
    pub fn locates(&self, x: u16, y: u16) -> (possible: bool)
        ensures
            possible == self@.can_locate(x, y),
    {
        let mut i: usize = 0;
        while i < self.monitors.len()
            invariant
                i <= self.monitors@.len(),
                forall|j: int|
                    0 <= j < i ==> (#[trigger] self@.monitors[j]).area.can_locate(x, y),
            decreases self.monitors@.len() - i,
        {
            if !self.monitors[i].area.locates(x, y) {
                assert(!self@.monitors[i as int].area.can_locate(x, y));
                return false;
            }
            i = i + 1;
        }
        true
    }

    /// Whether every monitor that contains the point shows a workspace.
    pub fn shows_at(&self, x: u16, y: u16) -> (shown: bool)
        requires
            self@.can_locate(x, y),
        ensures
            shown == self@.shown_at(x, y),
    {
        let mut i: usize = 0;
        while i < self.monitors.len()
            invariant
                i <= self.monitors@.len(),
                self@.can_locate(x, y),
                forall|j: int|
                    0 <= j < i && (#[trigger] self@.monitors[j]).area.covers(x, y)
                        ==> self@.monitors[j].workspace.has_current(),
            decreases self.monitors@.len() - i,
        {
            assert(self@.monitors[i as int].area.can_locate(x, y));
            if self.monitors[i].area.contains(x, y) && !self.monitors[i].workspace.shows() {
                return false;
            }
            i = i + 1;
        }
        true
    }

    /// Whether the clients of every monitor can be laid out.
    pub fn tiles(&self, config: Config) -> (possible: bool)
        ensures
            possible == self@.can_tile(config),
    {
        let mut i: usize = 0;
        while i < self.monitors.len()
            invariant
                i <= self.monitors@.len(),
                forall|j: int| 0 <= j < i ==> (#[trigger] self@.monitors[j]).can_tile(config),
            decreases self.monitors@.len() - i,
        {
            if !self.monitors[i].tiles(config) {
                assert(!self@.monitors[i as int].can_tile(config));
                return false;
            }
            i = i + 1;
        }
        true
    }

    /// A copy of the monitors and all they hold.
    pub fn duplicate(&self) -> (copy: Monitors)
        ensures
            copy@ == self@,
    {
        let mut copy = Monitors::new(self.root);
        let mut i: usize = 0;
        while i < self.monitors.len()
            invariant
                i <= self.monitors@.len(),
                copy.root == self.root,
                copy@.monitors == self@.monitors.take(i as int),
            decreases self.monitors@.len() - i,
        {
            let monitor = &self.monitors[i];
            copy.append(Monitor { area: monitor.area, workspace: monitor.workspace.duplicate() });
            assert(copy@.monitors =~= self@.monitors.take(i + 1));
            i = i + 1;
        }
        assert(copy@.monitors =~= self@.monitors);
        copy
    }
}

} // verus!
