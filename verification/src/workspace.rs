//! Clients and the workspaces that hold them.

use vstd::prelude::*;

use crate::action::{Action, Outcome};
use crate::area::Area;
use crate::config::Borders;

verus! {

/// A managed window.
#[derive(Debug, Clone, Copy, PartialEq, Eq, Structural)]
pub struct Client {
    /// The id of the window.
    pub window: u32,
    /// Whether the window floats; if not, it is tiled.
    pub float: bool,
}

impl Client {
    pub fn new(window: u32, float: bool) -> (client: Client)
        ensures
            client == (Client { window, float }),
    {
        Client { window, float }
    }
}

/// `i` is the first place at which the window occurs.
pub open spec fn first_at(clients: Seq<Client>, wid: u32, i: int) -> bool {
    &&& 0 <= i < clients.len()
    &&& clients[i].window == wid
    &&& forall|j: int| 0 <= j < i ==> clients[j].window != wid
}

/// The first place at which the window occurs, if it does.
pub open spec fn position(clients: Seq<Client>, wid: u32) -> Option<int> {
    if exists|i: int| first_at(clients, wid, i) {
        Some(choose|i: int| first_at(clients, wid, i))
    } else {
        None
    }
}

/// The number of tiled clients among the first `n`.
pub open spec fn tiled_before(clients: Seq<Client>, n: int) -> nat
    decreases n,
{
    if n <= 0 {
        0
    } else if clients[n - 1].float {
        tiled_before(clients, n - 1)
    } else {
        tiled_before(clients, n - 1) + 1
    }
}

/// The number of tiled clients.
pub open spec fn tiled(clients: Seq<Client>) -> nat {
    tiled_before(clients, clients.len() as int)
}

/// Where tiled client `i` of a workspace is placed: the tiled clients share the
/// area in their order.
pub open spec fn placed(clients: Seq<Client>, i: int, area: Area, gaps: u16) -> Area {
    area.slot(tiled(clients), tiled_before(clients, i)).shrunk(gaps)
}

/// What is done for client `i` of the workspace that is shown: a tiled client
/// is placed, and every client is mapped.
pub open spec fn client_actions(clients: Seq<Client>, i: int, area: Area, gaps: u16) -> Seq<
    Action,
> {
    let window = clients[i].window;
    if clients[i].float {
        seq![Action::MapWindow { window }]
    } else {
        seq![
            Action::MovResize { window, area: placed(clients, i, area, gaps) },
            Action::MapWindow { window },
        ]
    }
}

/// What is done for the workspace that is shown.
pub open spec fn shown_actions(clients: Seq<Client>, area: Area, gaps: u16) -> Seq<Action> {
    Seq::new(clients.len(), |i: int| client_actions(clients, i, area, gaps)).flatten()
}

/// What is done for a workspace that is not shown: every client is unmapped.
pub open spec fn hidden_actions(clients: Seq<Client>) -> Seq<Action> {
    clients.map_values(|client: Client| Action::UnmapWindow { window: client.window })
}

/// The focus goes to the client at an index, if there is one.
pub open spec fn focus_actions(clients: Seq<Client>, index: int) -> Seq<Action> {
    if 0 <= index < clients.len() {
        seq![Action::SetInputFocus { window: clients[index].window }]
    } else {
        Seq::empty()
    }
}

/// What is done to give a client the border of a window without focus.
pub open spec fn plain_border(client: Client, borders: Borders) -> Seq<Action> {
    seq![
        Action::SetBorderWidth { window: client.window, width: borders.width },
        Action::SetBorderPixel { window: client.window, pixel: borders.normal },
    ]
}

/// `i` indexes a sequence of length `n`.
pub open spec fn in_range(i: int, n: nat) -> bool {
    0 <= i < n
}

/// The workspaces of a monitor, each with its clients in their order, and the
/// index of the one that is shown.
#[verifier::ext_equal]
pub struct WorkspacesView {
    pub workspaces: Seq<Seq<Client>>,
    pub current: int,
}

impl WorkspacesView {
    /// There is a workspace at the current index.
    pub open spec fn has_current(self) -> bool {
        0 <= self.current < self.workspaces.len()
    }

    /// The clients of the workspace that is shown.
    pub open spec fn shown(self) -> Seq<Client> {
        self.workspaces[self.current]
    }

    /// The same workspaces, with other clients in the one that is shown.
    pub open spec fn with_shown(self, clients: Seq<Client>) -> WorkspacesView {
        WorkspacesView { workspaces: self.workspaces.update(self.current, clients), ..self }
    }

    /// The place of a window in the workspace that is shown.
    pub open spec fn find(self, wid: u32) -> Option<int> {
        position(self.shown(), wid)
    }

    /// The window is in the workspace that is shown, and floats.
    pub open spec fn floats(self, wid: u32) -> bool {
        self.find(wid) matches Some(i) && self.shown()[i].float
    }

    /// With a client added at the end of the workspace that is shown.
    pub open spec fn inserted(self, client: Client) -> WorkspacesView {
        self.with_shown(self.shown().push(client))
    }

    /// Without the client at an index of the workspace that is shown.
    pub open spec fn removed(self, index: int) -> WorkspacesView {
        self.with_shown(self.shown().remove(index))
    }

    /// With another number of workspaces. New ones are empty. When their number
    /// shrinks to one that is not zero, all of them are dropped with their
    /// clients; a shrink to zero changes nothing.
    pub open spec fn resized(self, size: nat) -> WorkspacesView {
        let workspaces = if size >= self.workspaces.len() {
            self.workspaces + Seq::new(
                (size - self.workspaces.len()) as nat,
                |i: int| Seq::<Client>::empty(),
            )
        } else if size > 0 {
            Seq::empty()
        } else {
            self.workspaces
        };
        WorkspacesView { workspaces, ..self }
    }

    /// What is done for workspace `w` when the clients are laid out.
    pub open spec fn workspace_actions(self, w: int, area: Area, gaps: u16) -> Seq<Action> {
        if w == self.current {
            shown_actions(self.workspaces[w], area, gaps)
        } else {
            hidden_actions(self.workspaces[w])
        }
    }

    /// What is done to lay out the clients: those of the workspace that is shown
    /// are placed and mapped, all others are unmapped.
    pub open spec fn tile_actions(self, area: Area, gaps: u16) -> Seq<Action> {
        Seq::new(
            self.workspaces.len(),
            |w: int| self.workspace_actions(w, area, gaps),
        ).flatten()
    }

    /// All clients, workspace by workspace.
    pub open spec fn clients(self) -> Seq<Client> {
        self.workspaces.flatten()
    }

    /// What is done to give all clients the border of a window without focus.
    pub open spec fn border_actions(self, borders: Borders) -> Seq<Action> {
        self.clients().map_values(|client: Client| plain_border(client, borders)).flatten()
    }

    /// With a change made to the client of a window in the workspace that is
    /// shown, if there is one.
    pub open spec fn change_client(self, wid: u32, change: spec_fn(Client) -> Client) -> WorkspacesView {
        match self.find(wid) {
            Some(i) => self.with_shown(self.shown().update(i, change(self.shown()[i]))),
            None => self,
        }
    }

    /// What is done for the client of a window in the workspace that is shown,
    /// if there is one.
    pub open spec fn actions_for_client(
        self,
        wid: u32,
        report: spec_fn(Client) -> Seq<Action>,
    ) -> Seq<Action> {
        match self.find(wid) {
            Some(i) => report(self.shown()[i]),
            None => Seq::empty(),
        }
    }

    /// The workspaces with the one of a number shown, counted from one. Zero
    /// stands for one; for a number beyond the last workspace nothing changes.
    pub open spec fn selected(self, number: u32) -> WorkspacesView {
        let index = if number == 0 {
            0
        } else {
            number - 1
        };
        if index < self.workspaces.len() as u32 {
            WorkspacesView { current: index, ..self }
        } else {
            self
        }
    }

    /// The tiled clients of the workspace that is shown can share the area.
    pub open spec fn can_tile(self, area: Area, gaps: u16) -> bool {
        self.has_current() ==> area.can_share(tiled(self.shown()), gaps)
    }
}

/// No visit of a client before client `i` of workspace `w` is sure to fail.
pub open spec fn can_pass_until<E, F: Fn(&mut Client) -> Outcome<E>>(
    f: F,
    workspaces: Seq<Seq<Client>>,
    w: int,
    i: int,
) -> bool {
    &&& forall|v: int|
        0 <= v < w ==> crate::action::can_pass_first(
            f,
            #[trigger] workspaces[v],
            workspaces[v].len() as int,
        )
    &&& crate::action::can_pass_first(f, workspaces[w], i)
}

/// The workspaces of one monitor.
pub struct Workspaces {
    pub workspaces: Vec<Vec<Client>>,
    /// The index of the workspace that is shown.
    pub current: usize,
}

impl View for Workspaces {
    type V = WorkspacesView;

    open spec fn view(&self) -> WorkspacesView {
        WorkspacesView {
            workspaces: self.workspaces@.map_values(|clients: Vec<Client>| clients@),
            current: self.current as int,
        }
    }
}

impl Workspaces {
    /// No workspaces; the first one to come will be shown.
    pub fn new() -> (result: Workspaces)
        ensures
            result@ == (WorkspacesView { workspaces: Seq::empty(), current: 0 }),
    {
        let result = Workspaces { workspaces: Vec::new(), current: 0 };
        assert(result@.workspaces =~= Seq::empty());
        result
    }

    /// Grows to `size` workspaces by adding empty ones. A smaller `size` other
    /// than zero drops every workspace; zero is ignored.
    pub fn resize(&mut self, size: usize)
        ensures
            final(self)@ == old(self)@.resized(size as nat),
    {
        if size >= self.len() {
            while self.workspaces.len() < size
                invariant
                    self.current == old(self).current,
                    old(self)@.workspaces.len() <= self.workspaces@.len() <= size,
                    self@.workspaces == old(self)@.resized(self.workspaces@.len()).workspaces,
                decreases size - self.workspaces@.len(),
            {
                let ghost before = self@.workspaces;
                self.workspaces.push(Vec::new());
                assert(self@.workspaces =~= before.push(Seq::<Client>::empty()));
                assert(self@.workspaces =~= old(self)@.resized(self.workspaces@.len()).workspaces);
            }
        } else if size > 0 {
            self.workspaces.clear();
        }
        assert(self@ =~= old(self)@.resized(size as nat));
    }

    /// The number of workspaces.
    pub fn len(&self) -> (len: usize)
        ensures
            len == self@.workspaces.len(),
    {
        self.workspaces.len()
    }

    /// Adds a client to the workspace that is shown.
    pub fn insert(&mut self, client: Client)
        requires
            old(self)@.has_current(),
        ensures
            final(self)@ == old(self)@.inserted(client),
    {
        self.workspaces[self.current].push(client);
        assert(self@ =~= old(self)@.inserted(client));
    }

    /// Takes a client out of the workspace that is shown.
    pub fn remove(&mut self, index: usize)
        requires
            old(self)@.has_current(),
            index < old(self)@.shown().len(),
        ensures
            final(self)@ == old(self)@.removed(index as int),
    {
        self.workspaces[self.current].remove(index);
        assert(self@ =~= old(self)@.removed(index as int));
    }

    /// The first place of a window in the workspace that is shown.
    pub fn find(&self, wid: u32) -> (index: Option<usize>)
        requires
            self@.has_current(),
        ensures
            match index {
                Some(i) => self@.find(wid) == Some(i as int) && first_at(
                    self@.shown(),
                    wid,
                    i as int,
                ),
                None => self@.find(wid) is None && forall|i: int|
                    0 <= i < self@.shown().len() ==> self@.shown()[i].window != wid,
            },
    {
        let clients = &self.workspaces[self.current];
        let mut i: usize = 0;
        while i < clients.len()
            invariant
                clients@ == self@.shown(),
                i <= clients@.len(),
                forall|j: int| 0 <= j < i ==> clients@[j].window != wid,
            decreases clients@.len() - i,
        {
            if clients[i].window == wid {
                assert(first_at(self@.shown(), wid, i as int));
                return Some(i);
            }
            i = i + 1;
        }
        None
    }

    /// Whether the window is in the workspace that is shown, and floats.
    pub fn is_float(&self, wid: u32) -> (float: bool)
        requires
            self@.has_current(),
        ensures
            float == self@.floats(wid),
    {
        match self.find(wid) {
            Some(index) => self.workspaces[self.current][index].float,
            None => false,
        }
    }

    /// Moves the focus from a window of the workspace that is shown to the
    /// client at the index that `f` makes of the window's own; nothing happens
    /// if the window is not there, or if there is no client at that index.
    pub fn change_focus<F: Fn(usize) -> usize>(&self, wid: u32, f: F) -> (actions: Vec<Action>)
        requires
            self@.has_current(),
            self@.find(wid) matches Some(i) ==> call_requires(f, (i as usize,)),
        ensures
            match self@.find(wid) {
                Some(i) => exists|target: usize| #[trigger]
                    call_ensures(f, (i as usize,), target) && actions@ == focus_actions(
                        self@.shown(),
                        target as int,
                    ),
                None => actions@ == Seq::<Action>::empty(),
            },
    {
        let mut actions: Vec<Action> = Vec::new();
        if let Some(index) = self.find(wid) {
            let target = f(index);
            let clients = &self.workspaces[self.current];
            if target < clients.len() {
                actions.push(Action::SetInputFocus { window: clients[target].window });
            }
            assert(actions@ =~= focus_actions(self@.shown(), target as int));
        }
        actions
    }

    /// Runs `f` on the clients of one workspace in their order until it fails, and
    /// joins the actions that it asks for.
    fn map_workspace<E, F: Fn(&mut Client) -> Outcome<E>>(clients: &mut Vec<Client>, f: &F) -> (result:
        (Outcome<E>, Ghost<Seq<Seq<Action>>>))
        requires
            forall|m: &mut Client, i: int|
                #![trigger crate::action::can_pass_first(*f, old(clients)@, i), call_requires(*f, (m,))]
                0 <= i < old(clients)@.len() && crate::action::can_pass_first(
                    *f,
                    old(clients)@,
                    i,
                ) && *m == old(clients)@[i] ==> call_requires(*f, (m,)),
        ensures
            final(clients)@.len() == old(clients)@.len(),
            result.1@.len() <= old(clients)@.len(),
            result.0.actions@ == result.1@.flatten(),
            result.0.result is Ok ==> result.1@.len() == old(clients)@.len(),
            result.0.result is Err ==> result.1@.len() > 0 && exists|
                m: &mut Client,
                out: Outcome<E>,
            | #[trigger]
                call_ensures(*f, (m,), out) && out.result == result.0.result,
            forall|i: int| #[trigger]
                in_range(i, old(clients)@.len()) && i < result.1@.len() ==> exists|
                    m: &mut Client,
                    out: Outcome<E>,
                |
                    {
                        &&& #[trigger] call_ensures(*f, (m,), out)
                        &&& *m == old(clients)@[i]
                        &&& *final(m) == final(clients)@[i]
                        &&& out.actions@ == result.1@[i]
                        &&& out.result == if i + 1 == result.1@.len() {
                            result.0.result
                        } else {
                            Ok(())
                        }
                    },
            forall|i: int|
                result.1@.len() <= i < old(clients)@.len() ==> final(clients)@[i] == old(
                    clients,
                )@[i],
    {
        let mut actions: Vec<Action> = Vec::new();
        let ghost mut outs: Seq<Seq<Action>> = Seq::empty();
        let mut i: usize = 0;
        while i < clients.len()
            invariant
                forall|m: &mut Client, i: int|
                    #![trigger crate::action::can_pass_first(*f, old(clients)@, i), call_requires(*f, (m,))]
                    0 <= i < old(clients)@.len() && crate::action::can_pass_first(
                        *f,
                        old(clients)@,
                        i,
                    ) && *m == old(clients)@[i] ==> call_requires(*f, (m,)),
                clients@.len() == old(clients)@.len(),
                i <= clients@.len(),
                outs.len() == i,
                actions@ == outs.flatten(),
                forall|j: int| i <= j < clients@.len() ==> clients@[j] == old(clients)@[j],
                forall|j: int| #[trigger]
                    in_range(j, old(clients)@.len()) && j < i ==> exists|
                        m: &mut Client,
                        out: Outcome<E>,
                    |
                        {
                            &&& #[trigger] call_ensures(*f, (m,), out)
                            &&& *m == old(clients)@[j]
                            &&& *final(m) == clients@[j]
                            &&& out.actions@ == outs[j]
                            &&& out.result == Ok::<(), E>(())
                        },
            decreases clients.len() - i,
        {
            assert(crate::action::can_pass_first(*f, old(clients)@, i as int)) by {
                assert forall|j: int| 0 <= j < i implies crate::action::can_pass(
                    *f,
                    #[trigger] old(clients)@[j],
                ) by {
                    assert(in_range(j, old(clients)@.len()));
                }
            }
            let Outcome { actions: mut part, result } = f(&mut clients[i]);
            proof {
                outs.lemma_flatten_push(part@);
                outs = outs.push(part@);
            }
            actions.append(&mut part);
            if let Err(error) = result {
                assert(in_range(i as int, old(clients)@.len()));
                return (Outcome { actions, result: Err(error) }, Ghost(outs));
            }
            assert(result->Ok_0 == ());
            i = i + 1;
        }
        (Outcome { actions, result: Ok(()) }, Ghost(outs))
    }

    /// Runs `f` on every client, workspace by workspace, until it fails, and joins
    /// the actions that it asks for in that order.
    pub fn map_clients<E, F: Fn(&mut Client) -> Outcome<E>>(&mut self, f: F) -> (outcome: Outcome<E>)
        requires
            forall|m: &mut Client, w: int, i: int|
                #![trigger can_pass_until(f, old(self)@.workspaces, w, i), call_requires(f, (m,))]
                0 <= w < old(self)@.workspaces.len() && 0 <= i < old(self)@.workspaces[w].len()
                    && can_pass_until(f, old(self)@.workspaces, w, i) && *m == old(
                    self,
                )@.workspaces[w][i] ==> call_requires(f, (m,)),
        ensures
            final(self)@.current == old(self)@.current,
            final(self)@.workspaces.len() == old(self)@.workspaces.len(),
            outcome.result is Err ==> exists|m: &mut Client, out: Outcome<E>| #[trigger]
                call_ensures(f, (m,), out) && out.result == outcome.result,
            exists|outs: Seq<Seq<Seq<Action>>>|
                #![trigger outs.flatten()]
                {
                    &&& outs.len() <= old(self)@.workspaces.len()
                    &&& outcome.actions@ == outs.flatten().flatten()
                    &&& outcome.result is Ok ==> outs.len() == old(self)@.workspaces.len()
                    &&& outcome.result is Err ==> outs.len() > 0 && outs.last().len() > 0
                    &&& forall|w: int| #[trigger]
                        in_range(w, old(self)@.workspaces.len()) && w < outs.len() ==> {
                            &&& outs[w].len() <= old(self)@.workspaces[w].len()
                            &&& w + 1 < outs.len() || outcome.result is Ok ==> outs[w].len() == old(
                                self,
                            )@.workspaces[w].len()
                            &&& final(self)@.workspaces[w].len() == old(self)@.workspaces[w].len()
                            &&& forall|i: int| #[trigger]
                                in_range(i, old(self)@.workspaces[w].len()) && i < outs[w].len()
                                    ==> exists|
                                    m: &mut Client,
                                    out: Outcome<E>,
                                |
                                    {
                                        &&& #[trigger] call_ensures(f, (m,), out)
                                        &&& *m == old(self)@.workspaces[w][i]
                                        &&& *final(m) == final(self)@.workspaces[w][i]
                                        &&& out.actions@ == outs[w][i]
                                        &&& out.result == if w + 1 == outs.len() && i + 1
                                            == outs[w].len() {
                                            outcome.result
                                        } else {
                                            Ok(())
                                        }
                                    }
                            &&& forall|i: int|
                                outs[w].len() <= i < old(self)@.workspaces[w].len()
                                    ==> final(self)@.workspaces[w][i] == old(self)@.workspaces[w][i]
                        }
                    &&& forall|w: int|
                        outs.len() <= w < old(self)@.workspaces.len() ==> final(self)@.workspaces[w]
                            == old(self)@.workspaces[w]
                },
    {
        let mut actions: Vec<Action> = Vec::new();
        let ghost mut outs: Seq<Seq<Seq<Action>>> = Seq::empty();
        let mut w: usize = 0;
        while w < self.workspaces.len()
            invariant
                forall|m: &mut Client, w: int, i: int|
                    #![trigger can_pass_until(f, old(self)@.workspaces, w, i), call_requires(f, (m,))]
                    0 <= w < old(self)@.workspaces.len() && 0 <= i < old(self)@.workspaces[w].len()
                        && can_pass_until(f, old(self)@.workspaces, w, i) && *m == old(
                        self,
                    )@.workspaces[w][i] ==> call_requires(f, (m,)),
                self.current == old(self).current,
                self.workspaces@.len() == old(self).workspaces@.len(),
                w <= self.workspaces@.len(),
                outs.len() == w,
                actions@ == outs.flatten().flatten(),
                forall|v: int|
                    w <= v < self.workspaces@.len() ==> self.workspaces@[v] == old(
                        self,
                    ).workspaces@[v],
                forall|v: int| #[trigger]
                    in_range(v, old(self)@.workspaces.len()) && v < w ==> {
                        &&& outs[v].len() == old(self)@.workspaces[v].len()
                        &&& self@.workspaces[v].len() == old(self)@.workspaces[v].len()
                        &&& forall|i: int| #[trigger]
                            in_range(i, old(self)@.workspaces[v].len()) ==> exists|
                                m: &mut Client,
                                out: Outcome<E>,
                            |
                                {
                                    &&& #[trigger] call_ensures(f, (m,), out)
                                    &&& *m == old(self)@.workspaces[v][i]
                                    &&& *final(m) == self@.workspaces[v][i]
                                    &&& out.actions@ == outs[v][i]
                                    &&& out.result == Ok::<(), E>(())
                                }
                    },
            decreases self.workspaces.len() - w,
        {
            let ghost before = self@.workspaces;
            assert(before[w as int] == old(self)@.workspaces[w as int]);
            proof {
                let all = old(self)@.workspaces;
                assert forall|v: int| 0 <= v < w implies crate::action::can_pass_first(
                    f,
                    #[trigger] all[v],
                    all[v].len() as int,
                ) by {
                    assert(in_range(v, all.len()));
                    assert forall|j: int| 0 <= j < all[v].len() implies crate::action::can_pass(
                        f,
                        #[trigger] all[v][j],
                    ) by {
                        assert(in_range(j, all[v].len()));
                    }
                }
                assert forall|i: int| #[trigger]
                    crate::action::can_pass_first(f, all[w as int], i) implies can_pass_until(
                    f,
                    all,
                    w as int,
                    i,
                ) by {}
            }
            let (out, Ghost(parts)) = Self::map_workspace(&mut self.workspaces[w], &f);
            let Outcome { actions: mut joined, result } = out;
            proof {
                outs.lemma_flatten_push(parts);
                vstd::seq_lib::lemma_flatten_concat(outs.flatten(), parts);
                outs = outs.push(parts);
            }
            actions.append(&mut joined);
            if let Err(error) = result {
                return Outcome { actions, result: Err(error) };
            }
            assert(result->Ok_0 == ());
            w = w + 1;
        }
        Outcome { actions, result: Ok(()) }
    }

    /// Gives all clients the border of a window without focus.
    pub fn paint_borders(&mut self, borders: Borders) -> (actions: Vec<Action>)
        ensures
            final(self)@ == old(self)@,
            actions@ == old(self)@.border_actions(borders),
    {
        let ghost report = |client: Client| plain_border(client, borders);
        let paint = |client: &mut Client| -> (out: Outcome<()>)
            ensures
                *final(client) == *old(client),
                out.actions@ == plain_border(*old(client), borders),
                out.result is Ok,
            {
                let actions = vec![
                    Action::SetBorderWidth { window: client.window, width: borders.width },
                    Action::SetBorderPixel { window: client.window, pixel: borders.normal },
                ];
                Outcome { actions, result: Ok(()) }
            };
        let outcome = self.map_clients(paint);
        assert(outcome.result is Ok);
        proof {
            let all = old(self)@.workspaces;
            flatten_commutes_with_map(all, report);
            let expected = all.map_values(|clients: Seq<Client>| clients.map_values(report));
            assert forall|outs: Seq<Seq<Seq<Action>>>|
                #![trigger outs.flatten()]
                outs.len() == all.len() && (forall|w: int| #[trigger]
                    in_range(w, outs.len()) ==> outs[w].len() == all[w].len() && forall|i: int|
                     #[trigger]
                        in_range(i, outs[w].len()) ==> outs[w][i] == report(
                            all[w][i],
                        )) implies outs == expected by {
                assert forall|w: int| 0 <= w < outs.len() implies outs[w] == expected[w] by {
                    assert(in_range(w, outs.len()));
                    assert forall|i: int| 0 <= i < outs[w].len() implies outs[w][i]
                        == expected[w][i] by {
                        assert(in_range(i, outs[w].len()));
                    }
                    assert(outs[w] =~= expected[w]);
                }
                assert(outs =~= expected);
            }
            assert forall|w: int| 0 <= w < all.len() implies self@.workspaces[w] == all[w] by {
                assert(in_range(w, all.len()));
                assert forall|i: int| 0 <= i < all[w].len() implies self@.workspaces[w][i]
                    == all[w][i] by {
                    assert(in_range(i, all[w].len()));
                }
                assert(self@.workspaces[w] =~= all[w]);
            }
            assert(self@.workspaces =~= all);
        }
        outcome.actions
    }

    /// The indices of the workspace that is shown can be represented.
    pub proof fn shown_is_bounded(&self)
        requires
            self@.has_current(),
        ensures
            self@.shown().len() <= usize::MAX,
    {
        let clients = self.workspaces@[self.current as int];
        assert(clients@.len() == clients.len());
    }

    /// The number of tiled clients.
    fn count_tiled(clients: &Vec<Client>) -> (count: usize)
        ensures
            count == tiled(clients@),
    {
        let mut count: usize = 0;
        let mut i: usize = 0;
        while i < clients.len()
            invariant
                i <= clients@.len(),
                count == tiled_before(clients@, i as int),
                count <= i,
            decreases clients@.len() - i,
        {
            if !clients[i].float {
                count = count + 1;
            }
            i = i + 1;
        }
        count
    }

    /// Places the tiled clients of the workspace that is shown, and maps all.
    fn tile_shown(clients: &Vec<Client>, area: Area, gaps: u16) -> (actions: Vec<Action>)
        requires
            area.can_share(tiled(clients@), gaps),
        ensures
            actions@ == shown_actions(clients@, area, gaps),
    {
        let count = Self::count_tiled(clients);
        let ghost step = |i: int| client_actions(clients@, i, area, gaps);
        let mut actions: Vec<Action> = Vec::new();
        let mut left = area;
        let mut placed_count: usize = 0;
        let mut i: usize = 0;
        assert(Seq::new(0, step) =~= Seq::empty());
        while i < clients.len()
            invariant
                i <= clients@.len(),
                count == tiled(clients@),
                placed_count == tiled_before(clients@, i as int),
                area.can_share(count as nat, gaps),
                placed_count < count ==> left == area.rest(placed_count as nat),
                forall|j: int| #[trigger] step(j) == client_actions(clients@, j, area, gaps),
                actions@ == Seq::new(i as nat, step).flatten(),
            decreases clients@.len() - i,
        {
            let client = clients[i];
            proof {
                Seq::new(i as nat, step).lemma_flatten_push(step(i as int));
                assert(Seq::new((i + 1) as nat, step) =~= Seq::new(i as nat, step).push(
                    step(i as int),
                ));
                tiled_is_monotonic(clients@, i + 1, clients@.len() as int);
            }
            if !client.float {
                assert(area.can_place(count as nat, placed_count as nat, gaps));
                let place = if placed_count + 1 < count {
                    left.split()
                } else {
                    left
                };
                actions.push(
                    Action::MovResize { window: client.window, area: place.shrink(gaps) },
                );
                placed_count = placed_count + 1;
            }
            actions.push(Action::MapWindow { window: client.window });
            i = i + 1;
        }
        assert(Seq::new(i as nat, step) =~= Seq::new(
            clients@.len(),
            |i: int| client_actions(clients@, i, area, gaps),
        ));
        actions
    }

    /// Unmaps the clients of a workspace that is not shown.
    fn unmap_all(clients: &Vec<Client>) -> (actions: Vec<Action>)
        ensures
            actions@ == hidden_actions(clients@),
    {
        let mut actions: Vec<Action> = Vec::new();
        let mut i: usize = 0;
        while i < clients.len()
            invariant
                i <= clients@.len(),
                actions@ == hidden_actions(clients@).take(i as int),
            decreases clients@.len() - i,
        {
            actions.push(Action::UnmapWindow { window: clients[i].window });
            i = i + 1;
        }
        actions
    }

    /// Lays out the clients: those of the workspace that is shown are mapped, and
    /// the tiled ones among them share the area; all others are unmapped.
    pub fn tile(&self, area: Area, gaps: u16) -> (actions: Vec<Action>)
        requires
            self@.can_tile(area, gaps),
        ensures
            actions@ == self@.tile_actions(area, gaps),
    {
        let ghost step = |w: int| self@.workspace_actions(w, area, gaps);
        let mut actions: Vec<Action> = Vec::new();
        let mut w: usize = 0;
        assert(Seq::new(0, step) =~= Seq::empty());
        while w < self.workspaces.len()
            invariant
                self@.can_tile(area, gaps),
                w <= self.workspaces@.len(),
                forall|v: int| #[trigger] step(v) == self@.workspace_actions(v, area, gaps),
                actions@ == Seq::new(w as nat, step).flatten(),
            decreases self.workspaces@.len() - w,
        {
            proof {
                Seq::new(w as nat, step).lemma_flatten_push(step(w as int));
                assert(Seq::new((w + 1) as nat, step) =~= Seq::new(w as nat, step).push(
                    step(w as int),
                ));
            }
            let mut out = if w == self.current {
                Self::tile_shown(&self.workspaces[w], area, gaps)
            } else {
                Self::unmap_all(&self.workspaces[w])
            };
            actions.append(&mut out);
            w = w + 1;
        }
        assert(Seq::new(w as nat, step) =~= Seq::new(
            self@.workspaces.len(),
            |w: int| self@.workspace_actions(w, area, gaps),
        ));
        actions
    }

    /// Whether `tile` can be asked for.
    pub fn tiles(&self, area: Area, gaps: u16) -> (possible: bool)
        ensures
            possible == self@.can_tile(area, gaps),
    {
        if self.current < self.workspaces.len() {
            area.shares(Self::count_tiled(&self.workspaces[self.current]), gaps)
        } else {
            true
        }
    }

    /// Shows the workspace of a number, counted from one. Zero stands for one; a
    /// number beyond the last workspace is ignored.
    pub fn select(&mut self, number: u32)
        ensures
            final(self)@ == old(self)@.selected(number),
    {
        let index: u32 = if number == 0 {
            0
        } else {
            number - 1
        };
        let len: u32 = #[verifier::truncate] (self.len() as u32);
        if index < len {
            self.current = index as usize;
        }
        assert(self@ =~= old(self)@.selected(number));
    }

    /// Whether there is a workspace at the current index.
    pub fn shows(&self) -> (shown: bool)
        ensures
            shown == self@.has_current(),
    {
        self.current < self.workspaces.len()
    }

    /// A copy of the workspaces and their clients.
    pub fn duplicate(&self) -> (copy: Workspaces)
        ensures
            copy@ == self@,
    {
        let mut workspaces: Vec<Vec<Client>> = Vec::new();
        let mut w: usize = 0;
        while w < self.workspaces.len()
            invariant
                w <= self.workspaces@.len(),
                workspaces@.len() == w,
                forall|v: int| 0 <= v < w ==> (#[trigger] workspaces@[v])@ == self.workspaces@[v]@,
            decreases self.workspaces@.len() - w,
        {
            let clients = &self.workspaces[w];
            let mut copied: Vec<Client> = Vec::new();
            let mut i: usize = 0;
            while i < clients.len()
                invariant
                    i <= clients@.len(),
                    copied@ == clients@.take(i as int),
                decreases clients@.len() - i,
            {
                copied.push(clients[i]);
                i = i + 1;
            }
            assert(copied@ =~= clients@);
            workspaces.push(copied);
            w = w + 1;
        }
        let copy = Workspaces { workspaces, current: self.current };
        assert(copy@.workspaces =~= self@.workspaces);
        copy
    }
}

/// A place that is found is the first place of the window; where none is found
/// the window does not occur.
pub proof fn position_is_first(clients: Seq<Client>, wid: u32)
    ensures
        match position(clients, wid) {
            Some(i) => first_at(clients, wid, i),
            None => forall|i: int| 0 <= i < clients.len() ==> clients[i].window != wid,
        },
{
    if position(clients, wid) is None {
        assert forall|i: int| 0 <= i < clients.len() implies clients[i].window != wid by {
            no_occurrence_before(clients, wid, i + 1);
        }
    }
}

/// Where a window has no first place, it does not occur.
proof fn no_occurrence_before(clients: Seq<Client>, wid: u32, n: int)
    requires
        0 <= n <= clients.len(),
        forall|i: int| !first_at(clients, wid, i),
    ensures
        forall|i: int| 0 <= i < n ==> clients[i].window != wid,
    decreases n,
{
    if n > 0 {
        no_occurrence_before(clients, wid, n - 1);
        assert(!first_at(clients, wid, n - 1));
    }
}

/// It makes no difference whether sequences are joined before or after a
/// function is applied to their elements.
proof fn flatten_commutes_with_map<A, B>(parts: Seq<Seq<A>>, f: spec_fn(A) -> B)
    ensures
        parts.flatten().map_values(f) == parts.map_values(
            |part: Seq<A>| part.map_values(f),
        ).flatten(),
    decreases parts.len(),
{
    let mapped = parts.map_values(|part: Seq<A>| part.map_values(f));
    if parts.len() > 0 {
        flatten_commutes_with_map(parts.drop_first(), f);
        assert(mapped.drop_first() =~= parts.drop_first().map_values(
            |part: Seq<A>| part.map_values(f),
        ));
        assert(parts.flatten().map_values(f) =~= mapped.flatten());
    }
}

/// Among more clients there are at least as many tiled ones.
proof fn tiled_is_monotonic(clients: Seq<Client>, i: int, j: int)
    requires
        0 <= i <= j <= clients.len(),
    ensures
        tiled_before(clients, i) <= tiled_before(clients, j),
    decreases j,
{
    if i < j {
        tiled_is_monotonic(clients, i, j - 1);
    }
}

/// Taking a client out does not make the tiled ones more.
pub(crate) proof fn removal_adds_no_tiled(clients: Seq<Client>, i: int)
    requires
        0 <= i < clients.len(),
    ensures
        tiled(clients.remove(i)) <= tiled(clients),
{
    tiled_before_removal(clients, i, clients.len() - 1);
}

/// The tiled clients before a place, after a client was taken out.
proof fn tiled_before_removal(clients: Seq<Client>, i: int, n: int)
    requires
        0 <= i < clients.len(),
        0 <= n < clients.len(),
    ensures
        tiled_before(clients.remove(i), n) <= tiled_before(clients, if n <= i {
            n
        } else {
            n + 1
        }),
    decreases n,
{
    if n > 0 {
        tiled_before_removal(clients, i, n - 1);
        if n - 1 == i {
            assert(tiled_before(clients, n) <= tiled_before(clients, n + 1));
        }
    }
}

/// An item of the joined sequence is an item of one of the parts.
pub(crate) proof fn flatten_contains<A>(parts: Seq<Seq<A>>, item: A)
    ensures
        parts.flatten().contains(item) <==> exists|i: int|
            0 <= i < parts.len() && (#[trigger] parts[i]).contains(item),
    decreases parts.len(),
{
    if parts.len() > 0 {
        let rest = parts.drop_first();
        flatten_contains(rest, item);
        let joined = parts.first() + rest.flatten();
        if joined.contains(item) {
            let k = choose|k: int| 0 <= k < joined.len() && joined[k] == item;
            if k < parts.first().len() {
                assert(parts[0].contains(item));
            } else {
                assert(rest.flatten()[k - parts.first().len()] == item);
                let i = choose|i: int| 0 <= i < rest.len() && (#[trigger] rest[i]).contains(item);
                assert(parts[i + 1].contains(item));
            }
        }
        if exists|i: int| 0 <= i < parts.len() && (#[trigger] parts[i]).contains(item) {
            let i = choose|i: int| 0 <= i < parts.len() && (#[trigger] parts[i]).contains(item);
            if i == 0 {
                let k = choose|k: int| 0 <= k < parts[0].len() && parts[0][k] == item;
                assert(joined[k] == item);
            } else {
                assert(rest[i - 1].contains(item));
                let k = choose|k: int| 0 <= k < rest.flatten().len() && rest.flatten()[k] == item;
                assert(joined[parts.first().len() + k] == item);
            }
        }
    }
}

/// A window that was not shown is found where it was added; a window that was
/// shown is found where it was.
pub proof fn insert_is_found(workspaces: WorkspacesView, client: Client, wid: u32)
    requires
        workspaces.has_current(),
    ensures
        workspaces.find(wid) is Some ==> workspaces.inserted(client).find(wid) == workspaces.find(
            wid,
        ),
        workspaces.find(wid) is None && wid == client.window ==> workspaces.inserted(client).find(
            wid,
        ) == Some(workspaces.shown().len() as int),
        workspaces.find(wid) is None && wid != client.window ==> workspaces.inserted(client).find(
            wid,
        ) is None,
{
    let before = workspaces.shown();
    let after = workspaces.inserted(client).shown();
    assert(after == before.push(client));
    position_is_first(before, wid);
    position_is_first(after, wid);
    if let Some(i) = workspaces.find(wid) {
        assert(first_at(after, wid, i));
    } else if wid == client.window {
        assert(first_at(after, wid, before.len() as int));
    }
}

/// Taking out the client that was added last undoes the addition.
pub proof fn remove_undoes_insert(workspaces: WorkspacesView, client: Client)
    requires
        workspaces.has_current(),
    ensures
        workspaces.inserted(client).removed(workspaces.shown().len() as int) == workspaces,
{
    let before = workspaces.shown();
    assert(before.push(client).remove(before.len() as int) =~= before);
    assert(workspaces.inserted(client).removed(before.len() as int).workspaces
        =~= workspaces.workspaces);
}

/// Adding and taking out clients leaves all workspaces but the one that is shown
/// as they were, and the same one is shown.
pub proof fn other_workspaces_stay(
    workspaces: WorkspacesView,
    client: Client,
    index: int,
    w: int,
)
    requires
        workspaces.has_current(),
        0 <= w < workspaces.workspaces.len(),
        w != workspaces.current,
    ensures
        workspaces.inserted(client).workspaces[w] == workspaces.workspaces[w],
        workspaces.removed(index).workspaces[w] == workspaces.workspaces[w],
        workspaces.inserted(client).current == workspaces.current,
        workspaces.removed(index).current == workspaces.current,
        workspaces.inserted(client).has_current(),
        workspaces.removed(index).has_current(),
{
}

/// More workspaces keep the clients where they are; so does zero. Fewer
/// workspaces than there are, but not zero, leave none and no client.
pub proof fn resize_keeps_or_drops_all(workspaces: WorkspacesView, size: nat)
    ensures
        size >= workspaces.workspaces.len() ==> {
            &&& workspaces.resized(size).workspaces.len() == size
            &&& forall|w: int|
                0 <= w < size ==> #[trigger] workspaces.resized(size).workspaces[w] == if w
                    < workspaces.workspaces.len() {
                    workspaces.workspaces[w]
                } else {
                    Seq::<Client>::empty()
                }
            &&& workspaces.has_current() ==> workspaces.resized(size).has_current()
        },
        size == 0 || size == workspaces.workspaces.len() ==> workspaces.resized(size) == workspaces,
        workspaces.resized(size).current == workspaces.current,
        0 < size < workspaces.workspaces.len() ==> {
            &&& workspaces.resized(size).workspaces.len() == 0
            &&& workspaces.resized(size).clients().len() == 0
            &&& !workspaces.resized(size).has_current()
        },
{
    if size == workspaces.workspaces.len() {
        assert(workspaces.resized(size).workspaces =~= workspaces.workspaces);
    }
}

/// Growing in two steps is growing in one.
pub proof fn growth_composes(workspaces: WorkspacesView, first: nat, second: nat)
    requires
        workspaces.workspaces.len() <= first <= second,
    ensures
        workspaces.resized(first).resized(second) == workspaces.resized(second),
{
    assert(workspaces.resized(first).resized(second).workspaces =~= workspaces.resized(
        second,
    ).workspaces);
}

/// Selecting a workspace moves no client, and shows the one of that number if
/// there is one.
pub proof fn select_only_shows(workspaces: WorkspacesView, number: u32)
    requires
        workspaces.workspaces.len() <= u32::MAX,
    ensures
        workspaces.selected(number).workspaces == workspaces.workspaces,
        1 <= number <= workspaces.workspaces.len() ==> workspaces.selected(number).current == number
            - 1,
        number > workspaces.workspaces.len() ==> workspaces.selected(number) == workspaces,
        workspaces.selected(0) == workspaces.selected(1),
        workspaces.has_current() ==> workspaces.selected(number).has_current(),
        workspaces.selected(number).selected(number) == workspaces.selected(number),
{
}

/// The tiled clients of a workspace are placed without overlap, at least two
/// gaps apart, and within the area.
pub proof fn tiled_clients_do_not_overlap(
    clients: Seq<Client>,
    i: int,
    j: int,
    area: Area,
    gaps: u16,
)
    requires
        area.can_share(tiled(clients), gaps),
        0 <= i < j < clients.len(),
        !clients[i].float,
        !clients[j].float,
    ensures
        placed(clients, i, area, gaps).disjoint(placed(clients, j, area, gaps)),
        placed(clients, i, area, gaps).apart(placed(clients, j, area, gaps), 2 * gaps),
        placed(clients, i, area, gaps).within(area),
        placed(clients, j, area, gaps).within(area),
{
    let n = tiled(clients);
    tiled_is_monotonic(clients, i + 1, j);
    tiled_is_monotonic(clients, j + 1, clients.len() as int);
    crate::area::shared_windows_do_not_overlap(
        area,
        n,
        tiled_before(clients, i),
        tiled_before(clients, j),
        gaps,
    );
    crate::area::shared_windows_stay_within(area, n, tiled_before(clients, i), gaps);
    crate::area::shared_windows_stay_within(area, n, tiled_before(clients, j), gaps);
}

/// A workspace with one tiled client gives it the whole area.
pub proof fn lone_client_takes_all(clients: Seq<Client>, i: int, area: Area, gaps: u16)
    requires
        tiled(clients) == 1,
        0 <= i < clients.len(),
        !clients[i].float,
    ensures
        placed(clients, i, area, gaps) == area.shrunk(gaps),
{
    tiled_is_monotonic(clients, i + 1, clients.len() as int);
    crate::area::lone_window_takes_all(area);
}

/// Laying out maps exactly the clients of the workspace that is shown, unmaps
/// exactly those of the others, and places exactly the tiled clients of the one
/// that is shown.
pub proof fn tile_shows_one_workspace(
    workspaces: WorkspacesView,
    area: Area,
    gaps: u16,
    action: Action,
)
    ensures
        workspaces.tile_actions(area, gaps).contains(action) <==> match action {
            Action::MapWindow { window } => workspaces.has_current() && exists|i: int|
                0 <= i < workspaces.shown().len() && (#[trigger] workspaces.shown()[i]).window
                    == window,
            Action::UnmapWindow { window } => exists|w: int, i: int|
                0 <= w < workspaces.workspaces.len() && w != workspaces.current && 0 <= i
                    < workspaces.workspaces[w].len() && (
                #[trigger] workspaces.workspaces[w][i]).window == window,
            Action::MovResize { window, area: place } => workspaces.has_current() && exists|
                i: int,
            |
                0 <= i < workspaces.shown().len() && (#[trigger] workspaces.shown()[i]).window
                    == window && !workspaces.shown()[i].float && place == placed(
                    workspaces.shown(),
                    i,
                    area,
                    gaps,
                ),
            _ => false,
        },
{
    let parts = Seq::new(
        workspaces.workspaces.len(),
        |w: int| workspaces.workspace_actions(w, area, gaps),
    );
    flatten_contains(parts, action);
    if workspaces.has_current() {
        shown_actions_contain(workspaces.shown(), area, gaps, action);
        assert(parts[workspaces.current] == shown_actions(workspaces.shown(), area, gaps));
    }
    assert forall|w: int| 0 <= w < parts.len() && w != workspaces.current implies (
    #[trigger] parts[w]).contains(action) == (action matches Action::UnmapWindow { window }
        && exists|i: int|
        0 <= i < workspaces.workspaces[w].len() && (#[trigger] workspaces.workspaces[w][i]).window
            == window) by {
        let clients = workspaces.workspaces[w];
        let hidden = hidden_actions(clients);
        if hidden.contains(action) {
            let i = choose|i: int| 0 <= i < hidden.len() && hidden[i] == action;
            assert(clients[i].window == clients[i].window);
        }
        if let Action::UnmapWindow { window } = action {
            if exists|i: int| 0 <= i < clients.len() && (#[trigger] clients[i]).window == window {
                let i = choose|i: int|
                    0 <= i < clients.len() && (#[trigger] clients[i]).window == window;
                assert(hidden[i] == action);
            }
        }
    }
    if let Action::UnmapWindow { window } = action {
        assert forall|w: int, i: int|
            0 <= w < workspaces.workspaces.len() && w != workspaces.current && 0 <= i
                < workspaces.workspaces[w].len() && (#[trigger] workspaces.workspaces[w][i]).window
                == window implies workspaces.tile_actions(area, gaps).contains(action) by {
            assert(parts[w].contains(action));
        }
    }
}

/// Laying out the workspace that is shown maps its clients and places the tiled
/// ones.
proof fn shown_actions_contain(clients: Seq<Client>, area: Area, gaps: u16, action: Action)
    ensures
        shown_actions(clients, area, gaps).contains(action) <==> match action {
            Action::MapWindow { window } => exists|i: int|
                0 <= i < clients.len() && (#[trigger] clients[i]).window == window,
            Action::MovResize { window, area: place } => exists|i: int|
                0 <= i < clients.len() && (#[trigger] clients[i]).window == window
                    && !clients[i].float && place == placed(clients, i, area, gaps),
            _ => false,
        },
{
    let parts = Seq::new(clients.len(), |i: int| client_actions(clients, i, area, gaps));
    flatten_contains(parts, action);
    assert forall|i: int| 0 <= i < parts.len() implies (#[trigger] parts[i]).contains(action) == match action {
        Action::MapWindow { window } => clients[i].window == window,
        Action::MovResize { window, area: place } => clients[i].window == window
            && !clients[i].float && place == placed(clients, i, area, gaps),
        _ => false,
    } by {
        let part = client_actions(clients, i, area, gaps);
        assert(part.len() == 1 || part.len() == 2);
        assert(part.contains(action) == (part[0] == action || (part.len() == 2 && part[1]
            == action)));
    }
    match action {
        Action::MapWindow { window } => {
            assert forall|i: int|
                0 <= i < clients.len() && (#[trigger] clients[i]).window
                    == window implies shown_actions(clients, area, gaps).contains(action) by {
                assert(parts[i].contains(action));
            }
        },
        Action::MovResize { window, area: place } => {
            assert forall|i: int|
                0 <= i < clients.len() && (#[trigger] clients[i]).window == window
                    && !clients[i].float && place == placed(
                    clients,
                    i,
                    area,
                    gaps,
                ) implies shown_actions(clients, area, gaps).contains(action) by {
                assert(parts[i].contains(action));
            }
        },
        _ => {},
    }
}

/// A window is found at the first place where it stands in the workspace that is
/// shown, and it is found if it stands there at all. It floats exactly if the client
/// at that place does.
pub proof fn find_gives_the_first_place(workspaces: WorkspacesView, wid: u32)
    ensures
        ({
            let clients = workspaces.workspaces[workspaces.current];
            &&& match workspaces.find(wid) {
                Some(i) => {
                    &&& 0 <= i < clients.len()
                    &&& clients[i].window == wid
                    &&& forall|j: int| 0 <= j < i ==> (#[trigger] clients[j]).window != wid
                    &&& workspaces.floats(wid) == clients[i].float
                },
                None => {
                    &&& forall|j: int|
                        0 <= j < clients.len() ==> (#[trigger] clients[j]).window != wid
                    &&& !workspaces.floats(wid)
                },
            }
            &&& workspaces.shown() == clients
            &&& workspaces.has_current() <==> 0 <= workspaces.current
                < workspaces.workspaces.len()
        }),
{
    position_is_first(workspaces.shown(), wid);
}

/// Adding puts the client behind all others of the workspace that is shown, and
/// changes nothing else.
pub proof fn insert_appends(workspaces: WorkspacesView, client: Client)
    requires
        workspaces.has_current(),
    ensures
        ({
            let c = workspaces.current;
            let after = workspaces.inserted(client);
            &&& after.current == c
            &&& after.workspaces.len() == workspaces.workspaces.len()
            &&& after.workspaces[c].len() == workspaces.workspaces[c].len() + 1
            &&& after.workspaces[c].last() == client
            &&& after.workspaces[c].drop_last() == workspaces.workspaces[c]
            &&& forall|w: int|
                0 <= w < workspaces.workspaces.len() && w != c
                    ==> #[trigger] after.workspaces[w] == workspaces.workspaces[w]
        }),
{
    let c = workspaces.current;
    assert(workspaces.inserted(client).workspaces[c].drop_last() =~= workspaces.workspaces[c]);
}

/// Taking out closes the gap: the clients before the place stay, those after it move
/// up by one, and nothing else changes.
pub proof fn remove_closes_the_gap(workspaces: WorkspacesView, index: int)
    requires
        workspaces.has_current(),
        0 <= index < workspaces.workspaces[workspaces.current].len(),
    ensures
        ({
            let c = workspaces.current;
            let before = workspaces.workspaces[c];
            let after = workspaces.removed(index);
            &&& after.current == c
            &&& after.workspaces.len() == workspaces.workspaces.len()
            &&& after.workspaces[c].len() == before.len() - 1
            &&& forall|i: int| 0 <= i < index ==> #[trigger] after.workspaces[c][i] == before[i]
            &&& forall|i: int|
                index <= i < before.len() - 1 ==> #[trigger] after.workspaces[c][i] == before[i + 1]
            &&& forall|w: int|
                0 <= w < workspaces.workspaces.len() && w != c
                    ==> #[trigger] after.workspaces[w] == workspaces.workspaces[w]
        }),
{
}

/// A change made to the client of a window reaches the client at the place where the
/// window is found, and no other client of any workspace. What is done for it is done
/// for that client. Where the window is not found, nothing changes and nothing is
/// done.
pub proof fn change_reaches_the_found_client(
    workspaces: WorkspacesView,
    wid: u32,
    change: spec_fn(Client) -> Client,
    report: spec_fn(Client) -> Seq<Action>,
)
    requires
        workspaces.has_current(),
    ensures
        ({
            let c = workspaces.current;
            let after = workspaces.change_client(wid, change);
            &&& after.current == c
            &&& after.workspaces.len() == workspaces.workspaces.len()
            &&& forall|w: int|
                0 <= w < workspaces.workspaces.len() ==> (#[trigger] after.workspaces[w]).len()
                    == workspaces.workspaces[w].len()
            &&& forall|w: int, i: int|
                0 <= w < workspaces.workspaces.len() && 0 <= i < workspaces.workspaces[w].len()
                    ==> #[trigger] after.workspaces[w][i] == if w == c && workspaces.find(wid)
                    == Some(i) {
                    change(workspaces.workspaces[w][i])
                } else {
                    workspaces.workspaces[w][i]
                }
            &&& workspaces.actions_for_client(wid, report) == match workspaces.find(wid) {
                Some(i) => report(workspaces.workspaces[c][i]),
                None => Seq::empty(),
            }
        }),
{
    position_is_first(workspaces.shown(), wid);
}

/// One workspace with some clients, shown.
pub open spec fn alone(clients: Seq<Client>) -> WorkspacesView {
    WorkspacesView { workspaces: seq![clients], current: 0 }
}

/// With the first client left out, the others keep their order, so the tiled ones
/// before a place are fewer by one if the first client is tiled.
proof fn tiled_after_the_first(clients: Seq<Client>, n: int)
    requires
        0 <= n < clients.len(),
    ensures
        tiled_before(clients, n + 1) == tiled_before(clients.drop_first(), n) + if clients[0].float {
            0nat
        } else {
            1nat
        },
    decreases n,
{
    reveal_with_fuel(tiled_before, 2);
    if n > 0 {
        tiled_after_the_first(clients, n - 1);
        assert(clients.drop_first()[n - 1] == clients[n]);
    }
}

/// There is no tiled client exactly if all of them float.
proof fn none_is_tiled(clients: Seq<Client>, n: int)
    requires
        0 <= n <= clients.len(),
    ensures
        tiled_before(clients, n) == 0 <==> forall|i: int| 0 <= i < n ==> (#[trigger] clients[i]).float,
    decreases n,
{
    if n > 0 {
        none_is_tiled(clients, n - 1);
    }
}

/// Without its first client, a workspace has a tiled client exactly if one follows
/// the first.
proof fn tiled_ones_follow(clients: Seq<Client>)
    requires
        clients.len() > 0,
    ensures
        tiled(clients.drop_first()) > 0 <==> exists|i: int|
            0 < i < clients.len() && !(#[trigger] clients[i]).float,
{
    let others = clients.drop_first();
    none_is_tiled(others, others.len() as int);
    assert forall|i: int| 0 < i < clients.len() implies clients[i] == others[i - 1] by {}
    if tiled(others) > 0 {
        let j = choose|j: int| 0 <= j < others.len() && !(#[trigger] others[j]).float;
        assert(!clients[j + 1].float);
    }
}

/// What is done for one workspace alone, and when it can be done.
proof fn alone_is_shown(clients: Seq<Client>, area: Area, gaps: u16)
    ensures
        alone(clients).tile_actions(area, gaps) == shown_actions(clients, area, gaps),
        alone(clients).can_tile(area, gaps) == area.can_share(tiled(clients), gaps),
{
    let parts = Seq::new(1, |w: int| alone(clients).workspace_actions(w, area, gaps));
    let whole = shown_actions(clients, area, gaps);
    assert(parts =~= Seq::<Seq<Action>>::empty().push(whole));
    Seq::<Seq<Action>>::empty().lemma_flatten_push(whole);
    assert(Seq::<Seq<Action>>::empty().flatten() =~= Seq::<Action>::empty());
    assert(Seq::<Action>::empty() + whole =~= whole);
    assert(alone(clients).workspaces.len() == 1);
    assert(parts =~= Seq::new(
        alone(clients).workspaces.len(),
        |w: int| alone(clients).workspace_actions(w, area, gaps),
    ));
}

/// The clients are laid out from the first to the last. A floating client is mapped.
/// A tiled one is placed and mapped: if a tiled client follows, it gets the first
/// half of the area and leaves the second half to the others, else it gets the whole
/// area.
pub proof fn layout_goes_client_by_client(clients: Seq<Client>, area: Area, gaps: u16)
    ensures
        clients.len() == 0 ==> alone(clients).tile_actions(area, gaps) == Seq::<Action>::empty(),
        clients.len() > 0 ==> {
            let window = clients[0].window;
            let rest = alone(clients.drop_first());
            let whole = alone(clients).tile_actions(area, gaps);
            if clients[0].float {
                whole == seq![Action::MapWindow { window }] + rest.tile_actions(area, gaps)
            } else if exists|i: int| 0 < i < clients.len() && !(#[trigger] clients[i]).float {
                whole == seq![
                    Action::MovResize { window, area: area.first_half().shrunk(gaps) },
                    Action::MapWindow { window },
                ] + rest.tile_actions(area.second_half(), gaps)
            } else {
                whole == seq![
                    Action::MovResize { window, area: area.shrunk(gaps) },
                    Action::MapWindow { window },
                ] + rest.tile_actions(area, gaps)
            }
        },
{
    alone_is_shown(clients, area, gaps);
    let parts = Seq::new(clients.len(), |i: int| client_actions(clients, i, area, gaps));
    if clients.len() == 0 {
        assert(parts =~= Seq::<Seq<Action>>::empty());
    } else {
        let others = clients.drop_first();
        let left = if !clients[0].float && exists|i: int|
            0 < i < clients.len() && !(#[trigger] clients[i]).float {
            area.second_half()
        } else {
            area
        };
        alone_is_shown(others, left, gaps);
        tiled_after_the_first(clients, clients.len() - 1);
        tiled_ones_follow(clients);
        assert(tiled_before(clients, 0) == 0);
        crate::area::lone_window_takes_all(area);
        if tiled(others) > 0 {
            crate::area::windows_share_half_by_half(area, tiled(others), 0);
        }
        let tail = Seq::new(others.len(), |i: int| client_actions(others, i, left, gaps));
        assert forall|i: int| 0 <= i < others.len() implies parts.drop_first()[i] == tail[i] by {
            tiled_after_the_first(clients, i);
            assert(others[i] == clients[i + 1]);
            if !others[i].float {
                tiled_is_monotonic(others, i + 1, others.len() as int);
                if !clients[0].float {
                    crate::area::windows_share_half_by_half(
                        area,
                        tiled(others),
                        tiled_before(others, i),
                    );
                }
            }
        }
        assert(parts.drop_first() =~= tail);
        assert(parts.first() == client_actions(clients, 0, area, gaps));
    }
}

/// The workspaces are gone through from the first to the last: the one that is shown
/// is laid out as if it were alone, and the clients of any other are unmapped in
/// their order.
pub proof fn layout_goes_workspace_by_workspace(
    workspaces: WorkspacesView,
    area: Area,
    gaps: u16,
)
    ensures
        workspaces.workspaces.len() == 0 ==> workspaces.tile_actions(area, gaps) == Seq::<
            Action,
        >::empty(),
        workspaces.workspaces.len() > 0 ==> {
            let last = workspaces.workspaces.last();
            let front = WorkspacesView {
                workspaces: workspaces.workspaces.drop_last(),
                current: workspaces.current,
            };
            workspaces.tile_actions(area, gaps) == front.tile_actions(area, gaps) + if workspaces.current
                == workspaces.workspaces.len() - 1 {
                alone(last).tile_actions(area, gaps)
            } else {
                Seq::new(last.len(), |i: int| Action::UnmapWindow { window: last[i].window })
            }
        },
{
    let all = workspaces.workspaces;
    let parts = Seq::new(all.len(), |w: int| workspaces.workspace_actions(w, area, gaps));
    if all.len() == 0 {
        assert(parts =~= Seq::<Seq<Action>>::empty());
    } else {
        let last = all.last();
        let front = WorkspacesView { workspaces: all.drop_last(), current: workspaces.current };
        let fronts = Seq::new(
            front.workspaces.len(),
            |w: int| front.workspace_actions(w, area, gaps),
        );
        assert(parts =~= fronts.push(parts.last()));
        fronts.lemma_flatten_push(parts.last());
        alone_is_shown(last, area, gaps);
        assert(hidden_actions(last) =~= Seq::new(
            last.len(),
            |i: int| Action::UnmapWindow { window: last[i].window },
        ));
    }
}

/// The clients fit exactly if each of them does, from the first to the last: a
/// floating client always does. A tiled one that another one follows needs an area
/// that can be cut, and its gaps must fit into the first half; the last tiled one
/// needs room for its gaps alone.
pub proof fn room_is_needed_client_by_client(clients: Seq<Client>, area: Area, gaps: u16)
    ensures
        clients.len() == 0 ==> alone(clients).can_tile(area, gaps),
        clients.len() > 0 ==> {
            let rest = alone(clients.drop_first());
            alone(clients).can_tile(area, gaps) == if clients[0].float {
                rest.can_tile(area, gaps)
            } else if exists|i: int| 0 < i < clients.len() && !(#[trigger] clients[i]).float {
                area.can_split() && area.first_half().can_shrink(gaps) && rest.can_tile(
                    area.second_half(),
                    gaps,
                )
            } else {
                area.can_shrink(gaps)
            }
        },
{
    alone_is_shown(clients, area, gaps);
    if clients.len() == 0 {
        crate::area::room_is_shared_half_by_half(area, 1, gaps);
    } else {
        let others = clients.drop_first();
        alone_is_shown(others, area, gaps);
        alone_is_shown(others, area.second_half(), gaps);
        tiled_after_the_first(clients, clients.len() - 1);
        tiled_ones_follow(clients);
        if tiled(others) > 0 {
            crate::area::room_is_shared_half_by_half(area, tiled(others), gaps);
        } else {
            crate::area::room_is_shared_half_by_half(area, 1, gaps);
        }
    }
}

/// Only the workspace that is shown needs room; without one, none is needed.
pub proof fn only_the_shown_workspace_needs_room(
    workspaces: WorkspacesView,
    area: Area,
    gaps: u16,
)
    ensures
        workspaces.can_tile(area, gaps) == if 0 <= workspaces.current < workspaces.workspaces.len() {
            alone(workspaces.workspaces[workspaces.current]).can_tile(area, gaps)
        } else {
            true
        },
{
    alone_is_shown(workspaces.shown(), area, gaps);
}

/// Two actions for each client, one after the other.
proof fn pairs_in_order(clients: Seq<Client>, borders: Borders)
    ensures
        ({
            let actions = clients.map_values(|client: Client| plain_border(client, borders)).flatten();
            &&& actions.len() == 2 * clients.len()
            &&& forall|k: int|
                0 <= k < clients.len() ==> {
                    &&& actions[2 * k] == (Action::SetBorderWidth {
                        window: (#[trigger] clients[k]).window,
                        width: borders.width,
                    })
                    &&& actions[2 * k + 1] == (Action::SetBorderPixel {
                        window: clients[k].window,
                        pixel: borders.normal,
                    })
                }
        }),
    decreases clients.len(),
{
    let parts = clients.map_values(|client: Client| plain_border(client, borders));
    if clients.len() > 0 {
        let others = clients.drop_first();
        pairs_in_order(others, borders);
        assert(parts.drop_first() =~= others.map_values(
            |client: Client| plain_border(client, borders),
        ));
        let tail = parts.drop_first().flatten();
        assert(parts.flatten() == parts.first() + tail);
        assert forall|k: int| 0 <= k < clients.len() implies {
            &&& parts.flatten()[2 * k] == (Action::SetBorderWidth {
                window: (#[trigger] clients[k]).window,
                width: borders.width,
            })
            &&& parts.flatten()[2 * k + 1] == (Action::SetBorderPixel {
                window: clients[k].window,
                pixel: borders.normal,
            })
        } by {
            if k > 0 {
                assert(others[k - 1] == clients[k]);
                assert(parts.flatten()[2 * k] == tail[2 * (k - 1)]);
                assert(parts.flatten()[2 * k + 1] == tail[2 * (k - 1) + 1]);
            }
        }
    }
}

/// Every client of every workspace, in their order, gets the width of the borders
/// and then the pixel of a window without focus, and nothing else is done.
pub proof fn plain_borders_go_client_by_client(workspaces: WorkspacesView, borders: Borders)
    ensures
        ({
            let clients = workspaces.workspaces.flatten();
            let actions = workspaces.border_actions(borders);
            &&& actions.len() == 2 * clients.len()
            &&& forall|k: int|
                0 <= k < clients.len() ==> {
                    &&& actions[2 * k] == (Action::SetBorderWidth {
                        window: (#[trigger] clients[k]).window,
                        width: borders.width,
                    })
                    &&& actions[2 * k + 1] == (Action::SetBorderPixel {
                        window: clients[k].window,
                        pixel: borders.normal,
                    })
                }
        }),
{
    pairs_in_order(workspaces.workspaces.flatten(), borders);
}

/// The focus goes to the client at an index exactly if there is one, and nowhere else.
pub proof fn focus_goes_to_the_index(clients: Seq<Client>, index: int)
    ensures
        0 <= index < clients.len() ==> focus_actions(clients, index) == seq![
            Action::SetInputFocus { window: clients[index].window },
        ],
        index < 0 || index >= clients.len() ==> focus_actions(clients, index) == Seq::<
            Action,
        >::empty(),
{
}

/// Every index of a sequence is meant, and no other number.
pub proof fn every_index_is_meant(i: int, n: nat)
    ensures
        in_range(i, n) <==> (i >= 0 && i < n),
{
}

/// The clients before a place are those of the workspaces before, and those before it
/// in its own workspace; no visit of any of them may be sure to fail.
pub proof fn visits_before_a_client<E, F: Fn(&mut Client) -> Outcome<E>>(
    f: F,
    workspaces: Seq<Seq<Client>>,
    w: int,
    i: int,
)
    requires
        0 <= w < workspaces.len(),
        0 <= i <= workspaces[w].len(),
    ensures
        can_pass_until(f, workspaces, w, i) <==> forall|v: int, j: int|
            0 <= v <= w && 0 <= j < workspaces[v].len() && (v < w || j < i)
                ==> crate::action::can_pass(f, #[trigger] workspaces[v][j]),
{
    let each = forall|v: int, j: int|
        0 <= v <= w && 0 <= j < workspaces[v].len() && (v < w || j < i) ==> crate::action::can_pass(
            f,
            #[trigger] workspaces[v][j],
        );
    if each {
        assert forall|v: int| 0 <= v < w implies crate::action::can_pass_first(
            f,
            #[trigger] workspaces[v],
            workspaces[v].len() as int,
        ) by {
            assert forall|j: int| 0 <= j < workspaces[v].len() implies crate::action::can_pass(
                f,
                #[trigger] workspaces[v][j],
            ) by {}
        }
    }
    if can_pass_until(f, workspaces, w, i) {
        assert forall|v: int, j: int|
            0 <= v <= w && 0 <= j < workspaces[v].len() && (v < w
                || j < i) implies crate::action::can_pass(f, #[trigger] workspaces[v][j]) by {
            if v < w {
                assert(crate::action::can_pass_first(f, workspaces[v], workspaces[v].len() as int));
            }
        }
    }
}

/// The view of the workspaces holds each of them with its clients, and the index of
/// the one that is shown.
pub proof fn workspaces_are_seen_whole(workspaces: Workspaces)
    ensures
        workspaces@.current == workspaces.current,
        workspaces@.workspaces.len() == workspaces.workspaces@.len(),
        forall|w: int|
            0 <= w < workspaces.workspaces@.len() ==> #[trigger] workspaces@.workspaces[w]
                == workspaces.workspaces@[w]@,
{
}

} // verus!
