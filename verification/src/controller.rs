use crate::controller::view_login::{login_success_text, welcome_text, LoginResult};
use crate::controller::view_main::{handle_allowed, main_handled, MainCommand, MainOutcome};
use crate::controller::view_admin::{admin_handled, admin_welcome_text, AdminCommand, AdminOutcome};
use crate::errors::{Error, Result};
use crate::game::actions;
use crate::game::actions::look_done;
use crate::game::avatars::{find_deep_players_in, find_players_in, players_of, spawn_ready, spawned_player};
use crate::game::container::Container;
use crate::game::location::{children, descendants};
use crate::game::mob::MobId;
use crate::game::outputs::Output;
use crate::game::item::ItemId;
use crate::ids::{ConnectionId, ObjId, PlayerId};
use std::collections::{HashMap, HashSet};
use vstd::prelude::*;
use vstd::string::StringExecFns;

pub mod input_handle_hire;
pub mod input_handle_items;
pub mod view_admin;
pub mod view_login;
pub mod view_main;

verus! {

broadcast use {vstd::std_specs::hash::group_hash_axioms, vstd::set::group_set_axioms};

/// What a connection is looking at.
#[derive(Debug, Clone, Copy, PartialEq, Eq, Structural)]
pub enum ConnectionView {
    Login,
    Game,
    Admin,
}

/// What handling an input asks of the connection.
#[derive(Debug, Clone, Copy, PartialEq, Eq, Structural)]
pub enum ConnectionViewAction {
    NoAction,
    Login(PlayerId),
    SwitchView(ConnectionView),
    Logout,
}

/// A connection: the player logged in through it, if any, and what it looks at.
#[derive(Debug, Clone, Copy, PartialEq, Eq, Structural)]
pub struct ConnectionState {
    pub connection_id: ConnectionId,
    pub player_id: Option<PlayerId>,
    pub view: ConnectionView,
}

/// The connections to the game, and the text to send through them.
pub struct ConnectionController {
    connections: HashMap<u32, ConnectionState>,
    connection_id_by_player_id: HashMap<u32, u32>,
    server_outputs: Vec<(ConnectionId, String)>,
    connections_with_input: HashSet<u32>,
}

/// A text to send through a connection.
pub open spec fn sent(o: (ConnectionId, String)) -> (ConnectionId, Seq<char>) {
    (o.0, o.1@)
}

/// What the greeting of a connection's view does, from outputs `o1` and game `c` to outputs
/// `o2` and game `f`: the game view looks around with the player's avatar; the others greet.
pub open spec fn welcomed(
    o1: Seq<(ConnectionId, Seq<char>)>,
    o2: Seq<(ConnectionId, Seq<char>)>,
    c: &Container,
    f: &Container,
    connection_id: ConnectionId,
    state: ConnectionState,
    r: Result<()>,
) -> bool {
    match state.view {
        ConnectionView::Game => match state.player_id {
            Some(p) => if c.players@.contains_key(p.0) {
                o2 == o1 && look_done(c, f, c.players@[p.0].mob_id, r)
            } else {
                (r matches Err(Error::NotFoundException)) && o2 == o1 && *f == *c
            },
            None => (r matches Err(Error::NotFoundException)) && o2 == o1 && *f == *c,
        },
        ConnectionView::Login => r is Ok && o2 == o1.push((connection_id, welcome_text())) && *f == *c,
        ConnectionView::Admin => r is Ok && o2 == o1.push((connection_id, admin_welcome_text())) && *f == *c,
    }
}

/// What applying an action to a connection does, from connections `cs`, player connections
/// `bp` and outputs `os`, and game `c`, to controller `b` and game `f`.
pub open spec fn applied(
    cs: Map<u32, ConnectionState>,
    bp: Map<u32, u32>,
    os: Seq<(ConnectionId, Seq<char>)>,
    b: &ConnectionController,
    c: &Container,
    f: &Container,
    connection_id: ConnectionId,
    action: ConnectionViewAction,
    r: Result<()>,
) -> bool {
    let k = connection_id.0;
    let st = cs[k];
    match action {
        ConnectionViewAction::NoAction => r is Ok && b.connections() == cs && b.by_player() == bp && b.outputs() == os
            && *f == *c,
        ConnectionViewAction::SwitchView(v) => {
            let nst = ConnectionState { view: v, ..st };
            &&& b.connections() == cs.insert(k, nst)
            &&& b.by_player() == bp
            &&& welcomed(os, b.outputs(), c, f, connection_id, nst, r)
        },
        ConnectionViewAction::Login(p) => {
            let nst = ConnectionState { view: ConnectionView::Game, player_id: Some(p), ..st };
            &&& b.connections() == cs.insert(k, nst)
            &&& b.by_player() == bp.insert(p.0, k)
            &&& welcomed(os, b.outputs(), c, f, connection_id, nst, r)
        },
        ConnectionViewAction::Logout => {
            let nst = ConnectionState { view: ConnectionView::Login, player_id: None, ..st };
            &&& b.connections() == cs.insert(k, nst)
            &&& b.by_player() == match st.player_id {
                Some(p) => bp.remove(p.0),
                None => bp,
            }
            &&& welcomed(os, b.outputs(), c, f, connection_id, nst, r)
        },
    }
}

/// What handling an input leaves to the program around the library: nothing; a login seen for
/// the first time whose player could not be made, the game not being set up for new players
/// (see `avatars::spawn_ready`); a game command to carry out; or an admin command, whose answer
/// goes back through `ConnectionController::add_admin_outputs`.
#[derive(Debug)]
pub enum InputOutcome {
    Handled,
    NewPlayer { login: String },
    Game(MainCommand),
    Admin(AdminCommand),
}

/// What handling an input does (see `ConnectionController::handle_input`).
pub open spec fn input_handled<F: Fn(ItemId) -> bool>(
    a: &ConnectionController,
    b: &ConnectionController,
    c: &Container,
    f: &Container,
    connection_id: ConnectionId,
    input: &str,
    fits: F,
    r: InputOutcome,
) -> bool {
    let k = connection_id.0;
    let st = a.connections()[k];
    &&& b.with_input() == a.with_input().insert(k)
    &&& match st.view {
        ConnectionView::Login => if input.len() > 3 {
            let os = a.outputs().push((connection_id, login_success_text(input@)));
            if exists|p: u32| c.players@.contains_key(p) && c.players@[p].login@ == input@ {
                exists|p: PlayerId, ar: Result<()>|
                    #![trigger applied(a.connections(), a.by_player(), os, b, c, f, connection_id, ConnectionViewAction::Login(p), ar)]
                    c.players@.contains_key(p.0) && c.players@[p.0].login@ == input@ && (r matches InputOutcome::Handled)
                        && applied(a.connections(), a.by_player(), os, b, c, f, connection_id, ConnectionViewAction::Login(p), ar)
            } else if spawn_ready(c) {
                let p = ObjId(c.objects.next_id());
                &&& r matches InputOutcome::Handled
                &&& exists|mid: Container, ar: Result<()>|
                    #![trigger applied(a.connections(), a.by_player(), os, b, &mid, f, connection_id, ConnectionViewAction::Login(p), ar)]
                    spawned_player(c, &mid, input@, Ok(p)) && mid.wf() && applied(
                        a.connections(),
                        a.by_player(),
                        os,
                        b,
                        &mid,
                        f,
                        connection_id,
                        ConnectionViewAction::Login(p),
                        ar,
                    )
            } else {
                &&& r matches InputOutcome::NewPlayer { login } && login@ == input@
                &&& b.connections() == a.connections() && b.by_player() == a.by_player() && b.outputs() == os
                &&& *f == *c
            }
        } else {
            &&& r matches InputOutcome::Handled
            &&& b.connections() == a.connections() && b.by_player() == a.by_player()
            &&& b.outputs() == a.outputs().push((connection_id, view_login::invalid_login_text(input@)))
            &&& *f == *c
        },
        ConnectionView::Game => match st.player_id {
            None => (r matches InputOutcome::Handled) && exists|ar: Result<()>|
                applied(
                    a.connections(),
                    a.by_player(),
                    a.outputs(),
                    b,
                    c,
                    f,
                    connection_id,
                    ConnectionViewAction::SwitchView(ConnectionView::Login),
                    ar,
                ),
            Some(p) => exists|mid: Container, d: core::result::Result<MainOutcome, Error>|
                main_handled(c, &mid, c.players@[p.0].mob_id, input, fits, d) && match d {
                    Ok(MainOutcome::Action(action)) => (r matches InputOutcome::Handled) && exists|ar: Result<()>|
                        applied(a.connections(), a.by_player(), a.outputs(), b, &mid, f, connection_id, action, ar),
                    Ok(MainOutcome::Pending(cmd)) => (r matches InputOutcome::Game(x) && x == cmd) && b.connections()
                        == a.connections() && b.by_player() == a.by_player() && b.outputs() == a.outputs() && *f == mid,
                    Err(_) => (r matches InputOutcome::Handled) && b.connections() == a.connections() && b.by_player()
                        == a.by_player() && b.outputs() == a.outputs() && *f == mid,
                },
        },
        ConnectionView::Admin => exists|mid: Container, outs: Seq<String>, d: core::result::Result<AdminOutcome, Error>|
            #![trigger admin_handled(c, &mid, Seq::empty(), view_admin::string_views(outs), input@, d)]
            admin_handled(c, &mid, Seq::empty(), view_admin::string_views(outs), input@, d) && {
                let os = a.outputs() + admin_sent(connection_id, outs);
                match d {
                    Ok(AdminOutcome::Action(action)) => (r matches InputOutcome::Handled) && exists|ar: Result<()>|
                        applied(a.connections(), a.by_player(), os, b, &mid, f, connection_id, action, ar),
                    Ok(AdminOutcome::Pending(cmd)) => (r matches InputOutcome::Admin(x) && x == cmd) && b.connections()
                        == a.connections() && b.by_player() == a.by_player() && b.outputs() == os && *f == mid,
                    Err(_) => (r matches InputOutcome::Handled) && b.connections() == a.connections() && b.by_player()
                        == a.by_player() && b.outputs() == os && *f == mid,
                }
            },
    }
}

/// What the admin view answered, each message followed by an empty line.
pub open spec fn admin_sent(connection_id: ConnectionId, msgs: Seq<String>) -> Seq<(ConnectionId, Seq<char>)>
    decreases msgs.len(),
{
    if msgs.len() == 0 {
        Seq::empty()
    } else {
        admin_sent(connection_id, msgs.drop_last()).push((connection_id, msgs.last()@)).push(
            (connection_id, "\n"@),
        )
    }
}

/// `ex` is the player an excluded mob is the avatar of, if any (see
/// `PlayerRepository::find_from_mob`).
pub open spec fn excluded(c: &Container, exclude: Option<MobId>, ex: Option<PlayerId>) -> bool {
    match exclude {
        None => ex is None,
        Some(m) => match ex {
            Some(p) => c.players@.contains_key(p.0) && c.players@[p.0].mob_id == m,
            None => forall|k: u32| #[trigger] c.players@.contains_key(k) ==> c.players@[k].mob_id != m,
        },
    }
}

/// The text to each of the players but the excluded one, through their connection, if any.
pub open spec fn sends(ps: Seq<PlayerId>, ex: Option<PlayerId>, bp: Map<u32, u32>, text: Seq<char>) -> Seq<(ConnectionId, Seq<char>)>
    decreases ps.len(),
{
    if ps.len() == 0 {
        Seq::empty()
    } else {
        let rest = sends(ps.drop_last(), ex, bp, text);
        let p = ps.last();
        if Some(p) != ex && bp.contains_key(p.0) {
            rest.push((ConnectionId(bp[p.0]), text))
        } else {
            rest
        }
    }
}

/// What a game output gives to send, through the player connections `bp`: a private message
/// goes to the connection of a player of the mob, a broadcast to the connection of each player
/// with an avatar at the location (inside it where recursive) but the excluded one. Each text
/// ends with a new line.
pub open spec fn delivered(c: &Container, bp: Map<u32, u32>, out: Output, seg: Seq<(ConnectionId, Seq<char>)>) -> bool {
    match out {
        Output::Private { mob_id, msg } => if exists|p: u32| c.players@.contains_key(p) && c.players@[p].mob_id == mob_id {
            exists|p: u32|
                #![trigger c.players@[p]]
                c.players@.contains_key(p) && c.players@[p].mob_id == mob_id && seg == if bp.contains_key(p) {
                    seq![(ConnectionId(bp[p]), msg@ + "\n"@)]
                } else {
                    Seq::empty()
                }
        } else {
            seg == Seq::<(ConnectionId, Seq<char>)>::empty()
        },
        Output::Broadcast { exclude, location_id, recursive, msg } => exists|ps: Seq<PlayerId>, ex: Option<PlayerId>|
            #![trigger sends(ps, ex, bp, msg@ + "\n"@)]
            players_of(
                c,
                if recursive {
                    descendants(c.locations@, location_id.0)
                } else {
                    children(c.locations@, location_id.0)
                },
                ps,
            ) && excluded(c, exclude, ex) && seg == sends(ps, ex, bp, msg@ + "\n"@),
    }
}

/// The connections among `os`, each once in order of first appearance, for which `keep` holds.
pub open spec fn firsts(os: Seq<(ConnectionId, Seq<char>)>, keep: spec_fn(u32) -> bool) -> Seq<u32>
    decreases os.len(),
{
    if os.len() == 0 {
        Seq::empty()
    } else {
        let f = firsts(os.drop_last(), keep);
        let k = os.last().0.0;
        if keep(k) && !f.contains(k) {
            f.push(k)
        } else {
            f
        }
    }
}

/// An empty line for each connection, the last first.
pub open spec fn new_lines(ids: Seq<u32>) -> Seq<(ConnectionId, Seq<char>)> {
    ids.reverse().map_values(|k: u32| (ConnectionId(k), "\n"@))
}

impl ConnectionController {
    pub closed spec fn connections(&self) -> Map<u32, ConnectionState> {
        self.connections@
    }

    pub closed spec fn by_player(&self) -> Map<u32, u32> {
        self.connection_id_by_player_id@
    }

    pub closed spec fn outputs(&self) -> Seq<(ConnectionId, Seq<char>)> {
        self.server_outputs@.map_values(|o: (ConnectionId, String)| sent(o))
    }

    pub closed spec fn with_input(&self) -> Set<u32> {
        self.connections_with_input@
    }

    /// Every connection is stored under its own id.
    pub open spec fn wf(&self) -> bool {
        forall|k: u32| #[trigger] self.connections().contains_key(k) ==> self.connections()[k].connection_id.0 == k
    }

    pub fn new() -> (r: Self)
        ensures
            r.wf(),
            r.connections() == Map::<u32, ConnectionState>::empty(),
            r.by_player() == Map::<u32, u32>::empty(),
            r.outputs() == Seq::<(ConnectionId, Seq<char>)>::empty(),
            r.with_input() == Set::<u32>::empty(),
    {
        let r = ConnectionController {
            connections: HashMap::new(),
            connection_id_by_player_id: HashMap::new(),
            server_outputs: Vec::new(),
            connections_with_input: HashSet::new(),
        };
        proof {
            assert(r.outputs() =~= Seq::<(ConnectionId, Seq<char>)>::empty());
        }
        r
    }

    fn push_output(&mut self, connection_id: ConnectionId, msg: String)
        ensures
            final(self).connections() == old(self).connections(),
            final(self).by_player() == old(self).by_player(),
            final(self).with_input() == old(self).with_input(),
            final(self).outputs() == old(self).outputs().push((connection_id, msg@)),
    {
        self.server_outputs.push((connection_id, msg));
        proof {
            assert(self.outputs() =~= old(self).outputs().push((connection_id, msg@)));
        }
    }

    /// Greet a connection in the view it is in.
    fn handle_view_welcome(&mut self, container: &mut Container, connection_id: ConnectionId) -> (r: Result<()>)
        requires
            old(container).wf(),
            old(self).connections().contains_key(connection_id.0),
        ensures
            final(container).wf(),
            final(self).connections() == old(self).connections(),
            final(self).by_player() == old(self).by_player(),
            final(self).with_input() == old(self).with_input(),
            welcomed(
                old(self).outputs(),
                final(self).outputs(),
                old(container),
                final(container),
                connection_id,
                old(self).connections()[connection_id.0],
                r,
            ),
    {
        let state = *self.connections.get(&connection_id.0).unwrap();
        match state.view {
            ConnectionView::Game => {
                let player_id = match state.player_id {
                    Some(p) => p,
                    None => {
                        return Err(Error::NotFoundException);
                    },
                };
                let mob_id = match container.players.get_mob(player_id) {
                    Some(m) => m,
                    None => {
                        return Err(Error::NotFoundException);
                    },
                };
                actions::look(container, mob_id)
            },
            ConnectionView::Login => {
                let msg = view_login::handle_welcome();
                self.push_output(connection_id, msg);
                Ok(())
            },
            ConnectionView::Admin => {
                let msg = view_admin::handle_welcome();
                self.push_output(connection_id, msg);
                Ok(())
            },
        }
    }

    /// Apply what handling an input asked of a connection (see `applied`).
    pub fn apply_action(
        &mut self,
        container: &mut Container,
        connection_id: ConnectionId,
        view_action: ConnectionViewAction,
    ) -> (r: Result<()>)
        requires
            old(container).wf(),
            old(self).wf(),
            old(self).connections().contains_key(connection_id.0),
        ensures
            final(container).wf(),
            final(self).wf(),
            final(self).with_input() == old(self).with_input(),
            applied(
                old(self).connections(),
                old(self).by_player(),
                old(self).outputs(),
                final(self),
                old(container),
                final(container),
                connection_id,
                view_action,
                r,
            ),
    {
        let state = *self.connections.get(&connection_id.0).unwrap();
        match view_action {
            ConnectionViewAction::NoAction => Ok(()),
            ConnectionViewAction::SwitchView(view) => {
                self.connections.insert(connection_id.0, ConnectionState { view, ..state });
                self.handle_view_welcome(container, connection_id)
            },
            ConnectionViewAction::Login(player_id) => {
                self.connections.insert(
                    connection_id.0,
                    ConnectionState { view: ConnectionView::Game, player_id: Some(player_id), ..state },
                );
                self.connection_id_by_player_id.insert(player_id.0, connection_id.0);
                self.handle_view_welcome(container, connection_id)
            },
            ConnectionViewAction::Logout => {
                let old_player_id = state.player_id;
                self.connections.insert(
                    connection_id.0,
                    ConnectionState { view: ConnectionView::Login, player_id: None, ..state },
                );
                match old_player_id {
                    Some(player_id) => {
                        self.connection_id_by_player_id.remove(&player_id.0);
                    },
                    None => {},
                }
                self.handle_view_welcome(container, connection_id)
            },
        }
    }
}

impl ConnectionController {
    /// A new connection starts at the login prompt, greeted.
    pub fn add_connection(&mut self, container: &mut Container, connection_id: ConnectionId)
        requires
            old(container).wf(),
            old(self).wf(),
        ensures
            final(container).wf(),
            final(self).wf(),
            *final(container) == *old(container),
            final(self).connections() == old(self).connections().insert(
                connection_id.0,
                ConnectionState { connection_id, player_id: None, view: ConnectionView::Login },
            ),
            final(self).by_player() == old(self).by_player(),
            final(self).with_input() == old(self).with_input(),
            final(self).outputs() == old(self).outputs().push((connection_id, welcome_text())),
    {
        self.connections.insert(
            connection_id.0,
            ConnectionState { connection_id, player_id: None, view: ConnectionView::Login },
        );
        let _ = self.apply_action(container, connection_id, ConnectionViewAction::SwitchView(ConnectionView::Login));
    }

    /// A connection goes away; nothing else changes.
    pub fn disconnect(&mut self, container: &mut Container, connection_id: ConnectionId)
        requires
            old(self).wf(),
        ensures
            final(self).wf(),
            *final(container) == *old(container),
            final(self).connections() == old(self).connections().remove(connection_id.0),
            final(self).by_player() == old(self).by_player(),
            final(self).with_input() == old(self).with_input(),
            final(self).outputs() == old(self).outputs(),
    {
        let state = match self.connections.get(&connection_id.0) {
            Some(state) => *state,
            None => {
                return;
            },
        };
        match state.player_id {
            Some(player_id) => crate::game::avatars::on_player_disconnect(container, player_id),
            None => {},
        }
        self.connections.remove(&connection_id.0);
    }

    /// Handle a line typed through a connection, by the view it is in (see `input_handled`).
    /// `fits` says whether an avatar can carry an item.
    pub fn handle_input<F: Fn(ItemId) -> bool>(
        &mut self,
        container: &mut Container,
        connection_id: ConnectionId,
        input: &str,
        fits: F,
    ) -> (r: InputOutcome)
        requires
            old(container).wf(),
            old(self).wf(),
            old(self).connections().contains_key(connection_id.0),
            forall|i: ItemId| fits.requires((i,)),
            ({
                let st = old(self).connections()[connection_id.0];
                st.view == ConnectionView::Game && st.player_id is Some ==> {
                    let p = st.player_id->0;
                    old(container).players@.contains_key(p.0) && handle_allowed(
                        old(container),
                        old(container).players@[p.0].mob_id,
                        input,
                    )
                }
            }),
        ensures
            final(container).wf(),
            final(self).wf(),
            input_handled(old(self), final(self), old(container), final(container), connection_id, input, fits, r),
    {
        self.connections_with_input.insert(connection_id.0);
        let state = *self.connections.get(&connection_id.0).unwrap();
        match state.view {
            ConnectionView::Login => match view_login::handle(input) {
                LoginResult::Msg { msg } => {
                    self.push_output(connection_id, msg);
                    let r = InputOutcome::Handled;
                    proof {
                        assert(input_handled(old(self), self, old(container), container, connection_id, input, fits, r));
                    }
                    r
                },
                LoginResult::Login { login } => {
                    self.push_output(connection_id, view_login::on_login_success(login.as_str()));
                    match crate::game::avatars::on_player_login(container, login.as_str()) {
                        Some(player_id) => {
                            let ghost os = self.outputs();
                            proof {
                                assert(container.players@.contains_key(player_id.0));
                                assert(container.players@[player_id.0].login@ == input@);
                                assert(os == old(self).outputs().push((connection_id, login_success_text(input@))));
                            }
                            let ar = self.apply_action(container, connection_id, ConnectionViewAction::Login(player_id));
                            proof {
                                assert(applied(
                                    old(self).connections(),
                                    old(self).by_player(),
                                    os,
                                    self,
                                    old(container),
                                    container,
                                    connection_id,
                                    ConnectionViewAction::Login(player_id),
                                    ar,
                                ));
                            }
                            let r = InputOutcome::Handled;
                            proof {
                                assert(input_handled(old(self), self, old(container), container, connection_id, input, fits, r));
                            }
                            r
                        },
                        None => {
                            let ghost os = self.outputs();
                            match crate::game::avatars::spawn_player(container, login.as_str()) {
                                Ok(player_id) => {
                                    let ghost mid = *container;
                                    let ar = self.apply_action(container, connection_id, ConnectionViewAction::Login(player_id));
                                    proof {
                                        assert(spawn_ready(old(container)));
                                        assert(player_id == ObjId(old(container).objects.next_id()));
                                        assert(os == old(self).outputs().push((connection_id, login_success_text(input@))));
                                        assert(spawned_player(old(container), &mid, input@, Ok(player_id)));
                                        assert(!exists|p: u32| old(container).players@.contains_key(p) && old(container).players@[p].login@ == input@);
                                        assert(applied(
                                            old(self).connections(),
                                            old(self).by_player(),
                                            os,
                                            self,
                                            &mid,
                                            container,
                                            connection_id,
                                            ConnectionViewAction::Login(player_id),
                                            ar,
                                        ));
                                    }
                                    let r = InputOutcome::Handled;
                                    proof {
                                        assert(input_handled(old(self), self, old(container), container, connection_id, input, fits, r));
                                    }
                                    r
                                },
                                Err(_) => {
                                    let r = InputOutcome::NewPlayer { login };
                                    proof {
                                        assert(input_handled(old(self), self, old(container), container, connection_id, input, fits, r));
                                    }
                                    r
                                },
                            }
                        },
                    }
                },
            },
            ConnectionView::Game => match state.player_id {
                None => {
                    let ar = self.apply_action(
                        container,
                        connection_id,
                        ConnectionViewAction::SwitchView(ConnectionView::Login),
                    );
                    proof {
                        assert(applied(
                            old(self).connections(),
                            old(self).by_player(),
                            old(self).outputs(),
                            self,
                            old(container),
                            container,
                            connection_id,
                            ConnectionViewAction::SwitchView(ConnectionView::Login),
                            ar,
                        ));
                    }
                    InputOutcome::Handled
                },
                Some(player_id) => {
                    let mob_id = container.players.get_mob(player_id).unwrap();
                    let done = view_main::handle(container, mob_id, input, fits);
                    let ghost mid = *container;
                    proof {
                        assert(main_handled(old(container), &mid, mob_id, input, fits, done));
                    }
                    match done {
                        Ok(MainOutcome::Action(action)) => {
                            let ar = self.apply_action(container, connection_id, action);
                            proof {
                                assert(applied(
                                    old(self).connections(),
                                    old(self).by_player(),
                                    old(self).outputs(),
                                    self,
                                    &mid,
                                    container,
                                    connection_id,
                                    action,
                                    ar,
                                ));
                            }
                            InputOutcome::Handled
                        },
                        Ok(MainOutcome::Pending(command)) => InputOutcome::Game(command),
                        Err(_) => InputOutcome::Handled,
                    }
                },
            },
            ConnectionView::Admin => {
                let mut outputs: Vec<String> = Vec::new();
                let done = view_admin::handle(container, &mut outputs, input);
                let ghost mid = *container;
                let ghost outs = outputs@;
                proof {
                    assert(view_admin::string_views(Seq::<String>::empty()) =~= Seq::<Seq<char>>::empty());
                    assert(admin_handled(old(container), &mid, Seq::empty(), view_admin::string_views(outs), input@, done));
                }
                self.add_admin_outputs(connection_id, outputs);
                match done {
                    Ok(AdminOutcome::Action(action)) => {
                        let ghost os = self.outputs();
                        proof {
                            assert(os == old(self).outputs() + admin_sent(connection_id, outs));
                        }
                        let ar = self.apply_action(container, connection_id, action);
                        proof {
                            assert(applied(
                                old(self).connections(),
                                old(self).by_player(),
                                os,
                                self,
                                &mid,
                                container,
                                connection_id,
                                action,
                                ar,
                            ));
                        }
                        let r = InputOutcome::Handled;
                        proof {
                            assert(input_handled(old(self), self, old(container), container, connection_id, input, fits, r));
                        }
                        r
                    },
                    Ok(AdminOutcome::Pending(command)) => {
                        let r = InputOutcome::Admin(command);
                        proof {
                            assert(self.outputs() == old(self).outputs() + admin_sent(connection_id, outs));
                            assert(input_handled(old(self), self, old(container), container, connection_id, input, fits, r));
                        }
                        r
                    },
                    Err(_) => {
                        let r = InputOutcome::Handled;
                        proof {
                            assert(input_handled(old(self), self, old(container), container, connection_id, input, fits, r));
                        }
                        r
                    },
                }
            },
        }
    }
}

impl ConnectionController {
    /// Send what the admin view answered through the connection (see `admin_sent`).
    pub fn add_admin_outputs(&mut self, connection_id: ConnectionId, outputs: Vec<String>)
        ensures
            final(self).connections() == old(self).connections(),
            final(self).by_player() == old(self).by_player(),
            final(self).with_input() == old(self).with_input(),
            final(self).outputs() == old(self).outputs() + admin_sent(connection_id, outputs@),
    {
        let mut i: usize = 0;
        while i < outputs.len()
            invariant
                i <= outputs.len(),
                self.connections() == old(self).connections(),
                self.by_player() == old(self).by_player(),
                self.with_input() == old(self).with_input(),
                self.outputs() == old(self).outputs() + admin_sent(connection_id, outputs@.take(i as int)),
            decreases outputs.len() - i,
        {
            proof {
                assert(outputs@.take(i + 1).drop_last() =~= outputs@.take(i as int));
            }
            self.push_output(connection_id, outputs[i].clone());
            self.push_output(connection_id, String::from_str("\n"));
            proof {
                assert(self.outputs() =~= old(self).outputs() + admin_sent(connection_id, outputs@.take(i + 1)));
            }
            i = i + 1;
        }
        proof {
            assert(outputs@.take(outputs.len() as int) =~= outputs@);
        }
    }

    /// The connection of the player, if it is logged in.
    pub fn connection_id_from_player_id(&self, player_id: PlayerId) -> (r: Option<ConnectionId>)
        ensures
            match r {
                Some(k) => self.by_player().contains_key(player_id.0) && k.0 == self.by_player()[player_id.0],
                None => !self.by_player().contains_key(player_id.0),
            },
    {
        match self.connection_id_by_player_id.get(&player_id.0) {
            Some(k) => Some(ConnectionId(*k)),
            None => None,
        }
    }

    /// The player logged in through the connection, if any.
    pub fn player_id_from_connection_id(&self, connection_id: ConnectionId) -> (r: Option<PlayerId>)
        ensures
            r == if self.connections().contains_key(connection_id.0) {
                self.connections()[connection_id.0].player_id
            } else {
                None
            },
    {
        match self.connections.get(&connection_id.0) {
            Some(state) => state.player_id,
            None => None,
        }
    }
}

/// The game outputs, delivered: for each of them, what `delivered` gives, in order.
pub open spec fn converted(
    c: &Container,
    bp: Map<u32, u32>,
    outs: Seq<Output>,
    o1: Seq<(ConnectionId, Seq<char>)>,
    o2: Seq<(ConnectionId, Seq<char>)>,
) -> bool {
    exists|segs: Seq<Seq<(ConnectionId, Seq<char>)>>|
        #![trigger segs.flatten()]
        segs.len() == outs.len() && (forall|i: int| 0 <= i < segs.len() ==> delivered(c, bp, outs[i], #[trigger] segs[i]))
            && o2 == o1 + segs.flatten()
}

impl ConnectionController {
    /// The text of each game output to send, with a new line, through the connections of the
    /// players it is for (see `delivered`). The game outputs are taken.
    fn convert_to_connections_output(&mut self, container: &mut Container)
        requires
            old(container).wf(),
        ensures
            final(container).wf(),
            final(container).outputs@ == Seq::<Output>::empty(),
            crate::game::actions_items::same_but_outputs(old(container), final(container)),
            final(self).connections() == old(self).connections(),
            final(self).by_player() == old(self).by_player(),
            final(self).with_input() == old(self).with_input(),
            converted(old(container), old(self).by_player(), old(container).outputs@, old(self).outputs(), final(self).outputs()),
    {
        let outputs = container.outputs.take();
        let ghost c0 = *old(container);
        let ghost bp = self.by_player();
        let ghost o0 = self.outputs();
        let ghost mut segs: Seq<Seq<(ConnectionId, Seq<char>)>> = Seq::empty();
        let mut i: usize = 0;
        while i < outputs.len()
            invariant
                i <= outputs.len(),
                outputs@ == c0.outputs@,
                container.wf(),
                crate::game::actions_items::same_but_outputs(&c0, container),
                container.outputs@ == Seq::<Output>::empty(),
                c0.wf(),
                self.connections() == old(self).connections(),
                self.by_player() == bp,
                self.with_input() == old(self).with_input(),
                segs.len() == i,
                forall|j: int| 0 <= j < i ==> delivered(&c0, bp, outputs@[j], #[trigger] segs[j]),
                self.outputs() == o0 + segs.flatten(),
            decreases outputs.len() - i,
        {
            let ghost before = self.outputs();
            match &outputs[i] {
                Output::Private { mob_id, msg } => {
                    let mut text = msg.clone();
                    text.append("\n");
                    match container.players.find_from_mob(*mob_id) {
                        Some(player_id) => {
                            match self.connection_id_from_player_id(player_id) {
                                Some(k) => {
                                    self.push_output(k, text);
                                    proof {
                                        assert(self.outputs().subrange(before.len() as int, self.outputs().len() as int)
                                            =~= seq![(ConnectionId(bp[player_id.0]), msg@ + "\n"@)]);
                                    }
                                },
                                None => {
                                    proof {
                                        assert(self.outputs().subrange(before.len() as int, self.outputs().len() as int)
                                            =~= Seq::<(ConnectionId, Seq<char>)>::empty());
                                    }
                                },
                            }
                            proof {
                                assert(c0.players@.contains_key(player_id.0) && c0.players@[player_id.0].mob_id == *mob_id);
                            }
                        },
                        None => {
                            proof {
                                assert(self.outputs().subrange(before.len() as int, self.outputs().len() as int)
                                    =~= Seq::<(ConnectionId, Seq<char>)>::empty());
                                assert(!exists|p: u32| c0.players@.contains_key(p) && c0.players@[p].mob_id == *mob_id);
                            }
                        },
                    }
                },
                Output::Broadcast { exclude, location_id, recursive, msg } => {
                    let mut text = msg.clone();
                    text.append("\n");
                    let exclude_player = match exclude {
                        Some(m) => container.players.find_from_mob(*m),
                        None => None,
                    };
                    let players = if *recursive {
                        find_deep_players_in(container, *location_id)
                    } else {
                        find_players_in(container, *location_id)
                    };
                    let mut j: usize = 0;
                    while j < players.len()
                        invariant
                            j <= players.len(),
                            self.connections() == old(self).connections(),
                            self.by_player() == bp,
                            self.with_input() == old(self).with_input(),
                            self.outputs() == before + sends(players@.take(j as int), exclude_player, bp, text@),
                        decreases players.len() - j,
                    {
                        proof {
                            assert(players@.take(j + 1).drop_last() =~= players@.take(j as int));
                        }
                        let p = players[j];
                        if Some(p) != exclude_player {
                            match self.connection_id_from_player_id(p) {
                                Some(k) => {
                                    self.push_output(k, text.clone());
                                },
                                None => {},
                            }
                        }
                        proof {
                            assert(self.outputs() =~= before + sends(players@.take(j + 1), exclude_player, bp, text@));
                        }
                        j = j + 1;
                    }
                    proof {
                        assert(players@.take(players.len() as int) =~= players@);
                        let seg = self.outputs().subrange(before.len() as int, self.outputs().len() as int);
                        assert(seg =~= sends(players@, exclude_player, bp, msg@ + "\n"@));
                        let set = if *recursive {
                            descendants(c0.locations@, location_id.0)
                        } else {
                            children(c0.locations@, location_id.0)
                        };
                        assert(players_of(&c0, set, players@));
                        assert(excluded(&c0, *exclude, exclude_player));
                    }
                },
            }
            proof {
                let seg = self.outputs().subrange(before.len() as int, self.outputs().len() as int);
                assert(self.outputs() =~= before + seg);
                assert(delivered(&c0, bp, outputs@[i as int], seg));
                segs.lemma_flatten_push(seg);
                segs = segs.push(seg);
            }
            i = i + 1;
        }
    }
}

/// The connections whose player sent no input: they get an empty line before anything else.
pub open spec fn needs_new_line(c: &ConnectionController) -> spec_fn(u32) -> bool {
    |k: u32| c.connections().contains_key(k) && c.connections()[k].player_id is Some && !c.with_input().contains(k)
}

/// The connections whose player is logged in.
pub open spec fn has_player(c: &ConnectionController) -> spec_fn(u32) -> bool {
    |k: u32| c.connections().contains_key(k) && c.connections()[k].player_id is Some
}

/// A connection is among the first appearances exactly where it is kept and appears.
proof fn lemma_firsts(os: Seq<(ConnectionId, Seq<char>)>, keep: spec_fn(u32) -> bool, k: u32)
    ensures
        firsts(os, keep).contains(k) <==> keep(k) && exists|j: int| 0 <= j < os.len() && os[j].0.0 == k,
    decreases os.len(),
{
    if os.len() > 0 {
        let rest = os.drop_last();
        lemma_firsts(rest, keep, k);
        let f = firsts(rest, keep);
        let x = os.last().0.0;
        if exists|j: int| 0 <= j < rest.len() && rest[j].0.0 == k {
            let j = choose|j: int| 0 <= j < rest.len() && rest[j].0.0 == k;
            assert(os[j].0.0 == k);
        }
        if exists|j: int| 0 <= j < os.len() && os[j].0.0 == k {
            let j = choose|j: int| 0 <= j < os.len() && os[j].0.0 == k;
            if j < os.len() - 1 {
                assert(rest[j].0.0 == k);
            }
        }
        if keep(x) && !f.contains(x) {
            assert(f.push(x).contains(k) <==> f.contains(k) || k == x) by {
                if f.push(x).contains(k) && k != x {
                    let i = choose|i: int| 0 <= i < f.push(x).len() && f.push(x)[i] == k;
                    assert(f[i] == k);
                }
                if f.contains(k) {
                    let i = choose|i: int| 0 <= i < f.len() && f[i] == k;
                    assert(f.push(x)[i] == k);
                }
                if k == x {
                    assert(f.push(x)[f.len() as int] == k);
                }
            }
        }
    }
}

pub(crate) fn contains_id(v: &Vec<u32>, k: u32) -> (r: bool)
    ensures
        r == v@.contains(k),
{
    let mut i: usize = 0;
    while i < v.len()
        invariant
            i <= v.len(),
            forall|j: int| 0 <= j < i ==> v@[j] != k,
        decreases v.len() - i,
    {
        if v[i] == k {
            return true;
        }
        i = i + 1;
    }
    false
}

impl ConnectionController {
    /// An empty line goes first to each connection that gets some text and whose player sent no
    /// input (see `needs_new_line`), the last to appear first.
    fn normalize_connection_outputs(&mut self)
        ensures
            final(self).connections() == old(self).connections(),
            final(self).by_player() == old(self).by_player(),
            final(self).with_input() == old(self).with_input(),
            final(self).outputs() == new_lines(firsts(old(self).outputs(), needs_new_line(old(self)))) + old(self).outputs(),
    {
        let ghost os = self.outputs();
        let ghost keep = needs_new_line(self);
        let ghost seen = has_player(self);
        let mut append_cursor_ids: Vec<u32> = Vec::new();
        let mut new_lines_ids: Vec<u32> = Vec::new();
        let mut i: usize = 0;
        while i < self.server_outputs.len()
            invariant
                i <= self.server_outputs.len(),
                self.outputs() == os,
                keep == needs_new_line(self),
                seen == has_player(self),
                append_cursor_ids@ == firsts(os.take(i as int), seen),
                new_lines_ids@ == firsts(os.take(i as int), keep),
            decreases self.server_outputs.len() - i,
        {
            let k = self.server_outputs[i].0.0;
            let ghost t0 = os.take(i as int);
            proof {
                assert(os.take(i + 1).drop_last() =~= t0);
                assert(os[i as int] == sent(self.server_outputs@[i as int]));
                lemma_firsts(t0, seen, k);
                lemma_firsts(t0, keep, k);
            }
            let player = self.player_id_from_connection_id(ConnectionId(k));
            if player.is_some() && !contains_id(&append_cursor_ids, k) {
                append_cursor_ids.push(k);
                if !self.connections_with_input.contains(&k) && !contains_id(&new_lines_ids, k) {
                    new_lines_ids.push(k);
                }
            }
            i = i + 1;
        }
        proof {
            assert(os.take(os.len() as int) =~= os);
        }
        let ghost mid = self.outputs();
        let mut j: usize = 0;
        while j < new_lines_ids.len()
            invariant
                j <= new_lines_ids.len(),
                new_lines_ids@ == firsts(os, keep),
                self.connections() == old(self).connections(),
                self.by_player() == old(self).by_player(),
                self.with_input() == old(self).with_input(),
                self.outputs() == new_lines(new_lines_ids@.take(j as int)) + os,
            decreases new_lines_ids.len() - j,
        {
            let k = new_lines_ids[j];
            let ghost before = self.outputs();
            let ghost vb = self.server_outputs@;
            self.server_outputs.insert(0, (ConnectionId(k), String::from_str("\n")));
            proof {
                assert forall|x: int| 0 <= x < self.outputs().len() implies self.outputs()[x] == (seq![
                    (ConnectionId(k), "\n"@),
                ] + before)[x] by {
                    if x > 0 {
                        assert(self.server_outputs@[x] == vb[x - 1]);
                    }
                }
                assert(self.outputs() =~= seq![(ConnectionId(k), "\n"@)] + before);
                assert(new_lines_ids@.take(j + 1) =~= new_lines_ids@.take(j as int).push(k));
                assert(new_lines(new_lines_ids@.take(j + 1)) =~= seq![(ConnectionId(k), "\n"@)] + new_lines(
                    new_lines_ids@.take(j as int),
                ));
                assert(self.outputs() =~= new_lines(new_lines_ids@.take(j + 1)) + os);
            }
            j = j + 1;
        }
        proof {
            assert(new_lines_ids@.take(new_lines_ids.len() as int) =~= new_lines_ids@);
        }
    }

    /// Everything to send since the last time, through each connection: the game outputs
    /// delivered (see `converted`), after the texts already there, and an empty line first for
    /// the connections whose player sent no input (see `normalize_connection_outputs`). Nothing
    /// is left to send, and no connection has sent input.
    pub fn flush_outputs(&mut self, container: &mut Container) -> (r: Vec<(ConnectionId, String)>)
        requires
            old(container).wf(),
        ensures
            final(container).wf(),
            final(container).outputs@ == Seq::<Output>::empty(),
            crate::game::actions_items::same_but_outputs(old(container), final(container)),
            final(self).connections() == old(self).connections(),
            final(self).by_player() == old(self).by_player(),
            final(self).with_input() == Set::<u32>::empty(),
            final(self).outputs() == Seq::<(ConnectionId, Seq<char>)>::empty(),
            exists|mid: Seq<(ConnectionId, Seq<char>)>|
                #![trigger firsts(mid, needs_new_line(old(self)))]
                converted(old(container), old(self).by_player(), old(container).outputs@, old(self).outputs(), mid)
                    && r@.map_values(|o: (ConnectionId, String)| sent(o)) == new_lines(
                    firsts(mid, needs_new_line(old(self))),
                ) + mid,
    {
        self.convert_to_connections_output(container);
        let ghost mid = self.outputs();
        proof {
            let k1 = needs_new_line(self);
            assert(k1 =~= needs_new_line(old(self)));
        }
        self.normalize_connection_outputs();
        self.connections_with_input.clear();
        let mut r: Vec<(ConnectionId, String)> = Vec::new();
        std::mem::swap(&mut self.server_outputs, &mut r);
        proof {
            assert(self.outputs() =~= Seq::<(ConnectionId, Seq<char>)>::empty());
            assert(self.with_input() =~= Set::<u32>::empty());
        }
        r
    }
}

/// Law: a player that logs in through a connection and then logs out leaves the players'
/// connections as they were, and the connection back at the login view with no player.
pub proof fn login_then_logout_restores(
    a: &ConnectionController,
    b1: &ConnectionController,
    b2: &ConnectionController,
    c0: &Container,
    c1: &Container,
    c2: &Container,
    connection_id: ConnectionId,
    player_id: PlayerId,
    r1: Result<()>,
    r2: Result<()>,
)
    requires
        a.wf(),
        !a.by_player().contains_key(player_id.0),
        applied(a.connections(), a.by_player(), a.outputs(), b1, c0, c1, connection_id, ConnectionViewAction::Login(player_id), r1),
        applied(b1.connections(), b1.by_player(), b1.outputs(), b2, c1, c2, connection_id, ConnectionViewAction::Logout, r2),
    ensures
        b2.by_player() == a.by_player(),
        b2.connections()[connection_id.0].player_id is None,
        b2.connections()[connection_id.0].view == ConnectionView::Login,
        b2.connections().dom() == a.connections().dom().insert(connection_id.0),
{
    assert(b1.connections()[connection_id.0].player_id == Some(player_id));
    assert(b2.by_player() =~= a.by_player());
    assert(b2.connections().dom() =~= a.connections().dom().insert(connection_id.0));
}

/// Law: a new connection that goes away again leaves the connections, the players'
/// connections and the game as they were.
pub proof fn connect_then_disconnect_restores(
    a: &ConnectionController,
    b1: &ConnectionController,
    b2: &ConnectionController,
    connection_id: ConnectionId,
)
    requires
        !a.connections().contains_key(connection_id.0),
        b1.connections() == a.connections().insert(
            connection_id.0,
            ConnectionState { connection_id, player_id: None, view: ConnectionView::Login },
        ),
        b1.by_player() == a.by_player(),
        b2.connections() == b1.connections().remove(connection_id.0),
        b2.by_player() == b1.by_player(),
    ensures
        b2.connections() == a.connections(),
        b2.by_player() == a.by_player(),
{
    assert(b2.connections() =~= a.connections());
}

} // verus!
