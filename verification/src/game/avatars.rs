use crate::errors::{Error, Result};
use crate::game::container::Container;
use crate::game::labels::Label;
use crate::game::location::{children, descendants, obj_values, LocationId};
use crate::game::mob::MobId;
use crate::game::loader::Loader;
use crate::game::loader::apply::{all_resolve, spawnable, spawnable_after, spawnable_with, spawned};
use crate::ids::ObjId;
use crate::ids::PlayerId;
use vstd::prelude::*;
use vstd::string::StringExecFns;

verus! {

broadcast use vstd::set::group_set_axioms;

/// Nothing happens when a player leaves.
pub fn on_player_disconnect(_container: &mut Container, _player_id: PlayerId)
    ensures
        *final(_container) == *old(_container),
{
}

/// The player with that login, where there is one; else a new player is to be made, with an
/// avatar spawned from the avatar prefab (see `create_player`).
pub fn on_player_login(container: &Container, login: &str) -> (r: Option<PlayerId>)
    requires
        container.wf(),
    ensures
        match r {
            Some(id) => container.players@.contains_key(id.0) && container.players@[id.0].login@ == login@,
            None => forall|k: u32| #[trigger] container.players@.contains_key(k) ==> container.players@[k].login@ != login@,
        },
{
    container.players.login(login)
}

/// `f` is `c` with the player made for the login, the mob its avatar named after the login.
pub open spec fn player_created(c: &Container, f: &Container, player_id: PlayerId, login: Seq<char>, mob_id: MobId) -> bool {
    &&& f.players@.dom() == c.players@.dom().insert(player_id.0)
    &&& f.players@[player_id.0].id == player_id
    &&& f.players@[player_id.0].login@ == login
    &&& f.players@[player_id.0].mob_id == mob_id
    &&& forall|k: u32| k != player_id.0 ==> #[trigger] f.players@.get(k) == c.players@.get(k)
    &&& f.mobs@.dom() == c.mobs@.dom()
    &&& f.mobs@[mob_id.0].is_avatar
    &&& f.mobs@[mob_id.0].id == c.mobs@[mob_id.0].id
    &&& f.mobs@[mob_id.0].attributes == c.mobs@[mob_id.0].attributes
    &&& f.mobs@[mob_id.0].xp == c.mobs@[mob_id.0].xp
    &&& f.mobs@[mob_id.0].followers@ == c.mobs@[mob_id.0].followers@
    &&& forall|k: u32| k != mob_id.0 ==> #[trigger] f.mobs@.get(k) == c.mobs@.get(k)
    &&& f.labels@.dom() == c.labels@.dom().insert(player_id.0)
    &&& f.labels@[mob_id.0].id == mob_id && f.labels@[mob_id.0].label@ == login && f.labels@[mob_id.0].desc@ == login
    &&& f.labels@[player_id.0].id == player_id && f.labels@[player_id.0].label@ == login
    &&& f.labels@[player_id.0].desc@ == "Player "@ + login
    &&& forall|k: u32| k != mob_id.0 && k != player_id.0 ==> #[trigger] f.labels@.get(k) == c.labels@.get(k)
    &&& f.objects@ == c.objects@ && f.objects.next_id() == c.objects.next_id()
    &&& f.locations@ == c.locations@ && f.items@ == c.items@ && f.rooms@ == c.rooms@
    &&& f.equips@ == c.equips@ && f.outputs@ == c.outputs@
    &&& f.astro_bodies@ == c.astro_bodies@ && f.hires@ == c.hires@ && f.ai@ == c.ai@
    &&& f.extractables@ == c.extractables@
}

/// Make the player of a login, with a new id and the mob, already spawned, as avatar: the mob is
/// named after the login and becomes an avatar, and the player is labelled. `NotFoundFailure`
/// where there is no such mob or it has no label.
pub fn create_player(container: &mut Container, player_id: PlayerId, login: &str, mob_id: MobId) -> (r: Result<PlayerId>)
    requires
        old(container).wf(),
        player_id.0 < old(container).objects.next_id(),
        !old(container).labels@.contains_key(player_id.0),
        player_id.0 != mob_id.0,
    ensures
        final(container).wf(),
        !(old(container).mobs@.contains_key(mob_id.0) && old(container).labels@.contains_key(mob_id.0)) ==> (r matches Err(
            Error::NotFoundFailure,
        )) && *final(container) == *old(container),
        old(container).mobs@.contains_key(mob_id.0) && old(container).labels@.contains_key(mob_id.0) ==> r == Ok::<
            PlayerId,
            Error,
        >(player_id) && player_created(old(container), final(container), player_id, login@, mob_id),
        final(container).config == old(container).config,
{
    if !container.mobs.exist(mob_id) || container.labels.get(mob_id).is_none() {
        return Err(Error::NotFoundFailure);
    }
    container.labels.update(Label::new(mob_id, login));
    container.mobs.set_avatar(mob_id);
    container.players.create(player_id, login.to_owned(), mob_id);
    let mut desc = String::from_str("Player ");
    desc.append(login);
    container.labels.add(Label::new_desc(player_id, login, desc.as_str()));
    proof {
        assert(container.labels@.dom() =~= old(container).labels@.dom().insert(player_id.0));
    }
    Ok(player_id)
}

/// A new player can be made: the initial room and the avatar prefab, with a mob and a label
/// (the game stops otherwise), are set up, the room is an object made already, two more ids can
/// be given, and the avatar prefab can be spawned in the room under the second of them, its
/// static ids resolving (see `spawnable`; they may name the first).
pub open spec fn spawn_ready(c: &Container) -> bool {
    let n = c.objects.next_id();
    &&& c.config.initial_room is Some
    &&& c.config.avatar is Some
    &&& c.config.avatar.unwrap().mob is Some
    &&& c.config.avatar.unwrap().label is Some
    &&& c.config.initial_room.unwrap().0 < n
    &&& n + 1 < u32::MAX
    &&& spawnable_with(
        c.objects@.insert(n).insert((n + 1) as u32),
        (n + 1) as u32,
        c.hires@,
        c.ai@,
        c.config.avatar.unwrap(),
        c.config.initial_room.unwrap(),
    )
    &&& all_resolve(c.objects@.insert(n).insert((n + 1) as u32), Map::<u32, ObjId>::empty(), c.config.avatar.unwrap())
}

/// What making a new player does (see `spawn_player`).
pub open spec fn spawned_player(c: &Container, f: &Container, login: Seq<char>, r: Result<PlayerId>) -> bool {
    if spawn_ready(c) {
        let n = c.objects.next_id();
        let m = (n + 1) as u32;
        &&& r == Ok::<PlayerId, Error>(ObjId(n))
        &&& exists|c1: Container, c2: Container|
            #![trigger spawned(&c1, &c2, m, c.config.avatar.unwrap(), c.config.initial_room.unwrap())]
            c1.objects@ == c.objects@.insert(n) && c1.objects.next_id() == n + 1 && c1.labels@ == c.labels@
                && c1.locations@ == c.locations@ && c1.items@ == c.items@ && c1.mobs@ == c.mobs@ && c1.rooms@ == c.rooms@
                && c1.rooms.rooms() == c.rooms.rooms() && c1.hires@ == c.hires@ && c1.players@ == c.players@
                && c1.ai@ == c.ai@ && c1.equips@ == c.equips@ && c1.outputs@ == c.outputs@ && c1.astro_bodies@
                == c.astro_bodies@ && c1.extractables@ == c.extractables@ && spawned(
                &c1,
                &c2,
                m,
                c.config.avatar.unwrap(),
                c.config.initial_room.unwrap(),
            ) && player_created(&c2, f, ObjId(n), login, ObjId(m))
        &&& f.config == c.config
    } else {
        r == Err::<PlayerId, Error>(Error::InvalidStateFailure) && *f == *c
    }
}

/// Make the player of a login seen for the first time: a new player id, then an avatar spawned
/// from the avatar prefab in the initial room, named after the login and made the player's
/// avatar (see `create_player`). `InvalidStateFailure`, and nothing changes, where the game is
/// not set up for it (see `spawn_ready`).
pub fn spawn_player(container: &mut Container, login: &str) -> (r: Result<PlayerId>)
    requires
        old(container).wf(),
    ensures
        final(container).wf(),
        spawned_player(old(container), final(container), login@, r),
{
    let room = match container.config.initial_room {
        Some(room) => room,
        None => {
            return Err(Error::InvalidStateFailure);
        },
    };
    let next = container.objects.peek_next();
    if room.0 >= next || next >= u32::MAX - 1 {
        return Err(Error::InvalidStateFailure);
    }
    let ready = match &container.config.avatar {
        Some(avatar) => avatar.mob.is_some() && avatar.label.is_some() && spawnable_after(&container.objects, next, &container.hires, &container.ai, avatar, room),
        None => false,
    };
    if !ready {
        return Err(Error::InvalidStateFailure);
    }
    let ghost c0 = *container;
    let avatar = container.config.avatar.take().unwrap();
    let player_id = container.objects.create();
    let ghost c1 = *container;
    proof {
        assert(avatar == c0.config.avatar.unwrap());
        assert(spawnable(&c1, avatar, room));
        assert(all_resolve(c1.objects@.insert((next + 1) as u32), Map::<u32, ObjId>::empty(), avatar));
    }
    let mob_id = match Loader::spawn_at(container, &avatar, room) {
        Ok(id) => id,
        Err(_) => {
            container.config.avatar = Some(avatar);
            return Err(Error::InvalidStateFailure);
        },
    };
    let ghost c2 = *container;
    proof {
        assert(c2.mobs@.contains_key(mob_id.0) && c2.labels@.contains_key(mob_id.0));
        assert(!c2.labels@.contains_key(player_id.0));
    }
    let r = create_player(container, player_id, login, mob_id);
    container.config.avatar = Some(avatar);
    proof {
        assert(spawned(&c1, &c2, mob_id.0, c0.config.avatar.unwrap(), c0.config.initial_room.unwrap()));
    }
    r
}

/// The players whose avatar is among `ids`, one for each avatar, in no given order.
pub open spec fn players_of(c: &Container, ids: Set<u32>, r: Seq<PlayerId>) -> bool {
    &&& r.no_duplicates()
    &&& forall|i: int| 0 <= i < r.len() ==> c.players@.contains_key(#[trigger] r[i].0) && ids.contains(c.players@[r[i].0].mob_id.0)
    &&& forall|m: u32| #[trigger] ids.contains(m) && (exists|p: u32| c.players@.contains_key(p) && c.players@[p].mob_id.0 == m)
        ==> exists|i: int| 0 <= i < r.len() && c.players@[r[i].0].mob_id.0 == m
}

fn players_of_ids(container: &Container, ids: &Vec<MobId>) -> (r: Vec<PlayerId>)
    requires
        container.wf(),
        obj_values(ids@).no_duplicates(),
    ensures
        players_of(container, obj_values(ids@).to_set(), r@),
{
    let mut r: Vec<PlayerId> = Vec::new();
    let mut i: usize = 0;
    while i < ids.len()
        invariant
            container.wf(),
            i <= ids.len(),
            obj_values(ids@).no_duplicates(),
            players_of(container, obj_values(ids@).take(i as int).to_set(), r@),
        decreases ids.len() - i,
    {
        let ghost s0 = obj_values(ids@).take(i as int).to_set();
        let ghost m = ids@[i as int].0;
        proof {
            assert(obj_values(ids@).take(i + 1) =~= obj_values(ids@).take(i as int).push(m));
            obj_values(ids@).take(i as int).lemma_push_to_set_commute(m);
            assert(!s0.contains(m)) by {
                if s0.contains(m) {
                    let j = choose|j: int| 0 <= j < i && #[trigger] obj_values(ids@).take(i as int)[j] == m;
                    assert(obj_values(ids@)[j] == obj_values(ids@)[i as int]);
                }
            }
        }
        let ghost before = r@;
        match container.players.find_from_mob(ids[i]) {
            Some(p) => {
                r.push(p);
                proof {
                    assert forall|a: int, b: int| 0 <= a < b < r@.len() implies r@[a] != r@[b] by {
                        if b == r@.len() - 1 {
                            assert(s0.contains(container.players@[before[a].0].mob_id.0));
                        } else {
                            assert(before[a] != before[b]);
                        }
                    }
                    assert forall|m2: u32| #[trigger] s0.insert(m).contains(m2) && (exists|q: u32|
                        container.players@.contains_key(q) && container.players@[q].mob_id.0 == m2) implies exists|k: int|
                        0 <= k < r@.len() && container.players@[r@[k].0].mob_id.0 == m2 by {
                        if m2 == m {
                            assert(container.players@[r@[r@.len() - 1].0].mob_id.0 == m2);
                        } else {
                            let k = choose|k: int| 0 <= k < before.len() && container.players@[before[k].0].mob_id.0 == m2;
                            assert(r@[k] == before[k]);
                        }
                    }
                }
            },
            None => {
                proof {
                    assert forall|m2: u32| #[trigger] s0.insert(m).contains(m2) && (exists|q: u32|
                        container.players@.contains_key(q) && container.players@[q].mob_id.0 == m2) implies exists|k: int|
                        0 <= k < r@.len() && container.players@[r@[k].0].mob_id.0 == m2 by {
                        if m2 == m {
                            let q = choose|q: u32| container.players@.contains_key(q) && container.players@[q].mob_id.0 == m2;
                            assert(container.players@[q].mob_id != ids@[i as int]);
                        }
                    }
                }
            },
        }
        i = i + 1;
    }
    proof {
        assert(obj_values(ids@).take(ids.len() as int) =~= obj_values(ids@));
    }
    r
}

/// The players whose avatar is directly at the location.
pub fn find_players_in(container: &Container, location_id: LocationId) -> (r: Vec<PlayerId>)
    requires
        container.wf(),
    ensures
        players_of(container, children(container.locations@, location_id.0), r@),
{
    let ids = container.locations.list_at(location_id);
    players_of_ids(container, &ids)
}

/// The players whose avatar is anywhere inside the location.
pub fn find_deep_players_in(container: &Container, location_id: LocationId) -> (r: Vec<PlayerId>)
    requires
        container.wf(),
    ensures
        players_of(container, descendants(container.locations@, location_id.0), r@),
{
    let ids = container.locations.list_deep_at(location_id);
    players_of_ids(container, &ids)
}

} // verus!
