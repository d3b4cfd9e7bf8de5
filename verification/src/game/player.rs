use crate::game::mob::MobId;
use crate::ids::{ObjId, PlayerId};
use std::collections::HashMap;
use vstd::prelude::*;
use vstd::std_specs::iter::IteratorSpec;

verus! {

broadcast use vstd::std_specs::hash::group_hash_axioms;

/// A player: a login and the mob that is its avatar.
#[derive(Clone, Debug)]
pub struct Player {
    pub id: PlayerId,
    pub login: String,
    pub mob_id: MobId,
}

/// Every player, by id.
pub struct PlayerRepository {
    index: HashMap<u32, Player>,
}

impl View for PlayerRepository {
    type V = Map<u32, Player>;

    closed spec fn view(&self) -> Map<u32, Player> {
        self.index@
    }
}

impl PlayerRepository {
    /// Every player is stored under its own id.
    pub open spec fn wf(&self) -> bool {
        forall|k: u32| #[trigger] self@.contains_key(k) ==> self@[k].id.0 == k
    }

    pub fn new() -> (r: Self)
        ensures
            r.wf(),
            r@ == Map::<u32, Player>::empty(),
    {
        PlayerRepository { index: HashMap::new() }
    }

    /// Every player id, each once, in no given order.
    fn ids(&self) -> (r: Vec<u32>)
        ensures
            r@.no_duplicates(),
            r@.to_set() == self@.dom(),
    {
        let mut r: Vec<u32> = Vec::new();
        let ghost ks = vstd::std_specs::hash::spec_keys_iter(&self.index).remaining();
        proof {
            assert(ks.unref().to_set() == self@.dom());
        }
        for k in it: self.index.keys()
            invariant
                it.seq() == ks,
                r@ == ks.take(it.index() as int).map_values(|x: &u32| *x),
        {
            r.push(*k);
        }
        proof {
            assert(ks.take(ks.len() as int) =~= ks);
            assert(r@ =~= ks.unref());
            assert forall|i: int, j: int| 0 <= i < j < r.len() implies r@[i] != r@[j] by {
                assert(ks[i] != ks[j]);
            }
        }
        r
    }

    /// A player with that login, if there is one.
    pub fn login(&self, login: &str) -> (r: Option<PlayerId>)
        requires
            self.wf(),
        ensures
            match r {
                Some(id) => self@.contains_key(id.0) && self@[id.0].login@ == login@,
                None => forall|k: u32| #[trigger] self@.contains_key(k) ==> self@[k].login@ != login@,
            },
    {
        let ids = self.ids();
        let mut i: usize = 0;
        while i < ids.len()
            invariant
                i <= ids.len(),
                ids@.to_set() == self@.dom(),
                forall|j: int| 0 <= j < i ==> self@[#[trigger] ids@[j]].login@ != login@,
            decreases ids.len() - i,
        {
            let k = ids[i];
            proof {
                assert(ids@.to_set().contains(k));
            }
            let p = self.index.get(&k).unwrap();
            if crate::utils::text::str_eq(p.login.as_str(), login) {
                return Some(ObjId(k));
            }
            i = i + 1;
        }
        proof {
            assert forall|k: u32| #[trigger] self@.contains_key(k) implies self@[k].login@ != login@ by {
                assert(ids@.to_set().contains(k));
                let j = choose|j: int| 0 <= j < ids.len() && ids@[j] == k;
            }
        }
        None
    }

    pub fn get(&self, player_id: PlayerId) -> (r: Option<&Player>)
        ensures
            match r {
                Some(p) => self@.contains_key(player_id.0) && *p == self@[player_id.0],
                None => !self@.contains_key(player_id.0),
            },
    {
        self.index.get(&player_id.0)
    }

    /// The avatar of the player.
    pub fn get_mob(&self, player_id: PlayerId) -> (r: Option<MobId>)
        ensures
            match r {
                Some(m) => self@.contains_key(player_id.0) && m == self@[player_id.0].mob_id,
                None => !self@.contains_key(player_id.0),
            },
    {
        match self.index.get(&player_id.0) {
            Some(p) => Some(p.mob_id),
            None => None,
        }
    }

    /// A player whose avatar is the mob, if there is one.
    pub fn find_from_mob(&self, mob_id: MobId) -> (r: Option<PlayerId>)
        requires
            self.wf(),
        ensures
            match r {
                Some(id) => self@.contains_key(id.0) && self@[id.0].mob_id == mob_id,
                None => forall|k: u32| #[trigger] self@.contains_key(k) ==> self@[k].mob_id != mob_id,
            },
    {
        let ids = self.ids();
        let mut i: usize = 0;
        while i < ids.len()
            invariant
                i <= ids.len(),
                ids@.to_set() == self@.dom(),
                forall|j: int| 0 <= j < i ==> self@[#[trigger] ids@[j]].mob_id != mob_id,
            decreases ids.len() - i,
        {
            let k = ids[i];
            proof {
                assert(ids@.to_set().contains(k));
            }
            let p = self.index.get(&k).unwrap();
            if p.mob_id == mob_id {
                return Some(ObjId(k));
            }
            i = i + 1;
        }
        proof {
            assert forall|k: u32| #[trigger] self@.contains_key(k) implies self@[k].mob_id != mob_id by {
                assert(ids@.to_set().contains(k));
                let j = choose|j: int| 0 <= j < ids.len() && ids@[j] == k;
            }
        }
        None
    }

    /// Add a player with the login and avatar, under the id.
    pub fn create(&mut self, player_id: PlayerId, login: String, mob_id: MobId) -> (r: &Player)
        requires
            old(self).wf(),
        ensures
            final(self).wf(),
            final(self)@ == old(self)@.insert(player_id.0, *r),
            r.id == player_id,
            r.login@ == login@,
            r.mob_id == mob_id,
    {
        self.index.insert(player_id.0, Player { id: player_id, login, mob_id });
        proof {
            assert forall|k: u32| #[trigger] self@.contains_key(k) implies self@[k].id.0 == k by {
                if k != player_id.0 {
                    assert(old(self)@.contains_key(k));
                }
            }
        }
        self.index.get(&player_id.0).unwrap()
    }
}

} // verus!
