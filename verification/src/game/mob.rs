use crate::game::item::Damage;
use crate::ids::ObjId;
use std::collections::HashMap;
use vstd::prelude::*;

verus! {

broadcast use vstd::std_specs::hash::group_hash_axioms;

pub type MobId = ObjId;

pub type Xp = u32;

/// Current and maximum hit points.
#[derive(Clone, Copy, Debug, PartialEq, Eq, Structural)]
pub struct Pv {
    pub current: i32,
    pub max: u32,
}

#[derive(Clone, Copy, Debug, PartialEq, Eq, Structural)]
pub struct Attributes {
    pub attack: u32,
    pub defense: u32,
    pub pv: Pv,
    pub damage: Damage,
}

/// A creature of the game. Its combat timing, a time in seconds, is kept by the program around
/// the library.
#[derive(Clone, Debug)]
pub struct Mob {
    pub id: MobId,
    pub is_avatar: bool,
    pub attributes: Attributes,
    pub xp: Xp,
    pub followers: Vec<MobId>,
}

impl Mob {
    /// A mob as `new` makes it: no avatar, no experience, no follower, base attributes.
    pub open spec fn is_fresh(&self, id: MobId) -> bool {
        &&& self.id == id
        &&& !self.is_avatar
        &&& self.xp == 0
        &&& self.followers@ == Seq::<MobId>::empty()
        &&& self.attributes == (Attributes {
            attack: 0,
            defense: 0,
            pv: Pv { current: 1, max: 1 },
            damage: Damage { min: 0, max: 0 },
        })
    }

    pub fn new(id: MobId) -> (r: Self)
        ensures
            r.is_fresh(id),
    {
        Mob {
            id,
            is_avatar: false,
            attributes: Attributes {
                attack: 0,
                defense: 0,
                pv: Pv { current: 1, max: 1 },
                damage: Damage { min: 0, max: 0 },
            },
            xp: 0,
            followers: Vec::new(),
        }
    }
}

/// Every mob, by id.
pub struct MobRepository {
    index: HashMap<u32, Mob>,
}

impl View for MobRepository {
    type V = Map<u32, Mob>;

    closed spec fn view(&self) -> Map<u32, Mob> {
        self.index@
    }
}

impl MobRepository {
    /// Every mob is stored under its own id.
    pub open spec fn wf(&self) -> bool {
        forall|k: u32| #[trigger] self@.contains_key(k) ==> self@[k].id.0 == k
    }

    pub fn new() -> (r: Self)
        ensures
            r.wf(),
            r@ == Map::<u32, Mob>::empty(),
    {
        MobRepository { index: HashMap::new() }
    }

    pub fn add(&mut self, mob: Mob)
        requires
            old(self).wf(),
            !old(self)@.contains_key(mob.id.0),
        ensures
            final(self).wf(),
            final(self)@ == old(self)@.insert(mob.id.0, mob),
    {
        self.index.insert(mob.id.0, mob);
    }

    pub fn remove(&mut self, id: MobId) -> (r: Option<Mob>)
        requires
            old(self).wf(),
        ensures
            final(self).wf(),
            final(self)@ == old(self)@.remove(id.0),
            r == old(self)@.get(id.0),
    {
        self.index.remove(&id.0)
    }

    pub fn exist(&self, id: MobId) -> (r: bool)
        ensures
            r == self@.contains_key(id.0),
    {
        self.index.contains_key(&id.0)
    }

    pub fn get(&self, id: MobId) -> (r: Option<&Mob>)
        ensures
            match r {
                Some(m) => self@.contains_key(id.0) && *m == self@[id.0],
                None => !self@.contains_key(id.0),
            },
    {
        self.index.get(&id.0)
    }

    /// Whether the mob exists and is a player's avatar.
    pub fn is_avatar(&self, id: MobId) -> (r: bool)
        ensures
            r == (self@.contains_key(id.0) && self@[id.0].is_avatar),
    {
        match self.index.get(&id.0) {
            Some(m) => m.is_avatar,
            None => false,
        }
    }

    /// Replace an existing mob.
    pub fn update(&mut self, mob: Mob)
        requires
            old(self).wf(),
            old(self)@.contains_key(mob.id.0),
        ensures
            final(self).wf(),
            final(self)@ == old(self)@.insert(mob.id.0, mob),
    {
        self.index.insert(mob.id.0, mob);
    }

    /// Make an existing mob a player's avatar.
    pub(crate) fn set_avatar(&mut self, id: MobId)
        requires
            old(self).wf(),
            old(self)@.contains_key(id.0),
        ensures
            final(self).wf(),
            final(self)@.dom() == old(self)@.dom(),
            final(self)@[id.0].is_avatar,
            final(self)@[id.0].id == old(self)@[id.0].id,
            final(self)@[id.0].attributes == old(self)@[id.0].attributes,
            final(self)@[id.0].xp == old(self)@[id.0].xp,
            final(self)@[id.0].followers@ == old(self)@[id.0].followers@,
            forall|k: u32| k != id.0 && #[trigger] old(self)@.contains_key(k) ==> final(self)@[k] == old(self)@[k],
    {
        let mut m = self.index.remove(&id.0).unwrap();
        m.is_avatar = true;
        self.index.insert(id.0, m);
    }

    /// Append a follower to an existing mob.
    pub fn add_follower(&mut self, id: MobId, follower: MobId)
        requires
            old(self).wf(),
            old(self)@.contains_key(id.0),
        ensures
            final(self).wf(),
            final(self)@.dom() == old(self)@.dom(),
            final(self)@[id.0].followers@ == old(self)@[id.0].followers@.push(follower),
            final(self)@[id.0].id == old(self)@[id.0].id,
            final(self)@[id.0].is_avatar == old(self)@[id.0].is_avatar,
            final(self)@[id.0].attributes == old(self)@[id.0].attributes,
            final(self)@[id.0].xp == old(self)@[id.0].xp,
            forall|k: u32| k != id.0 && #[trigger] old(self)@.contains_key(k) ==> final(self)@[k] == old(self)@[k],
    {
        let mut m = self.index.remove(&id.0).unwrap();
        m.followers.push(follower);
        self.index.insert(id.0, m);
    }
}

} // verus!
