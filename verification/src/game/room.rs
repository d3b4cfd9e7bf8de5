use crate::errors::{Error, Result};
use crate::game::domain::Dir;
use crate::ids::ObjId;
use std::collections::HashMap;
use vstd::prelude::*;

verus! {

broadcast use vstd::std_specs::hash::group_hash_axioms;

pub type RoomId = ObjId;

/// The room of the first exit in the direction.
pub open spec fn exit_of(exits: Seq<(Dir, RoomId)>, dir: Dir) -> Option<RoomId>
    decreases exits.len(),
{
    if exits.len() == 0 {
        None
    } else if exits[0].0 == dir {
        Some(exits[0].1)
    } else {
        exit_of(exits.drop_first(), dir)
    }
}

/// A room and its exits to other rooms.
#[derive(Clone, Debug)]
pub struct Room {
    pub id: RoomId,
    pub can_exit: bool,
    pub exits: Vec<(Dir, RoomId)>,
}

impl Room {
    pub fn new(id: RoomId) -> (r: Self)
        ensures
            r.id == id,
            !r.can_exit,
            r.exits@ == Seq::<(Dir, RoomId)>::empty(),
    {
        Room { id, can_exit: false, exits: Vec::new() }
    }

    /// The room of the first exit in that direction.
    pub fn get_exit(&self, dir: &Dir) -> (r: Option<RoomId>)
        ensures
            r == exit_of(self.exits@, *dir),
            match r {
                Some(to) => exists|i: int|
                    0 <= i < self.exits@.len() && self.exits@[i] == (*dir, to) && forall|j: int|
                        0 <= j < i ==> (#[trigger] self.exits@[j]).0 != *dir,
                None => forall|j: int| 0 <= j < self.exits@.len() ==> (#[trigger] self.exits@[j]).0 != *dir,
            },
    {
        let mut i: usize = 0;
        proof {
            assert(self.exits@.skip(0) =~= self.exits@);
        }
        while i < self.exits.len()
            invariant
                i <= self.exits@.len(),
                forall|j: int| 0 <= j < i ==> (#[trigger] self.exits@[j]).0 != *dir,
                exit_of(self.exits@, *dir) == exit_of(self.exits@.skip(i as int), *dir),
            decreases self.exits.len() - i,
        {
            let (d, to) = self.exits[i];
            proof {
                assert(self.exits@.skip(i as int)[0] == self.exits@[i as int]);
                assert(self.exits@.skip(i as int).drop_first() =~= self.exits@.skip(i + 1));
            }
            if d == *dir {
                return Some(to);
            }
            i = i + 1;
        }
        None
    }
}

pub open spec fn exits_view(r: Room) -> Seq<(Dir, u32)> {
    r.exits@.map_values(|e: (Dir, RoomId)| (e.0, e.1.0))
}

/// Every room, by id.
pub struct RoomRepository {
    index: HashMap<u32, Room>,
}

impl View for RoomRepository {
    type V = Map<u32, Seq<(Dir, u32)>>;

    /// The exits of each room.
    closed spec fn view(&self) -> Map<u32, Seq<(Dir, u32)>> {
        Map::new(|k: u32| self.index@.contains_key(k), |k: u32| exits_view(self.index@[k]))
    }
}

impl RoomRepository {
    pub closed spec fn rooms(&self) -> Map<u32, Room> {
        self.index@
    }

    pub closed spec fn wf(&self) -> bool {
        forall|k: u32| #[trigger] self.index@.contains_key(k) ==> self.index@[k].id.0 == k
    }

    /// There are finitely many rooms.
    pub proof fn lemma_finite(&self)
        ensures
            self@.dom().finite(),
    {
        assert(self@.dom() =~= self.index@.dom());
    }

    pub fn new() -> (r: Self)
        ensures
            r.wf(),
            r@ == Map::<u32, Seq<(Dir, u32)>>::empty(),
            r.rooms() == Map::<u32, Room>::empty(),
    {
        let r = RoomRepository { index: HashMap::new() };
        proof {
            assert(r@ =~= Map::<u32, Seq<(Dir, u32)>>::empty());
        }
        r
    }

    pub fn add(&mut self, room: Room)
        requires
            old(self).wf(),
            !old(self)@.contains_key(room.id.0),
        ensures
            final(self).wf(),
            final(self).rooms() == old(self).rooms().insert(room.id.0, room),
            final(self)@ == old(self)@.insert(room.id.0, exits_view(room)),
    {
        self.index.insert(room.id.0, room);
        proof {
            assert(self@ =~= old(self)@.insert(room.id.0, exits_view(room)));
        }
    }

    pub fn exist(&self, id: RoomId) -> (r: bool)
        ensures
            r == self@.contains_key(id.0),
    {
        self.index.contains_key(&id.0)
    }

    pub fn get(&self, id: RoomId) -> (r: Option<&Room>)
        ensures
            match r {
                Some(room) => self.rooms().contains_key(id.0) && *room == self.rooms()[id.0] && self@.contains_key(id.0)
                    && self@[id.0] == exits_view(*room),
                None => !self@.contains_key(id.0),
            },
    {
        self.index.get(&id.0)
    }

    /// The exits of a room; `NotFoundFailure` where there is no such room.
    pub fn get_portals(&self, id: RoomId) -> (r: Result<&Vec<(Dir, RoomId)>>)
        ensures
            match r {
                Ok(exits) => self@.contains_key(id.0) && exits@.map_values(|e: (Dir, RoomId)| (e.0, e.1.0)) == self@[id.0],
                Err(e) => !self@.contains_key(id.0) && e is NotFoundFailure,
            },
    {
        match self.index.get(&id.0) {
            Some(room) => Ok(&room.exits),
            None => Err(Error::NotFoundFailure),
        }
    }

    /// Add an exit from one room to another in the direction, and back in the inverse
    /// direction; both rooms must exist.
    pub fn add_portal(&mut self, from: RoomId, to: RoomId, dir: Dir)
        requires
            old(self).wf(),
            old(self)@.contains_key(from.0),
            old(self)@.contains_key(to.0),
        ensures
            final(self).wf(),
            from.0 != to.0 ==> final(self)@ == old(self)@.insert(from.0, old(self)@[from.0].push((dir, to.0))).insert(
                to.0,
                old(self)@[to.0].push((dir.spec_inv(), from.0)),
            ),
            from.0 == to.0 ==> final(self)@ == old(self)@.insert(from.0, old(self)@[from.0].push((dir, to.0)).push(
                (dir.spec_inv(), from.0),
            )),
    {
        let mut a = self.index.remove(&from.0).unwrap();
        let ghost a0 = a;
        a.exits.push((dir, to));
        proof {
            assert(exits_view(a) =~= exits_view(a0).push((dir, to.0)));
        }
        self.index.insert(from.0, a);
        let ghost mid = self@;
        proof {
            assert(mid =~= old(self)@.insert(from.0, old(self)@[from.0].push((dir, to.0))));
        }
        let mut b = self.index.remove(&to.0).unwrap();
        let ghost b0 = b;
        b.exits.push((dir.inv(), from));
        proof {
            assert(exits_view(b) =~= exits_view(b0).push((dir.spec_inv(), from.0)));
            assert(exits_view(b0) == mid[to.0]);
        }
        self.index.insert(to.0, b);
        proof {
            if from.0 != to.0 {
                assert(self@ =~= old(self)@.insert(from.0, old(self)@[from.0].push((dir, to.0))).insert(
                    to.0,
                    old(self)@[to.0].push((dir.spec_inv(), from.0)),
                ));
            } else {
                assert(self@ =~= old(self)@.insert(from.0, old(self)@[from.0].push((dir, to.0)).push(
                    (dir.spec_inv(), from.0),
                )));
            }
        }
    }
}

/// The room of the first exit in the direction, among exits given by room number.
pub open spec fn first_exit(exits: Seq<(Dir, u32)>, dir: Dir) -> Option<u32>
    decreases exits.len(),
{
    if exits.len() == 0 {
        None
    } else if exits[0].0 == dir {
        Some(exits[0].1)
    } else {
        first_exit(exits.drop_first(), dir)
    }
}

/// An exit added last is the first in its direction where there was none before.
proof fn lemma_first_exit_push(exits: Seq<(Dir, u32)>, e: (Dir, u32), dir: Dir)
    requires
        first_exit(exits, dir) is None,
    ensures
        first_exit(exits.push(e), dir) == (if e.0 == dir { Some(e.1) } else { None::<u32> }),
    decreases exits.len(),
{
    if exits.len() > 0 {
        assert(exits.push(e)[0] == exits[0]);
        assert(exits.push(e).drop_first() =~= exits.drop_first().push(e));
        lemma_first_exit_push(exits.drop_first(), e, dir);
    } else {
        assert(exits.push(e)[0] == e);
        assert(exits.push(e).drop_first() =~= Seq::<(Dir, u32)>::empty());
        assert(first_exit(Seq::<(Dir, u32)>::empty(), dir) is None);
    }
}

/// Law: once a portal is added between two rooms with no exit yet in its directions, the
/// first exit of the one room in the direction leads to the other, and the first exit of the
/// other in the inverse direction leads back.
pub proof fn portal_leads_both_ways(
    before: Map<u32, Seq<(Dir, u32)>>,
    after: Map<u32, Seq<(Dir, u32)>>,
    from: RoomId,
    to: RoomId,
    dir: Dir,
)
    requires
        before.contains_key(from.0),
        before.contains_key(to.0),
        from.0 != to.0,
        first_exit(before[from.0], dir) is None,
        first_exit(before[to.0], dir.spec_inv()) is None,
        after == before.insert(from.0, before[from.0].push((dir, to.0))).insert(
            to.0,
            before[to.0].push((dir.spec_inv(), from.0)),
        ),
    ensures
        first_exit(after[from.0], dir) == Some(to.0),
        first_exit(after[to.0], dir.spec_inv()) == Some(from.0),
{
    lemma_first_exit_push(before[from.0], (dir, to.0), dir);
    lemma_first_exit_push(before[to.0], (dir.spec_inv(), from.0), dir.spec_inv());
}

} // verus!
