use crate::errors::{Error, Result};
use crate::game::domain::NextId;
use crate::ids::ObjId;
use std::collections::HashSet;
use vstd::prelude::*;

verus! {

broadcast use vstd::std_specs::hash::group_hash_axioms;

/// Every object that exists in the game, and the generator of new ids.
pub struct Objects {
    next: NextId,
    ids: HashSet<u32>,
}

impl View for Objects {
    type V = Set<u32>;

    closed spec fn view(&self) -> Set<u32> {
        self.ids@
    }
}

impl Objects {
    /// Every existing id is below the next id to give.
    pub closed spec fn wf(&self) -> bool {
        forall|k: u32| #[trigger] self.ids@.contains(k) ==> k < self.next.peek()
    }

    /// The id the next `create` gives.
    pub closed spec fn next_id(&self) -> u32 {
        self.next.peek()
    }

    pub fn new() -> (r: Self)
        ensures
            r.wf(),
            r@ == Set::<u32>::empty(),
            r.next_id() == 0,
    {
        Objects { next: NextId::new(), ids: HashSet::new() }
    }

    /// Create a new object with an id never given before.
    /// Every existing id was given before the next one.
    pub proof fn lemma_below(&self, k: u32)
        requires
            self.wf(),
            self@.contains(k),
        ensures
            k < self.next_id(),
    {
    }

    /// The id the next `create` gives.
    pub fn peek_next(&self) -> (r: u32)
        ensures
            r == self.next_id(),
    {
        self.next.current()
    }

    pub fn create(&mut self) -> (r: ObjId)
        requires
            old(self).wf(),
            old(self).next_id() < u32::MAX,
        ensures
            final(self).wf(),
            r.0 == old(self).next_id(),
            !old(self)@.contains(r.0),
            final(self)@ == old(self)@.insert(r.0),
            final(self).next_id() == old(self).next_id() + 1,
    {
        let id = self.next.next();
        self.ids.insert(id);
        ObjId(id)
    }

    /// Add an object with a given id, refused with `ConflictException` where it exists.
    pub fn insert(&mut self, id: ObjId) -> (r: Result<()>)
        requires
            old(self).wf(),
            id.0 < u32::MAX,
        ensures
            final(self).wf(),
            old(self)@.contains(id.0) ==> (r matches Err(Error::ConflictException)) && final(self)@
                == old(self)@ && final(self).next_id() == old(self).next_id(),
            !old(self)@.contains(id.0) ==> r is Ok && final(self)@ == old(self)@.insert(id.0)
                && final(self).next_id() == if old(self).next_id() > id.0 {
                old(self).next_id()
            } else {
                (id.0 + 1) as u32
            },
    {
        if self.ids.contains(&id.0) {
            return Err(Error::ConflictException);
        }
        self.ids.insert(id.0);
        self.next.set_max(id.0);
        Ok(())
    }

    pub fn exist(&self, id: ObjId) -> (r: bool)
        ensures
            r == self@.contains(id.0),
    {
        self.ids.contains(&id.0)
    }

    pub fn remove(&mut self, id: ObjId)
        requires
            old(self).wf(),
        ensures
            final(self).wf(),
            final(self)@ == old(self)@.remove(id.0),
            final(self).next_id() == old(self).next_id(),
    {
        self.ids.remove(&id.0);
    }
}

/// Law: an id is never given twice: an object created after another one was removed does not
/// get the removed one's id.
pub proof fn removed_ids_never_reused(o0: &Objects, o1: &Objects, removed: ObjId, created: ObjId)
    requires
        o0.wf(),
        o0@.contains(removed.0),
        o1@ == o0@.remove(removed.0),
        o1.next_id() == o0.next_id(),
        created.0 == o1.next_id(),
    ensures
        created != removed,
        !o1@.contains(created.0),
{
}

} // verus!
