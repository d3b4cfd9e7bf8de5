use crate::errors::{Error, Result};
use crate::game::prices::Money;
use crate::ids::{ids_of, ObjId};
use std::collections::HashMap;
use vstd::prelude::*;

verus! {

broadcast use vstd::std_specs::hash::group_hash_axioms;

/// A mob that can be hired, and its cost.
#[derive(Clone, Copy, Debug, PartialEq, Eq, Structural)]
pub struct Hire {
    pub id: ObjId,
    pub cost: Money,
}

impl Hire {
    pub fn new(id: ObjId) -> (r: Self)
        ensures
            r == (Hire { id, cost: Money(0) }),
    {
        Hire { id, cost: Money(0) }
    }
}

/// The mobs that can be hired, by id.
pub struct Hires {
    index: HashMap<u32, Hire>,
}

impl View for Hires {
    type V = Map<u32, Hire>;

    closed spec fn view(&self) -> Map<u32, Hire> {
        self.index@
    }
}

impl Hires {
    /// Every hire is stored under its own id.
    pub open spec fn wf(&self) -> bool {
        forall|k: u32| #[trigger] self@.contains_key(k) ==> self@[k].id.0 == k
    }

    pub fn new() -> (r: Self)
        ensures
            r.wf(),
            r@ == Map::<u32, Hire>::empty(),
    {
        Hires { index: HashMap::new() }
    }

    /// Add a hire, refused with `ConflictException` where its id has one.
    pub fn add(&mut self, hire: Hire) -> (r: Result<()>)
        requires
            old(self).wf(),
        ensures
            final(self).wf(),
            old(self)@.contains_key(hire.id.0) ==> (r matches Err(Error::ConflictException)) && final(self)@ == old(self)@,
            !old(self)@.contains_key(hire.id.0) ==> r is Ok && final(self)@ == old(self)@.insert(hire.id.0, hire),
    {
        if self.index.contains_key(&hire.id.0) {
            return Err(Error::ConflictException);
        }
        self.index.insert(hire.id.0, hire);
        proof {
            assert forall|k: u32| #[trigger] self@.contains_key(k) implies self@[k].id.0 == k by {
                if k != hire.id.0 {
                    assert(old(self)@.contains_key(k));
                }
            }
        }
        Ok(())
    }

    pub fn remove(&mut self, id: ObjId) -> (r: Option<Hire>)
        requires
            old(self).wf(),
        ensures
            final(self).wf(),
            final(self)@ == old(self)@.remove(id.0),
            r == old(self)@.get(id.0),
    {
        self.index.remove(&id.0)
    }

    pub fn get(&self, id: ObjId) -> (r: Option<&Hire>)
        ensures
            match r {
                Some(h) => self@.contains_key(id.0) && *h == self@[id.0],
                None => !self@.contains_key(id.0),
            },
    {
        self.index.get(&id.0)
    }

    pub fn exist(&self, id: ObjId) -> (r: bool)
        ensures
            r == self@.contains_key(id.0),
    {
        self.index.contains_key(&id.0)
    }

    /// Every hire's id, each once, in no given order.
    pub fn list(&self) -> (r: Vec<ObjId>)
        ensures
            r@.map_values(|o: ObjId| o.0).no_duplicates(),
            r@.map_values(|o: ObjId| o.0).to_set() == self@.dom(),
    {
        ids_of(&self.index)
    }
}

} // verus!
