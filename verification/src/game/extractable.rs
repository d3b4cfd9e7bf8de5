use crate::errors::{Error, Result};
use crate::ids::{ids_of, ObjId, StaticId};
use std::collections::HashMap;
use vstd::prelude::*;

verus! {

broadcast use vstd::std_specs::hash::group_hash_axioms;

/// An object something can be extracted from, and the prefab of what comes out.
#[derive(Clone, Copy, Debug, PartialEq, Eq, Structural)]
pub struct Extractable {
    pub id: ObjId,
    pub prefab_id: StaticId,
}

/// The extractable objects, by id.
pub struct Extractables {
    index: HashMap<u32, Extractable>,
}

impl View for Extractables {
    type V = Map<u32, Extractable>;

    closed spec fn view(&self) -> Map<u32, Extractable> {
        self.index@
    }
}

impl Extractables {
    /// Every extractable is stored under its own id.
    pub open spec fn wf(&self) -> bool {
        forall|k: u32| #[trigger] self@.contains_key(k) ==> self@[k].id.0 == k
    }

    pub fn new() -> (r: Self)
        ensures
            r.wf(),
            r@ == Map::<u32, Extractable>::empty(),
    {
        Extractables { index: HashMap::new() }
    }

    /// Add an extractable, refused with `ConflictException` where its id has one.
    pub fn add(&mut self, e: Extractable) -> (r: Result<()>)
        requires
            old(self).wf(),
        ensures
            final(self).wf(),
            old(self)@.contains_key(e.id.0) ==> (r matches Err(Error::ConflictException)) && final(self)@ == old(self)@,
            !old(self)@.contains_key(e.id.0) ==> r is Ok && final(self)@ == old(self)@.insert(e.id.0, e),
    {
        if self.index.contains_key(&e.id.0) {
            return Err(Error::ConflictException);
        }
        self.index.insert(e.id.0, e);
        proof {
            assert forall|k: u32| #[trigger] self@.contains_key(k) implies self@[k].id.0 == k by {
                if k != e.id.0 {
                    assert(old(self)@.contains_key(k));
                }
            }
        }
        Ok(())
    }

    pub fn remove(&mut self, id: ObjId) -> (r: Option<Extractable>)
        requires
            old(self).wf(),
        ensures
            final(self).wf(),
            final(self)@ == old(self)@.remove(id.0),
            r == old(self)@.get(id.0),
    {
        self.index.remove(&id.0)
    }

    pub fn get(&self, id: ObjId) -> (r: Option<&Extractable>)
        ensures
            match r {
                Some(e) => self@.contains_key(id.0) && *e == self@[id.0],
                None => !self@.contains_key(id.0),
            },
    {
        self.index.get(&id.0)
    }

    pub fn exist(&self, id: ObjId) -> (r: bool)
        ensures
            r == self@.contains_key(id.0),
    {
        self.index.contains_key(&id.0)
    }

    /// Every extractable's id, each once, in no given order.
    pub fn list_ids(&self) -> (r: Vec<ObjId>)
        ensures
            r@.map_values(|o: ObjId| o.0).no_duplicates(),
            r@.map_values(|o: ObjId| o.0).to_set() == self@.dom(),
    {
        ids_of(&self.index)
    }
}

} // verus!
