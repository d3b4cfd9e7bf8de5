use std::collections::HashMap;
use vstd::prelude::*;
use vstd::std_specs::iter::IteratorSpec;

verus! {

/// Identifier of a live object of the game world.
#[derive(Clone, Copy, Debug, PartialEq, Eq, Hash, PartialOrd, Ord, Structural)]
pub struct ObjId(pub u32);

impl ObjId {
    pub fn as_u32(&self) -> (r: u32)
        ensures
            r == self.0,
    {
        self.0
    }
}

/// Identifier of a player: players are objects too.
pub type PlayerId = ObjId;

/// Identifier of a connection to the game.
#[derive(Clone, Copy, Debug, PartialEq, Eq, Hash, PartialOrd, Ord, Structural)]
pub struct ConnectionId(pub u32);

/// Identifier of static data: a prefab or an object as described in configuration.
#[derive(Clone, Copy, Debug, PartialEq, Eq, Hash, PartialOrd, Ord, Structural)]
pub struct StaticId(pub u32);

impl StaticId {
    pub fn as_u32(&self) -> (r: u32)
        ensures
            r == self.0,
    {
        self.0
    }

    pub fn from_obj_id(id: ObjId) -> (r: StaticId)
        ensures
            r.0 == id.0,
    {
        StaticId(id.0)
    }
}

/// The ids a table is keyed by, each once, in no given order.
pub fn ids_of<V>(index: &HashMap<u32, V>) -> (r: Vec<ObjId>)
    ensures
        r@.map_values(|o: ObjId| o.0).no_duplicates(),
        r@.map_values(|o: ObjId| o.0).to_set() == index@.dom(),
{
    let mut r: Vec<ObjId> = Vec::new();
    let ghost ks = vstd::std_specs::hash::spec_keys_iter(index).remaining();
    proof {
        assert(ks.unref().to_set() == index@.dom());
    }
    for k in it: index.keys()
        invariant
            it.seq() == ks,
            r@.map_values(|o: ObjId| o.0) == ks.take(it.index() as int).map_values(|x: &u32| *x),
    {
        let ghost old_r = r@;
        r.push(ObjId(*k));
        proof {
            assert(r@.map_values(|o: ObjId| o.0) =~= old_r.map_values(|o: ObjId| o.0).push(*k));
        }
    }
    proof {
        assert(ks.take(ks.len() as int) =~= ks);
        let v = r@.map_values(|o: ObjId| o.0);
        assert(v =~= ks.unref());
        assert forall|i: int, j: int| 0 <= i < j < v.len() implies v[i] != v[j] by {
            assert(ks[i] != ks[j]);
        }
    }
    r
}

} // verus!
