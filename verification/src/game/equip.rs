use crate::game::item::ItemId;
use crate::game::mob::MobId;
use crate::ids::ObjId;
use std::collections::{HashMap, HashSet};
use vstd::prelude::*;
use vstd::std_specs::iter::IteratorSpec;

verus! {

broadcast use {vstd::std_specs::hash::group_hash_axioms, vstd::set::group_set_axioms};

/// What an object is using: wielding or wearing.
pub struct Equips {
    index: HashMap<u32, HashSet<u32>>,
}

impl View for Equips {
    type V = Map<u32, Set<u32>>;

    closed spec fn view(&self) -> Map<u32, Set<u32>> {
        Map::new(|k: u32| self.index@.contains_key(k), |k: u32| self.index@[k]@)
    }
}

/// The equipment of an object: none where it has no entry.
pub open spec fn equipment_of(m: Map<u32, Set<u32>>, id: u32) -> Set<u32> {
    if m.contains_key(id) {
        m[id]
    } else {
        Set::empty()
    }
}

/// The equipment after the mob stops using the item, where it was using it.
pub open spec fn stripped(m: Map<u32, Set<u32>>, mob_id: u32, item_id: u32) -> Map<u32, Set<u32>> {
    if equipment_of(m, mob_id).contains(item_id) {
        m.insert(mob_id, m[mob_id].remove(item_id))
    } else {
        m
    }
}

impl Equips {
    pub fn new() -> (r: Self)
        ensures
            r@ == Map::<u32, Set<u32>>::empty(),
    {
        let r = Equips { index: HashMap::new() };
        proof {
            assert(r@ =~= Map::<u32, Set<u32>>::empty());
        }
        r
    }

    /// The mob starts using the item.
    pub fn add(&mut self, mob_id: MobId, item_id: ItemId)
        ensures
            final(self)@ == old(self)@.insert(mob_id.0, equipment_of(old(self)@, mob_id.0).insert(item_id.0)),
    {
        let mut set = match self.index.remove(&mob_id.0) {
            Some(s) => s,
            None => HashSet::new(),
        };
        set.insert(item_id.0);
        self.index.insert(mob_id.0, set);
        proof {
            assert(self@ =~= old(self)@.insert(mob_id.0, equipment_of(old(self)@, mob_id.0).insert(item_id.0)));
        }
    }

    /// The mob stops using the item; `Err` where it was not using it.
    pub fn strip(&mut self, mob_id: MobId, item_id: ItemId) -> (r: Result<(), ()>)
        ensures
            r is Ok <==> equipment_of(old(self)@, mob_id.0).contains(item_id.0),
            r is Ok ==> final(self)@ == old(self)@.insert(mob_id.0, old(self)@[mob_id.0].remove(item_id.0)),
            r is Err ==> final(self)@ == old(self)@,
    {
        match self.index.remove(&mob_id.0) {
            Some(mut set) => {
                let ghost s0 = set@;
                let removed = set.remove(&item_id.0);
                let ghost s1 = set@;
                self.index.insert(mob_id.0, set);
                if !removed {
                    proof {
                        assert(s1 =~= s0);
                        assert(self@ =~= old(self)@);
                    }
                    return Err(());
                }
                proof {
                    assert(self@ =~= old(self)@.insert(mob_id.0, old(self)@[mob_id.0].remove(item_id.0)));
                }
                Ok(())
            },
            None => {
                proof {
                    assert(self@ =~= old(self)@);
                }
                Err(())
            },
        }
    }

    /// Whether the object is using the item.
    pub fn has(&self, id: ObjId, item_id: ItemId) -> (r: bool)
        ensures
            r == equipment_of(self@, id.0).contains(item_id.0),
    {
        match self.index.get(&id.0) {
            Some(set) => set.contains(&item_id.0),
            None => false,
        }
    }

    /// Stop every object from using the item.
    pub fn remove(&mut self, id: ObjId)
        ensures
            final(self)@ == Map::new(|k: u32| old(self)@.contains_key(k), |k: u32| old(self)@[k].remove(id.0)),
    {
        let mut keys: Vec<u32> = Vec::new();
        let ghost ks = vstd::std_specs::hash::spec_keys_iter(&self.index).remaining();
        proof {
            assert(ks.unref().to_set() == self.index@.dom());
        }
        for k in it: self.index.keys()
            invariant
                it.seq() == ks,
                keys@ == ks.take(it.index() as int).map_values(|x: &u32| *x),
        {
            keys.push(*k);
        }
        let ghost m0 = self@;
        proof {
            assert(ks.take(ks.len() as int) =~= ks);
            assert(keys@ =~= ks.unref());
        }
        let mut i: usize = 0;
        while i < keys.len()
            invariant
                i <= keys.len(),
                keys@.no_duplicates(),
                keys@.to_set() == m0.dom(),
                self@.dom() == m0.dom(),
                forall|k: u32| #[trigger] m0.contains_key(k) ==> self@[k] == if keys@.take(i as int).contains(k) {
                    m0[k].remove(id.0)
                } else {
                    m0[k]
                },
            decreases keys.len() - i,
        {
            let k = keys[i];
            proof {
                assert(keys@.to_set().contains(k));
            }
            let ghost before = self@;
            let mut set = self.index.remove(&k).unwrap();
            set.remove(&id.0);
            self.index.insert(k, set);
            proof {
                assert(self@.dom() =~= m0.dom());
                let t0 = keys@.take(i as int);
                let t1 = keys@.take(i + 1);
                assert(t1 =~= t0.push(k));
                assert forall|x: u32| #[trigger] m0.contains_key(x) implies self@[x] == if t1.contains(x) {
                    m0[x].remove(id.0)
                } else {
                    m0[x]
                } by {
                    if x == k {
                        assert(t1[i as int] == k);
                        if t0.contains(k) {
                            let j = choose|j: int| 0 <= j < t0.len() && t0[j] == k;
                            assert(keys@[j] == keys@[i as int]);
                        }
                    } else {
                        if t1.contains(x) {
                            let j = choose|j: int| 0 <= j < t1.len() && t1[j] == x;
                            assert(t0[j] == x);
                        }
                        if t0.contains(x) {
                            let j = choose|j: int| 0 <= j < t0.len() && t0[j] == x;
                            assert(t1[j] == x);
                        }
                    }
                }
            }
            i = i + 1;
        }
        proof {
            assert(keys@.take(keys.len() as int) =~= keys@);
            assert forall|k: u32| #[trigger] m0.contains_key(k) implies keys@.contains(k) by {
                assert(keys@.to_set().contains(k));
            }
            assert(self@ =~= Map::new(|k: u32| m0.contains_key(k), |k: u32| m0[k].remove(id.0)));
        }
    }
}

} // verus!
