use crate::game::domain::{Modifier, Rd};
use crate::ids::ObjId;
use std::collections::HashMap;
use vstd::prelude::*;
use vstd::std_specs::iter::IteratorSpec;

verus! {

broadcast use {vstd::std_specs::hash::group_hash_axioms, vstd::set::group_set_axioms};

pub type ItemId = ObjId;

pub type ItemPrefabId = ObjId;

/// Minimum and maximum damage of an attack.
#[derive(Clone, Copy, Debug, PartialEq, Eq, Structural)]
pub struct Damage {
    pub min: u32,
    pub max: u32,
}

#[derive(Clone, Copy, Debug, PartialEq, Eq, Structural)]
pub struct ItemFlags {
    /// can hold more items
    pub is_inventory: bool,
    /// can not be pickup
    pub is_stuck: bool,
    /// someone body
    pub is_corpse: bool,
    pub is_money: bool,
}

impl ItemFlags {
    pub fn new() -> (r: Self)
        ensures
            !r.is_inventory && !r.is_stuck && !r.is_corpse && !r.is_money,
    {
        ItemFlags { is_inventory: false, is_stuck: false, is_corpse: false, is_money: false }
    }
}

/// What a weapon adds to an attack. Its calm down time, a duration in seconds, is kept by the
/// program around the library.
#[derive(Clone, Copy, Debug, PartialEq, Eq, Structural)]
pub struct Weapon {
    pub damage: Damage,
    pub attack: Modifier,
}

impl Weapon {
    pub fn new() -> (r: Self)
        ensures
            r.damage == (Damage { min: 1, max: 1 }),
            r.attack == Modifier(0),
    {
        Weapon { damage: Damage { min: 1, max: 1 }, attack: Modifier(0) }
    }
}

#[derive(Clone, Copy, Debug, PartialEq, Eq, Structural)]
pub struct Armor {
    pub defense: Modifier,
    pub rd: Rd,
}

impl Armor {
    pub fn new() -> (r: Self)
        ensures
            r.defense == Modifier(0),
            r.rd == 0,
    {
        Armor { defense: Modifier(0), rd: 0 }
    }
}

#[derive(Clone, Copy, Debug, PartialEq, Eq, Structural)]
pub struct Item {
    pub id: ItemId,
    pub amount: u32,
    pub item_def_id: Option<ItemPrefabId>,
    pub weapon: Option<Weapon>,
    pub armor: Option<Armor>,
    pub flags: ItemFlags,
}

impl Item {
    /// A single plain item: no prefab, weapon, armor or flag.
    pub open spec fn spec_new(id: ItemId) -> Item {
        Item {
            id,
            amount: 1,
            item_def_id: None,
            weapon: None,
            armor: None,
            flags: ItemFlags { is_inventory: false, is_stuck: false, is_corpse: false, is_money: false },
        }
    }

    pub fn new(id: ItemId) -> (r: Self)
        ensures
            r == Item::spec_new(id),
    {
        Item {
            id,
            amount: 1,
            item_def_id: None,
            weapon: None,
            armor: None,
            flags: ItemFlags::new(),
        }
    }

    pub fn can_equip(&self) -> (r: bool)
        ensures
            r == (self.weapon is Some || self.armor is Some),
    {
        self.weapon.is_some() || self.armor.is_some()
    }
}

/// Every item, by id.
pub struct ItemRepository {
    index: HashMap<u32, Item>,
}

impl View for ItemRepository {
    type V = Map<u32, Item>;

    closed spec fn view(&self) -> Map<u32, Item> {
        self.index@
    }
}

impl ItemRepository {
    /// Every item is stored under its own id.
    pub open spec fn wf(&self) -> bool {
        forall|k: u32| #[trigger] self@.contains_key(k) ==> self@[k].id.0 == k
    }

    pub fn new() -> (r: Self)
        ensures
            r.wf(),
            r@ == Map::<u32, Item>::empty(),
    {
        ItemRepository { index: HashMap::new() }
    }

    pub fn exist(&self, item_id: ItemId) -> (r: bool)
        ensures
            r == self@.contains_key(item_id.0),
    {
        self.index.contains_key(&item_id.0)
    }

    pub fn get(&self, item_id: ItemId) -> (r: Option<Item>)
        ensures
            r == self@.get(item_id.0),
    {
        match self.index.get(&item_id.0) {
            Some(i) => Some(*i),
            None => None,
        }
    }

    /// Add a new item.
    pub fn add(&mut self, item: Item)
        requires
            old(self).wf(),
            !old(self)@.contains_key(item.id.0),
        ensures
            final(self).wf(),
            final(self)@ == old(self)@.insert(item.id.0, item),
    {
        self.index.insert(item.id.0, item);
    }

    /// Replace an existing item.
    pub fn update(&mut self, item: Item)
        requires
            old(self).wf(),
            old(self)@.contains_key(item.id.0),
        ensures
            final(self).wf(),
            final(self)@ == old(self)@.insert(item.id.0, item),
    {
        self.index.insert(item.id.0, item);
    }

    pub fn remove(&mut self, item_id: ItemId) -> (r: Option<Item>)
        requires
            old(self).wf(),
        ensures
            final(self).wf(),
            final(self)@ == old(self)@.remove(item_id.0),
            r == old(self)@.get(item_id.0),
    {
        self.index.remove(&item_id.0)
    }

    /// Every item id, each once, in no given order.
    pub fn list(&self) -> (r: Vec<ItemId>)
        ensures
            r@.map_values(|o: ObjId| o.0).no_duplicates(),
            r@.map_values(|o: ObjId| o.0).to_set() == self@.dom(),
    {
        let mut r: Vec<ItemId> = Vec::new();
        let ghost ks = vstd::std_specs::hash::spec_keys_iter(&self.index).remaining();
        proof {
            assert(ks.unref().to_set() == self@.dom());
        }
        for k in it: self.index.keys()
            invariant
                it.seq() == ks,
                r@.map_values(|o: ObjId| o.0) == ks.take(it.index() as int).map_values(|x: &u32| *x),
        {
            let ghost old_r = r@;
            r.push(ObjId(*k));
            proof {
                assert(r@.map_values(|o: ObjId| o.0) =~= old_r.map_values(|o: ObjId| o.0).push(*k));
            }
        }
        proof {
            assert(ks.take(ks.len() as int) =~= ks);
            let v = r@.map_values(|o: ObjId| o.0);
            assert(v =~= ks.unref());
            assert forall|i: int, j: int| 0 <= i < j < v.len() implies v[i] != v[j] by {
                assert(ks[i] != ks[j]);
            }
        }
        r
    }
}

} // verus!
