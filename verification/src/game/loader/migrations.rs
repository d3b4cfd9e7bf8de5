use crate::game::loader::TagsData;
use crate::ids::StaticId;
use crate::utils::text::{str_chars, str_eq};
use vstd::prelude::*;
use vstd::string::StringExecFns;

verus! {

/// A price as configuration writes it.
#[derive(Debug, Clone, Copy, PartialEq, Eq, Structural)]
pub struct PriceData {
    pub price: Option<u32>,
    pub buy: Option<u32>,
    pub sell: Option<u32>,
}

impl PriceData {
    pub fn new(price: u32) -> (r: Self)
        ensures
            r == (PriceData { price: Some(price), buy: None, sell: None }),
    {
        PriceData { price: Some(price), buy: None, sell: None }
    }
}

/// The flags of an item as configuration writes them.
#[derive(Debug, Clone, Copy, PartialEq, Eq, Structural)]
pub struct ItemFlagsData {
    pub money: Option<bool>,
    pub inventory: Option<bool>,
    pub stuck: Option<bool>,
    pub body: Option<bool>,
}

/// What the migrations read of an item's data: its flags, and whether it is an armor or a
/// weapon.
#[derive(Debug, Clone, Copy, PartialEq, Eq, Structural)]
pub struct ItemMigrationData {
    pub flags: Option<ItemFlagsData>,
    pub has_armor: bool,
    pub has_weapon: bool,
}

/// What the migrations read and change of the data of a prefab or an object; the rest of it is
/// kept by the program around the library.
#[derive(Debug, Clone)]
pub struct MigrationObjData {
    pub id: Option<StaticId>,
    pub label: Option<String>,
    pub tags: Option<TagsData>,
    pub price: Option<PriceData>,
    pub item: Option<ItemMigrationData>,
    pub is_room: bool,
    pub has_random_rooms: bool,
    pub parent: Option<StaticId>,
}

/// The tags hold "goods".
pub open spec fn is_goods(tags: Option<TagsData>) -> bool {
    tags is Some && exists|i: int| 0 <= i < tags->0.values.len() && tags->0.values@[i]@ == "goods"@
}

/// Every field but the price is as it was.
pub open spec fn same_but_price(a: MigrationObjData, b: MigrationObjData) -> bool {
    &&& b.id == a.id
    &&& b.label == a.label
    &&& b.tags == a.tags
    &&& b.item == a.item
    &&& b.is_room == a.is_room
    &&& b.has_random_rooms == a.has_random_rooms
    &&& b.parent == a.parent
}

/// Every field but the tags is as it was.
pub open spec fn same_but_tags(a: MigrationObjData, b: MigrationObjData) -> bool {
    &&& b.id == a.id
    &&& b.label == a.label
    &&& b.price == a.price
    &&& b.item == a.item
    &&& b.is_room == a.is_room
    &&& b.has_random_rooms == a.has_random_rooms
    &&& b.parent == a.parent
}

/// Every field but the parent is as it was.
pub open spec fn same_but_parent(a: MigrationObjData, b: MigrationObjData) -> bool {
    &&& b.id == a.id
    &&& b.label == a.label
    &&& b.tags == a.tags
    &&& b.price == a.price
    &&& b.item == a.item
    &&& b.is_room == a.is_room
    &&& b.has_random_rooms == a.has_random_rooms
}

/// The second version of the data: items get a weight and mobs an inventory. Weights are
/// decimal numbers, so the change itself is made by the program around the library.
pub struct MigrationV2AddItemWeightAndMobInventory;

impl MigrationV2AddItemWeightAndMobInventory {
    pub fn version(&self) -> (r: u32)
        ensures
            r == 2,
    {
        2
    }
}

/// The third version of the data: goods without a price are priced.
pub struct MigrationV3FixItemsWithoutPrice;

impl MigrationV3FixItemsWithoutPrice {
    pub fn version(&self) -> (r: u32)
        ensures
            r == 3,
    {
        3
    }

    /// Goods without a price get a price of 500.
    pub fn migrate_obj_or_prefab(&self, data: &mut MigrationObjData)
        ensures
            same_but_price(*old(data), *final(data)),
            final(data).price == if is_goods(old(data).tags) && old(data).price is None {
                Some(PriceData { price: Some(500), buy: None, sell: None })
            } else {
                old(data).price
            },
    {
        let goods = match &data.tags {
            Some(tags) => has_value(&tags.values, "goods"),
            None => false,
        };
        if goods && data.price.is_none() {
            data.price = Some(PriceData::new(500));
        }
    }
}

/// Whether one of the values is the text.
fn has_value(values: &Vec<String>, text: &str) -> (r: bool)
    ensures
        r == exists|i: int| 0 <= i < values.len() && values@[i]@ == text@,
{
    let mut i: usize = 0;
    while i < values.len()
        invariant
            i <= values.len(),
            forall|j: int| 0 <= j < i ==> values@[j]@ != text@,
        decreases values.len() - i,
    {
        if str_eq(values[i].as_str(), text) {
            return true;
        }
        i = i + 1;
    }
    false
}

/// The tags an item gets: its kind (money, a body or an item), then "armor" and "weapon"
/// where it is one.
pub open spec fn item_tags(item: ItemMigrationData) -> Seq<Seq<char>> {
    let money = item.flags is Some && item.flags->0.money == Some(true);
    let body = item.flags is Some && item.flags->0.body == Some(true);
    let kind = if money {
        "money"@
    } else if body {
        "body"@
    } else {
        "item"@
    };
    seq![kind] + (if item.has_armor {
        seq!["armor"@]
    } else {
        Seq::empty()
    }) + (if item.has_weapon {
        seq!["weapon"@]
    } else {
        Seq::empty()
    })
}

/// The fourth version of the data: items without tags are tagged by what they are.
pub struct MigrationV4AddTags;

impl MigrationV4AddTags {
    pub fn version(&self) -> (r: u32)
        ensures
            r == 4,
    {
        4
    }

    /// An item without tags gets the tags of its kind (see `item_tags`).
    pub fn migrate_obj_or_prefab(&self, data: &mut MigrationObjData)
        ensures
            same_but_tags(*old(data), *final(data)),
            old(data).item is Some && old(data).tags is None ==> final(data).tags is Some
                && final(data).tags->0.values@.map_values(|s: String| s@) == item_tags(old(data).item->0),
            !(old(data).item is Some && old(data).tags is None) ==> final(data).tags == old(data).tags,
    {
        match data.item {
            Some(idata) => {
                let mut tags: Vec<String> = Vec::new();
                let money = match idata.flags {
                    Some(f) => f.money == Some(true),
                    None => false,
                };
                let body = match idata.flags {
                    Some(f) => f.body == Some(true),
                    None => false,
                };
                if money {
                    tags.push(String::from_str("money"));
                } else if body {
                    tags.push(String::from_str("body"));
                } else {
                    tags.push(String::from_str("item"));
                }
                if idata.has_armor {
                    tags.push(String::from_str("armor"));
                }
                if idata.has_weapon {
                    tags.push(String::from_str("weapon"));
                }
                proof {
                    assert(tags@.map_values(|s: String| s@) =~= item_tags(idata));
                }
                if data.tags.is_none() {
                    data.tags = Some(TagsData { values: tags });
                }
            },
            None => {},
        }
    }
}

/// The text starts with the prefix.
pub open spec fn starts_with(s: Seq<char>, prefix: Seq<char>) -> bool {
    prefix.len() <= s.len() && s.take(prefix.len() as int) == prefix
}

fn text_starts_with(s: &str, prefix: &str) -> (r: bool)
    ensures
        r == starts_with(s@, prefix@),
{
    let cs = str_chars(s);
    let cp = str_chars(prefix);
    if cp.len() > cs.len() {
        return false;
    }
    let mut i: usize = 0;
    while i < cp.len()
        invariant
            cp.len() <= cs.len(),
            i <= cp.len(),
            cs@ == s@,
            cp@ == prefix@,
            forall|j: int| 0 <= j < i ==> cs@[j] == cp@[j],
        decreases cp.len() - i,
    {
        if cs[i] != cp[i] {
            proof {
                assert(s@.take(prefix@.len() as int)[i as int] != prefix@[i as int]);
            }
            return false;
        }
        i = i + 1;
    }
    proof {
        assert(s@.take(prefix@.len() as int) =~= prefix@);
    }
    true
}

/// The first object, in the order given, that has a zone of random rooms.
pub open spec fn first_random_zone(objects: Seq<(StaticId, MigrationObjData)>) -> Option<int> {
    if exists|i: int| 0 <= i < objects.len() && objects[i].1.has_random_rooms {
        Some(choose|i: int|
            0 <= i < objects.len() && objects[i].1.has_random_rooms && forall|j: int|
                0 <= j < i ==> !objects[j].1.has_random_rooms)
    } else {
        None
    }
}

/// The object is a generated random room.
pub open spec fn is_random_room(d: MigrationObjData) -> bool {
    d.is_room && d.label is Some && starts_with(d.label->0@, "Random room"@)
}

/// The fifth version of the data: the random rooms are placed in the zone that has random
/// rooms.
pub struct MigrationV5CleanRandomRooms;

impl MigrationV5CleanRandomRooms {
    pub fn version(&self) -> (r: u32)
        ensures
            r == 5,
    {
        5
    }

    /// Where an object has a zone of random rooms, the first one in the order given, every
    /// random room gets it as parent; else nothing changes.
    #[verifier::spinoff_prover]
    #[verifier::rlimit(40)]
    pub fn migrate(&self, objects: &mut Vec<(StaticId, MigrationObjData)>)
        ensures
            final(objects)@.len() == old(objects)@.len(),
            forall|i: int|
                0 <= i < old(objects)@.len() ==> {
                    let (k0, d0) = #[trigger] old(objects)@[i];
                    let (k1, d1) = final(objects)@[i];
                    &&& k1 == k0
                    &&& same_but_parent(d0, d1)
                    &&& d1.parent == match first_random_zone(old(objects)@) {
                        Some(z) => if is_random_room(d0) {
                            Some(old(objects)@[z].0)
                        } else {
                            d0.parent
                        },
                        None => d0.parent,
                    }
                },
    {
        let mut zone: Option<StaticId> = None;
        let mut i: usize = 0;
        while i < objects.len() && zone.is_none()
            invariant
                i <= objects.len(),
                zone is None ==> forall|j: int| 0 <= j < i ==> !objects@[j].1.has_random_rooms,
                zone is Some ==> i >= 1 && objects@[i - 1].1.has_random_rooms && zone->0 == objects@[i - 1].0
                    && forall|j: int| 0 <= j < i - 1 ==> !objects@[j].1.has_random_rooms,
            decreases objects.len() - i,
        {
            if objects[i].1.has_random_rooms {
                zone = Some(objects[i].0);
            }
            i = i + 1;
        }
        let ghost o0 = objects@;
        proof {
            match zone {
                Some(_) => {
                    let w = i - 1;
                    assert(0 <= w < o0.len() && o0[w].1.has_random_rooms);
                    let z = first_random_zone(o0)->0;
                    if z < w {
                        assert(!o0[z].1.has_random_rooms);
                    }
                    if z > w {
                        assert(o0[w].1.has_random_rooms);
                    }
                    assert(z == w);
                },
                None => {
                    assert(!(exists|k: int| 0 <= k < o0.len() && o0[k].1.has_random_rooms));
                },
            }
        }
        let zone_id = match zone {
            Some(z) => z,
            None => {
                return;
            },
        };
        let mut k: usize = 0;
        while k < objects.len()
            invariant
                k <= objects.len(),
                objects@.len() == o0.len(),
                first_random_zone(o0) is Some,
                zone_id == o0[first_random_zone(o0)->0].0,
                forall|j: int|
                    k <= j < o0.len() ==> #[trigger] objects@[j] == o0[j],
                forall|j: int|
                    0 <= j < k ==> {
                        let (k0, d0) = #[trigger] o0[j];
                        let (k1, d1) = objects@[j];
                        &&& k1 == k0
                        &&& same_but_parent(d0, d1)
                        &&& d1.parent == if is_random_room(d0) {
                            Some(zone_id)
                        } else {
                            d0.parent
                        }
                    },
            decreases objects.len() - k,
        {
            let random = objects[k].1.is_room && match &objects[k].1.label {
                Some(label) => text_starts_with(label.as_str(), "Random room"),
                None => false,
            };
            if random {
                let (key, mut data) = objects.remove(k);
                data.parent = Some(zone_id);
                objects.insert(k, (key, data));
            }
            k = k + 1;
        }
    }
}

} // verus!
