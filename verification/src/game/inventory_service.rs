use crate::errors::{Error, Result};
use crate::game::container::{same_rest, Container};
use crate::game::item::{Item, ItemId, ItemRepository};
use crate::game::prices::Money;
use crate::game::labels::{id_values, Labels};
use crate::game::location::{children, is_search_at, obj_values, search_at, Locations};
use crate::ids::ObjId;
use crate::game::equip::equipment_of;
use vstd::prelude::*;

verus! {

broadcast use vstd::set::group_set_axioms;

/// The ids of `ids` that are items.
pub open spec fn only_items(ids: Seq<u32>, items: Map<u32, Item>) -> Seq<u32> {
    ids.filter(|id: u32| items.contains_key(id))
}

/// Items directly at the location whose candidate name matches `label` (see `label_search`);
/// objects without a label are not found.
pub fn search(
    labels: &Labels,
    locations: &Locations,
    items: &ItemRepository,
    location_id: ObjId,
    label: &str,
) -> (r: Vec<ItemId>)
    requires
        labels.wf(),
    ensures
        exists|found: Seq<u32>|
            #![trigger only_items(found, items@)]
            is_search_at(labels, locations@, location_id.0, label@, found) && id_values(r@)
                == only_items(found, items@),
{
    let found = search_at(labels, locations, location_id, label);
    let ghost f = id_values(found@);
    let ghost pred = |id: u32| items@.contains_key(id);
    let mut r: Vec<ItemId> = Vec::new();
    let mut i: usize = 0;
    proof {
        assert(f.take(0) =~= Seq::<u32>::empty());
        assert(id_values(r@) =~= Seq::<u32>::empty());
    }
    while i < found.len()
        invariant
            f == id_values(found@),
            pred == (|id: u32| items@.contains_key(id)),
            i <= found.len(),
            id_values(r@) == f.take(i as int).filter(pred),
        decreases found.len() - i,
    {
        let id = found[i];
        proof {
            assert(f.take(i + 1) =~= f.take(i as int).push(id.0));
            f.take(i as int).lemma_filter_push(id.0, pred);
        }
        let ghost old_r = r@;
        if items.exist(id) {
            r.push(id);
            proof {
                assert(id_values(r@) =~= id_values(old_r).push(id.0));
            }
        }
        i = i + 1;
    }
    proof {
        assert(f.take(found.len() as int) =~= f);
        assert(id_values(r@) == only_items(f, items@));
    }
    r
}

pub open spec fn opt_id(r: Option<ObjId>) -> Option<u32> {
    match r {
        Some(i) => Some(i.0),
        None => None,
    }
}

/// `r` is the first item that a search of `label` finds among the objects at `loc`.
pub open spec fn is_search_one(
    labels: &Labels,
    locations: Map<u32, u32>,
    items: Map<u32, Item>,
    loc: u32,
    label: Seq<char>,
    r: Option<u32>,
) -> bool {
    exists|found: Seq<u32>|
        #![trigger only_items(found, items)]
        is_search_at(labels, locations, loc, label, found) && match r {
            Some(id) => only_items(found, items).len() > 0 && id == only_items(found, items)[0],
            None => only_items(found, items).len() == 0,
        }
}

/// The first item that `search` finds.
pub fn search_one(
    labels: &Labels,
    locations: &Locations,
    items: &ItemRepository,
    location_id: ObjId,
    label: &str,
) -> (r: Option<ItemId>)
    requires
        labels.wf(),
    ensures
        is_search_one(labels, locations@, items@, location_id.0, label@, opt_id(r)),
{
    let r = search(labels, locations, items, location_id, label);
    if r.len() > 0 {
        proof {
            assert(id_values(r@)[0] == r@[0].0);
        }
        Some(r[0])
    } else {
        None
    }
}

/// Move everything located directly at `from` to `to`.
pub fn move_all(locations: &mut Locations, from: ObjId, to: ObjId)
    requires
        !children(old(locations)@, from.0).contains(to.0),
    ensures
        final(locations)@ == Map::new(
            |k: u32| old(locations)@.contains_key(k),
            |k: u32| if old(locations)@[k] == from.0 { to.0 } else { old(locations)@[k] },
        ),
{
    let list = locations.list_at(from);
    let ghost m0 = locations@;
    let mut i: usize = 0;
    while i < list.len()
        invariant
            i <= list.len(),
            obj_values(list@).no_duplicates(),
            obj_values(list@).to_set() == children(m0, from.0),
            !children(m0, from.0).contains(to.0),
            locations@.dom() == m0.dom(),
            forall|k: u32| #[trigger] locations@.contains_key(k) ==> locations@[k] == if obj_values(list@).take(i as int).contains(k) {
                to.0
            } else {
                m0[k]
            },
        decreases list.len() - i,
    {
        let id = list[i];
        proof {
            assert(obj_values(list@)[i as int] == id.0);
            assert(children(m0, from.0).contains(id.0));
            assert(obj_values(list@).take(i + 1) =~= obj_values(list@).take(i as int).push(id.0));
        }
        let ghost before = locations@;
        locations.set(id, to);
        proof {
            assert(locations@.dom() =~= m0.dom());
            let t0 = obj_values(list@).take(i as int);
            let t1 = obj_values(list@).take(i + 1);
            assert forall|k: u32| #[trigger] locations@.contains_key(k) implies locations@[k] == if t1.contains(k) {
                to.0
            } else {
                m0[k]
            } by {
                if k == id.0 {
                    assert(t1[i as int] == k);
                } else {
                    assert(before.contains_key(k));
                    if t1.contains(k) {
                        let j = choose|j: int| 0 <= j < t1.len() && t1[j] == k;
                        assert(t0[j] == k);
                    }
                    if t0.contains(k) {
                        let j = choose|j: int| 0 <= j < t0.len() && t0[j] == k;
                        assert(t1[j] == k);
                    }
                }
            }
        }
        i = i + 1;
    }
    proof {
        assert(obj_values(list@).take(list.len() as int) =~= obj_values(list@));
        assert forall|k: u32| #[trigger] m0.contains_key(k) implies (obj_values(list@).contains(k) <==> m0[k] == from.0) by {
            assert(obj_values(list@).to_set().contains(k) == obj_values(list@).contains(k));
        }
        assert(locations@ =~= Map::new(
            |k: u32| m0.contains_key(k),
            |k: u32| if m0[k] == from.0 { to.0 } else { m0[k] },
        ));
    }
}

/// The items located directly at the object, in no given order.
pub fn get_inventory_list(locations: &Locations, items: &ItemRepository, obj_id: ObjId) -> (r: Vec<Item>)
    ensures
        exists|ids: Seq<ObjId>|
            #![trigger obj_values(ids)]
            obj_values(ids).to_set() == children(locations@, obj_id.0) && obj_values(ids).no_duplicates()
                && r@ == only_items(obj_values(ids), items@).map_values(|k: u32| items@[k]),
{
    let ids = locations.list_at(obj_id);
    let ghost f = obj_values(ids@);
    let ghost pred = |id: u32| items@.contains_key(id);
    let mut r: Vec<Item> = Vec::new();
    let mut i: usize = 0;
    proof {
        assert(f.take(0) =~= Seq::<u32>::empty());
        assert(r@ =~= f.take(0).filter(pred).map_values(|k: u32| items@[k]));
    }
    while i < ids.len()
        invariant
            f == obj_values(ids@),
            pred == (|id: u32| items@.contains_key(id)),
            i <= ids.len(),
            r@ == f.take(i as int).filter(pred).map_values(|k: u32| items@[k]),
        decreases ids.len() - i,
    {
        let id = ids[i];
        proof {
            assert(f.take(i + 1) =~= f.take(i as int).push(id.0));
            f.take(i as int).lemma_filter_push(id.0, pred);
        }
        let ghost old_r = r@;
        match items.get(id) {
            Some(item) => {
                r.push(item);
                proof {
                    assert(r@ =~= f.take(i + 1).filter(pred).map_values(|k: u32| items@[k]));
                }
            },
            None => {},
        }
        i = i + 1;
    }
    proof {
        assert(f.take(ids.len() as int) =~= f);
    }
    r
}

/// `id` is a money item located directly at `loc`.
pub open spec fn is_money_at(c: &Container, loc: u32, id: u32) -> bool {
    &&& c.locations@.contains_key(id)
    &&& c.locations@[id] == loc
    &&& c.items@.contains_key(id)
    &&& c.items@[id].flags.is_money
}

pub open spec fn has_money_at(c: &Container, loc: u32) -> bool {
    exists|id: u32| is_money_at(c, loc, id)
}

/// Every money item at `loc` can take `amount` more.
pub open spec fn money_fits(c: &Container, loc: u32, amount: u32) -> bool {
    forall|id: u32| #[trigger] is_money_at(c, loc, id) ==> c.items@[id].amount + amount <= u32::MAX
}

/// A money item located directly at the object, if there is one.
pub fn get_money_id(container: &Container, obj_id: ObjId) -> (r: Option<ItemId>)
    ensures
        match r {
            Some(id) => is_money_at(container, obj_id.0, id.0),
            None => !has_money_at(container, obj_id.0),
        },
{
    let ids = container.locations.list_at(obj_id);
    let mut i: usize = 0;
    while i < ids.len()
        invariant
            i <= ids.len(),
            obj_values(ids@).to_set() == children(container.locations@, obj_id.0),
            forall|j: int| 0 <= j < i ==> !is_money_at(container, obj_id.0, #[trigger] ids@[j].0),
        decreases ids.len() - i,
    {
        let id = ids[i];
        proof {
            assert(obj_values(ids@)[i as int] == id.0);
            assert(obj_values(ids@).to_set().contains(id.0));
        }
        match container.items.get(id) {
            Some(item) => {
                if item.flags.is_money {
                    return Some(id);
                }
            },
            None => {},
        }
        i = i + 1;
    }
    proof {
        assert forall|id: u32| !is_money_at(container, obj_id.0, id) by {
            if is_money_at(container, obj_id.0, id) {
                assert(children(container.locations@, obj_id.0).contains(id));
                assert(obj_values(ids@).contains(id));
                let j = choose|j: int| 0 <= j < obj_values(ids@).len() && obj_values(ids@)[j] == id;
                assert(ids@[j].0 == id);
            }
        }
    }
    None
}

/// The money the object holds: the amount of a money item located at it, or nothing.
pub fn get_money(container: &Container, obj_id: ObjId) -> (r: Result<Money>)
    ensures
        !has_money_at(container, obj_id.0) ==> r == Ok::<Money, Error>(Money(0)),
        has_money_at(container, obj_id.0) ==> exists|id: u32|
            is_money_at(container, obj_id.0, id) && r == Ok::<Money, Error>(
                Money(container.items@[id].amount),
            ),
{
    match get_money_id(container, obj_id) {
        Some(id) => {
            let item = container.items.get(id).unwrap();
            Ok(Money(item.amount))
        },
        None => Ok(Money(0)),
    }
}

/// What taking an amount from the money of the object does, the outputs aside (see
/// `remove_money`).
pub open spec fn money_removed(c: &Container, f: &Container, obj_id: u32, amount: u32, r: Result<Money>) -> bool {
    if !has_money_at(c, obj_id) {
        r == Err::<Money, Error>(Error::NotFoundFailure) && *f == *c
    } else {
        exists|id: u32|
            #![trigger c.items@[id]]
            is_money_at(c, obj_id, id) && {
                let have = c.items@[id].amount;
                &&& have < amount ==> r == Err::<Money, Error>(Error::InvalidArgumentFailure) && *f == *c
                &&& have == amount ==> r == Ok::<Money, Error>(Money(0)) && removed(c, f, id)
                &&& have > amount ==> r == Ok::<Money, Error>(Money((have - amount) as u32))
                    && f.items@ == c.items@.insert(id, Item { amount: (have - amount) as u32, ..c.items@[id] })
                    && same_but_items(c, f)
            }
    }
}

/// Take an amount from the money of the object. `NotFoundFailure` where it has no money,
/// `InvalidArgumentFailure` where it has less; taking all of it removes the money item.
/// Gives what is left.
pub fn remove_money(container: &mut Container, obj_id: ObjId, amount: Money) -> (r: Result<Money>)
    requires
        old(container).wf(),
    ensures
        final(container).wf(),
        final(container).outputs@ == old(container).outputs@,
        money_removed(old(container), final(container), obj_id.0, amount.0, r),
{
    let item_id = match get_money_id(container, obj_id) {
        Some(id) => id,
        None => {
            return Err(Error::NotFoundFailure);
        },
    };
    let item = container.items.get(item_id).unwrap();
    if item.amount < amount.as_u32() {
        return Err(Error::InvalidArgumentFailure);
    }
    if item.amount == amount.as_u32() {
        container.remove(item_id);
        Ok(Money(0))
    } else {
        let left = item.amount - amount.as_u32();
        container.items.update(Item { amount: left, ..item });
        Ok(Money(left))
    }
}

/// `after` is `before` with `id` removed (see `Container::remove`).
pub open spec fn removed(before: &Container, after: &Container, id: u32) -> bool {
    removed_with_items(before, after, id, before.items@)
}

/// `after` is `before` with its items replaced by `items`, then `id` removed; the outputs
/// are not compared.
pub open spec fn removed_with_items(before: &Container, after: &Container, id: u32, items: Map<u32, Item>) -> bool {
    &&& after.objects@ == before.objects@.remove(id)
    &&& after.objects.next_id() == before.objects.next_id()
    &&& after.labels@ == before.labels@.remove(id)
    &&& after.locations@ == before.locations@.remove(id)
    &&& after.items@ == items.remove(id)
    &&& after.mobs@ == before.mobs@.remove(id)
    &&& after.equips@ == Map::new(
        |k: u32| before.equips@.contains_key(k),
        |k: u32| before.equips@[k].remove(id),
    )
    &&& after.rooms@ == before.rooms@
    &&& after.players@ == before.players@
}

/// Everything but the items and the outputs is as it was.
pub open spec fn same_but_items(before: &Container, after: &Container) -> bool {
    &&& after.objects@ == before.objects@
    &&& after.objects.next_id() == before.objects.next_id()
    &&& after.labels@ == before.labels@
    &&& after.locations@ == before.locations@
    &&& after.mobs@ == before.mobs@
    &&& after.equips@ == before.equips@
    &&& after.rooms@ == before.rooms@
    &&& after.players@ == before.players@
    &&& same_rest(before, after)
}

/// Everything but the locations and the outputs is as it was.
pub open spec fn same_but_locations(before: &Container, after: &Container) -> bool {
    &&& after.objects@ == before.objects@
    &&& after.objects.next_id() == before.objects.next_id()
    &&& after.labels@ == before.labels@
    &&& after.items@ == before.items@
    &&& after.mobs@ == before.mobs@
    &&& after.equips@ == before.equips@
    &&& after.rooms@ == before.rooms@
    &&& after.players@ == before.players@
    &&& same_rest(before, after)
}

/// How money reached an inventory.
#[derive(Debug, Clone, Copy, PartialEq, Eq, Structural)]
pub enum MoneyAdded {
    /// Added to the money item there, and the given money item removed.
    Merged,
    /// Added to the money item there.
    Updated,
    /// The given money item was moved there.
    Moved,
    /// There is no money item to add to, nor one given: nothing changed, and a new money item
    /// of the amount is to be made there from the money prefab.
    Missing,
}

/// The items with `amount` more money in the item `id`.
pub open spec fn with_more_money(items: Map<u32, Item>, id: u32, amount: u32) -> Map<u32, Item> {
    items.insert(id, Item { amount: (items[id].amount + amount) as u32, ..items[id] })
}

/// Add an amount of money to an inventory, given or not as a money item: into the money item
/// already there, else by moving the given one there.
fn add_money_with_item(
    container: &mut Container,
    inventory_id: ObjId,
    amount: Money,
    provided_item_id: Option<ItemId>,
) -> (r: MoneyAdded)
    requires
        old(container).wf(),
        money_fits(old(container), inventory_id.0, amount.0),
        provided_item_id matches Some(p) ==> p != inventory_id && old(container).items@.contains_key(p.0),
    ensures
        final(container).wf(),
        final(container).outputs@ == old(container).outputs@,
        has_money_at(old(container), inventory_id.0) ==> exists|e: u32|
            #![trigger old(container).items@[e]]
            is_money_at(old(container), inventory_id.0, e) && match provided_item_id {
                Some(p) => r == MoneyAdded::Merged && removed_with_items(
                    old(container),
                    final(container),
                    p.0,
                    with_more_money(old(container).items@, e, amount.0),
                ),
                None => r == MoneyAdded::Updated && final(container).items@ == with_more_money(
                    old(container).items@,
                    e,
                    amount.0,
                ) && same_but_items(old(container), final(container)),
            },
        !has_money_at(old(container), inventory_id.0) ==> match provided_item_id {
            Some(p) => r == MoneyAdded::Moved && final(container).locations@ == old(
                container,
            ).locations@.insert(p.0, inventory_id.0) && same_but_locations(old(container), final(container)),
            None => r == MoneyAdded::Missing && *final(container) == *old(container),
        },
{
    let found = get_money_id(container, inventory_id);
    match found {
        Some(item_id) => {
            let item = container.items.get(item_id).unwrap();
            container.items.update(Item { amount: item.amount + amount.as_u32(), ..item });
            match provided_item_id {
                Some(provided) => {
                    container.remove(provided);
                    MoneyAdded::Merged
                },
                None => MoneyAdded::Updated,
            }
        },
        None => match provided_item_id {
            Some(provided) => {
                container.locations.set(provided, inventory_id);
                MoneyAdded::Moved
            },
            None => MoneyAdded::Missing,
        },
    }
}

/// What adding an amount of money to the object does, the outputs aside (see `add_money`).
pub open spec fn money_added(c: &Container, f: &Container, obj_id: u32, amount: u32, r: MoneyAdded) -> bool {
    if has_money_at(c, obj_id) {
        exists|e: u32|
            #![trigger c.items@[e]]
            is_money_at(c, obj_id, e) && r == MoneyAdded::Updated && f.items@ == with_more_money(c.items@, e, amount)
                && same_but_items(c, f)
    } else {
        r == MoneyAdded::Missing && *f == *c
    }
}

/// Add an amount of money to the object (see `MoneyAdded`).
pub fn add_money(container: &mut Container, obj_id: ObjId, amount: Money) -> (r: MoneyAdded)
    requires
        old(container).wf(),
        money_fits(old(container), obj_id.0, amount.0),
    ensures
        final(container).wf(),
        final(container).outputs@ == old(container).outputs@,
        money_added(old(container), final(container), obj_id.0, amount.0, r),
{
    add_money_with_item(container, obj_id, amount, None)
}

/// What putting an existing item in an inventory does, the outputs aside: money joins a money
/// item there, and is removed; anything else is moved there.
pub open spec fn put_into(before: &Container, after: &Container, item_id: u32, location_id: u32) -> bool {
    if before.items@[item_id].flags.is_money && has_money_at(before, location_id) {
        exists|e: u32|
            #![trigger before.items@[e]]
            is_money_at(before, location_id, e) && removed_with_items(
                before,
                after,
                item_id,
                with_more_money(before.items@, e, before.items@[item_id].amount),
            )
    } else {
        after.locations@ == before.locations@.insert(item_id, location_id) && same_but_locations(before, after)
    }
}

/// Put an item in an inventory (see `put_into`). `NotFoundFailure` where there is no such
/// item.
pub fn add(container: &mut Container, item_id: ItemId, location_id: ObjId) -> (r: Result<()>)
    requires
        old(container).wf(),
        item_id != location_id,
        old(container).items@.contains_key(item_id.0) && old(container).items@[item_id.0].flags.is_money
            ==> money_fits(old(container), location_id.0, old(container).items@[item_id.0].amount),
    ensures
        final(container).wf(),
        final(container).outputs@ == old(container).outputs@,
        !old(container).items@.contains_key(item_id.0) ==> (r matches Err(Error::NotFoundFailure))
            && *final(container) == *old(container),
        old(container).items@.contains_key(item_id.0) ==> r is Ok && put_into(
            old(container),
            final(container),
            item_id.0,
            location_id.0,
        ),
{
    let item = match container.items.get(item_id) {
        Some(item) => item,
        None => {
            return Err(Error::NotFoundFailure);
        },
    };
    if item.flags.is_money {
        add_money_with_item(container, location_id, Money(item.amount), Some(item_id));
        Ok(())
    } else {
        container.locations.set(item_id, location_id);
        Ok(())
    }
}

/// Law: from an object with one money item, removing an amount succeeds exactly when the item
/// holds at least that amount, and what is left is what it held less the amount.
pub proof fn removing_money_leaves_the_rest(c: &Container, f: &Container, obj_id: u32, amount: u32, r: Result<Money>, id: u32)
    requires
        is_money_at(c, obj_id, id),
        forall|j: u32| #[trigger] is_money_at(c, obj_id, j) ==> j == id,
        money_removed(c, f, obj_id, amount, r),
    ensures
        r is Ok <==> c.items@[id].amount >= amount,
        r matches Ok(m) ==> m.0 + amount == c.items@[id].amount,
        r is Err ==> r == Err::<Money, Error>(Error::InvalidArgumentFailure) && *f == *c,
{
    let k = choose|k: u32|
        #![trigger c.items@[k]]
        is_money_at(c, obj_id, k) && {
            let have = c.items@[k].amount;
            &&& have < amount ==> r == Err::<Money, Error>(Error::InvalidArgumentFailure) && *f == *c
            &&& have == amount ==> r == Ok::<Money, Error>(Money(0)) && removed(c, f, k)
            &&& have > amount ==> r == Ok::<Money, Error>(Money((have - amount) as u32))
                && f.items@ == c.items@.insert(k, Item { amount: (have - amount) as u32, ..c.items@[k] })
                && same_but_items(c, f)
        };
    assert(k == id);
}

/// Law: where an object holds exactly one money item, of a positive amount, adding an amount of money to it and
/// taking the same amount back leaves its items as they were, and tells what it held.
pub proof fn add_then_remove_money_restores(
    c0: &Container,
    c1: &Container,
    c2: &Container,
    obj_id: ObjId,
    amount: u32,
    r1: MoneyAdded,
    r2: Result<Money>,
)
    requires
        c0.wf(),
        has_money_at(c0, obj_id.0),
        forall|a: u32, b: u32| is_money_at(c0, obj_id.0, a) && is_money_at(c0, obj_id.0, b) ==> a == b,
        forall|a: u32| is_money_at(c0, obj_id.0, a) ==> c0.items@[a].amount > 0,
        amount > 0,
        money_fits(c0, obj_id.0, amount),
        money_added(c0, c1, obj_id.0, amount, r1),
        money_removed(c1, c2, obj_id.0, amount, r2),
    ensures
        r1 == MoneyAdded::Updated,
        exists|e: u32| is_money_at(c0, obj_id.0, e) && r2 == Ok::<Money, Error>(Money(c0.items@[e].amount)),
        c2.items@ == c0.items@,
{
    let e = choose|e: u32|
        #![trigger c0.items@[e]]
        is_money_at(c0, obj_id.0, e) && r1 == MoneyAdded::Updated && c1.items@ == with_more_money(c0.items@, e, amount)
            && same_but_items(c0, c1);
    assert(is_money_at(c1, obj_id.0, e));
    let id = choose|id: u32|
        #![trigger c1.items@[id]]
        is_money_at(c1, obj_id.0, id) && {
            let have = c1.items@[id].amount;
            &&& have < amount ==> r2 == Err::<Money, Error>(Error::InvalidArgumentFailure) && *c2 == *c1
            &&& have == amount ==> r2 == Ok::<Money, Error>(Money(0)) && removed(c1, c2, id)
            &&& have > amount ==> r2 == Ok::<Money, Error>(Money((have - amount) as u32))
                && c2.items@ == c1.items@.insert(id, Item { amount: (have - amount) as u32, ..c1.items@[id] })
                && same_but_items(c1, c2)
        };
    if id != e {
        assert(c1.items@[id] == c0.items@[id]);
        assert(is_money_at(c0, obj_id.0, id));
    }
    assert(c2.items@ =~= c0.items@);
}

/// Law: a removed object is gone: it does not exist, has no label, location, item or mob, and
/// no one uses it.
pub proof fn removed_is_gone(before: &Container, after: &Container, id: u32)
    requires
        removed(before, after, id),
    ensures
        !after.objects@.contains(id),
        !after.labels@.contains_key(id),
        !after.locations@.contains_key(id),
        !after.items@.contains_key(id),
        !after.mobs@.contains_key(id),
        forall|k: u32| !(#[trigger] equipment_of(after.equips@, k)).contains(id),
{
}

} // verus!
