use crate::errors::Error;
use crate::game::comm;
use crate::game::comm::{
    drop_item_others_text, drop_item_text, equip_from_room_text, equip_item_invalid_text,
    equip_player_from_room_text, equip_what_text, pick_fail_item_is_stuck_text,
    pick_fail_storage_is_not_inventory_text, pick_from_room_text, pick_from_text,
    pick_player_from_room_text, pick_player_from_text, strip_from_room_text,
    strip_player_from_room_text,
};
use crate::game::container::{same_rest, Container};
use crate::game::equip::{equipment_of, stripped};
use crate::game::inventory_service;
use crate::game::inventory_service::{has_money_at, money_fits, put_into};
use crate::game::item::ItemId;
use crate::game::labels::label_text;
use crate::game::mob::MobId;
use crate::game::outputs::Output;
use vstd::prelude::*;

verus! {

/// Why an item could not be picked up.
#[derive(Debug)]
pub enum PickUpError {
    Stuck,
    NotInventory,
    Full,
    Other(Error),
}

/// Everything but the outputs is as it was.
pub open spec fn same_but_outputs(before: &Container, after: &Container) -> bool {
    &&& after.objects@ == before.objects@
    &&& after.objects.next_id() == before.objects.next_id()
    &&& after.labels@ == before.labels@
    &&& after.locations@ == before.locations@
    &&& after.items@ == before.items@
    &&& after.mobs@ == before.mobs@
    &&& after.equips@ == before.equips@
    &&& after.rooms@ == before.rooms@
    &&& after.players@ == before.players@
    &&& same_rest(before, after)
}

/// Everything but the equipment and the outputs is as it was.
pub open spec fn same_but_equips(before: &Container, after: &Container) -> bool {
    &&& after.objects@ == before.objects@
    &&& after.objects.next_id() == before.objects.next_id()
    &&& after.labels@ == before.labels@
    &&& after.locations@ == before.locations@
    &&& after.items@ == before.items@
    &&& after.mobs@ == before.mobs@
    &&& after.rooms@ == before.rooms@
    &&& after.players@ == before.players@
    &&& same_rest(before, after)
}

/// A private message to the mob.
pub open spec fn private(mob_id: MobId, msg: Seq<char>, o: Output) -> bool {
    o matches Output::Private { mob_id: m, msg: t } && m == mob_id && t@ == msg
}

/// A message to the others at the location.
pub open spec fn to_others(mob_id: MobId, location: u32, msg: Seq<char>, o: Output) -> bool {
    o matches Output::Broadcast { exclude, location_id, recursive, msg: t } && exclude == Some(mob_id)
        && location_id.0 == location && !recursive && t@ == msg
}

/// The outputs are the old ones and one private message to the mob.
pub open spec fn told(before: &Container, after: &Container, mob_id: MobId, msg: Seq<char>) -> bool {
    &&& after.outputs@.len() == before.outputs@.len() + 1
    &&& after.outputs@.take(before.outputs@.len() as int) == before.outputs@
    &&& private(mob_id, msg, after.outputs@.last())
}

/// The outputs are the old ones, a private message to the mob and one to the others at the
/// location.
pub open spec fn told_both(
    before: &Container,
    after: &Container,
    mob_id: MobId,
    msg: Seq<char>,
    location: u32,
    others: Seq<char>,
) -> bool {
    let n = before.outputs@.len() as int;
    &&& after.outputs@.len() == n + 2
    &&& after.outputs@.take(n) == before.outputs@
    &&& private(mob_id, msg, after.outputs@[n])
    &&& to_others(mob_id, location, others, after.outputs@[n + 1])
}

/// Once messages were pushed, the old ones come first.
pub proof fn lemma_told(before: Seq<Output>, after: Seq<Output>)
    requires
        before.len() <= after.len(),
        forall|i: int| 0 <= i < before.len() ==> after[i] == before[i],
    ensures
        after.take(before.len() as int) == before,
{
    assert(after.take(before.len() as int) =~= before);
}

/// Putting an item away does not look at the outputs.
proof fn lemma_put_into_outputs(a: &Container, b: &Container, f: &Container, item_id: u32, location_id: u32)
    requires
        same_but_outputs(a, b),
        put_into(b, f, item_id, location_id),
    ensures
        put_into(a, f, item_id, location_id),
{
    assert forall|id: u32| inventory_service::is_money_at(a, location_id, id) == inventory_service::is_money_at(
        b,
        location_id,
        id,
    ) by {}
    if a.items@[item_id].flags.is_money && inventory_service::has_money_at(b, location_id) {
        let e = choose|e: u32|
            #![trigger b.items@[e]]
            inventory_service::is_money_at(b, location_id, e) && inventory_service::removed_with_items(
                b,
                f,
                item_id,
                inventory_service::with_more_money(b.items@, e, b.items@[item_id].amount),
            );
        assert(inventory_service::is_money_at(a, location_id, e));
    }
}

/// The mob can pick up the item without ending located at itself or overflowing its money.
pub open spec fn pickable(c: &Container, mob_id: MobId, item_id: ItemId) -> bool {
    &&& item_id != mob_id
    &&& c.items@.contains_key(item_id.0) && c.items@[item_id.0].flags.is_money ==> money_fits(
        c,
        mob_id.0,
        c.items@[item_id.0].amount,
    )
}

/// What picking up an item does (see `do_pickup`).
pub open spec fn pickup_done(c: &Container, f: &Container, mob_id: MobId, item_id: ItemId, inventory_id: Option<ItemId>, fits: bool, r: Result<(), PickUpError>) -> bool {
    let il = label_text(c.labels@, item_id.0);
    let ml = label_text(c.labels@, mob_id.0);
    if !c.items@.contains_key(item_id.0) || !c.locations@.contains_key(mob_id.0) {
        (r matches Err(PickUpError::Other(Error::NotFoundException))) && *f == *c
    } else if c.items@[item_id.0].flags.is_stuck {
        (r matches Err(PickUpError::Stuck)) && same_but_outputs(c, f) && told(
            c,
            f,
            mob_id,
            pick_fail_item_is_stuck_text(il),
        )
    } else if !fits {
        (r matches Err(PickUpError::Full)) && same_but_outputs(c, f) && told(
            c,
            f,
            mob_id,
            pick_fail_storage_is_not_inventory_text(il),
        )
    } else {
        let room = c.locations@[mob_id.0];
        match inventory_id {
            Some(inv) => {
                let invl = label_text(c.labels@, inv.0);
                if !c.items@.contains_key(inv.0) {
                    (r matches Err(PickUpError::Other(Error::NotFoundException))) && *f == *c
                } else if !c.items@[inv.0].flags.is_inventory {
                    (r matches Err(PickUpError::NotInventory)) && same_but_outputs(c, f) && told(
                        c,
                        f,
                        mob_id,
                        pick_fail_storage_is_not_inventory_text(invl),
                    )
                } else {
                    r is Ok && put_into(c, f, item_id.0, mob_id.0) && told_both(
                        c,
                        f,
                        mob_id,
                        pick_player_from_text(invl, il),
                        room,
                        pick_from_text(ml, invl, il),
                    )
                }
            },
            None => r is Ok && put_into(c, f, item_id.0, mob_id.0) && told_both(
                c,
                f,
                mob_id,
                pick_player_from_room_text(il),
                room,
                pick_from_room_text(ml, il),
            ),
        }
    }
}

/// Law: a stuck item is never picked up and nothing moves; a pickup succeeds only for an item
/// that is not stuck and fits, taken from a container only where that is an inventory, and
/// the item then lies at the mob (unless it is money merged into the mob's money).
pub proof fn pickup_takes_only_free_items(
    c: &Container,
    f: &Container,
    mob_id: MobId,
    item_id: ItemId,
    inventory_id: Option<ItemId>,
    fits: bool,
    r: Result<(), PickUpError>,
)
    requires
        pickup_done(c, f, mob_id, item_id, inventory_id, fits, r),
    ensures
        c.items@.contains_key(item_id.0) && c.items@[item_id.0].flags.is_stuck ==> !(r is Ok) && f.locations@
            == c.locations@ && f.items@ == c.items@,
        r is Ok ==> c.items@.contains_key(item_id.0) && !c.items@[item_id.0].flags.is_stuck && fits,
        r is Ok ==> (inventory_id matches Some(i) ==> c.items@[i.0].flags.is_inventory),
        r is Ok && !(c.items@[item_id.0].flags.is_money && has_money_at(c, mob_id.0)) ==> f.locations@.contains_key(
            item_id.0,
        ) && f.locations@[item_id.0] == mob_id.0,
{
}

/// Law: only a weapon or an armor that the mob carries is equipped; equipping it adds exactly
/// that item to the mob's equipment, and anything else leaves the equipment as it was.
pub proof fn equip_takes_only_carried_gear(c: &Container, f: &Container, mob_id: MobId, item_id: ItemId, r: Result<(), Error>)
    requires
        equip_done(c, f, mob_id, item_id, r),
    ensures
        equipment_of(f.equips@, mob_id.0) != equipment_of(c.equips@, mob_id.0) ==> c.items@.contains_key(item_id.0)
            && c.locations@.contains_key(item_id.0) && c.locations@[item_id.0] == mob_id.0
            && (c.items@[item_id.0].weapon is Some || c.items@[item_id.0].armor is Some),
        r is Ok ==> equipment_of(f.equips@, mob_id.0) == equipment_of(c.equips@, mob_id.0).insert(item_id.0),
        !(c.items@.contains_key(item_id.0) && c.locations@.contains_key(item_id.0) && c.locations@[item_id.0]
            == mob_id.0) ==> r is Err && f.equips@ == c.equips@,
{
}

/// What equipping an item does (see `do_equip`).
pub open spec fn equip_done(c: &Container, f: &Container, mob_id: MobId, item_id: ItemId, r: Result<(), Error>) -> bool {
    let il = label_text(c.labels@, item_id.0);
    if !c.items@.contains_key(item_id.0) {
        (r matches Err(Error::NotFoundFailure)) && *f == *c
    } else if !(c.locations@.contains_key(item_id.0) && c.locations@[item_id.0] == mob_id.0) {
        (r matches Err(Error::NotFoundFailure)) && same_but_outputs(c, f) && told(c, f, mob_id, equip_what_text())
    } else if c.items@[item_id.0].weapon is None && c.items@[item_id.0].armor is None {
        (r matches Err(Error::InvalidArgumentFailure)) && same_but_outputs(c, f) && told(
            c,
            f,
            mob_id,
            equip_item_invalid_text(il),
        )
    } else {
        &&& f.equips@ == c.equips@.insert(mob_id.0, equipment_of(c.equips@, mob_id.0).insert(item_id.0))
        &&& same_but_equips(c, f)
        &&& if !c.labels@.contains_key(mob_id.0) || !c.locations@.contains_key(mob_id.0) {
            (r matches Err(Error::NotFoundFailure)) && f.outputs@ == c.outputs@
        } else {
            r is Ok && told_both(
                c,
                f,
                mob_id,
                equip_player_from_room_text(il),
                c.locations@[mob_id.0],
                equip_from_room_text(c.labels@[mob_id.0].label@, il),
            )
        }
    }
}

/// What stripping an item does (see `do_strip`).
pub open spec fn strip_done(c: &Container, f: &Container, mob_id: MobId, item_id: ItemId, r: Result<(), Error>) -> bool {
    if !c.labels@.contains_key(mob_id.0) || !c.locations@.contains_key(mob_id.0)
        || !c.labels@.contains_key(item_id.0) {
        (r matches Err(Error::NotFoundFailure)) && *f == *c
    } else {
        let il = c.labels@[item_id.0].label@;
        &&& r is Ok
        &&& f.equips@ == stripped(c.equips@, mob_id.0, item_id.0)
        &&& same_but_equips(c, f)
        &&& told_both(
            c,
            f,
            mob_id,
            strip_player_from_room_text(il),
            c.locations@[mob_id.0],
            strip_from_room_text(c.labels@[mob_id.0].label@, il),
        )
    }
}

/// What dropping an item does (see `do_drop`).
pub open spec fn drop_done(c: &Container, f: &Container, mob_id: MobId, item_id: ItemId, r: Result<(), Error>) -> bool {
    if !c.labels@.contains_key(mob_id.0) || !c.locations@.contains_key(mob_id.0)
        || !c.labels@.contains_key(item_id.0) {
        (r matches Err(Error::NotFoundFailure)) && *f == *c
    } else {
        let il = c.labels@[item_id.0].label@;
        let room = c.locations@[mob_id.0];
        &&& r is Ok
        &&& f.equips@ == stripped(c.equips@, mob_id.0, item_id.0)
        &&& f.locations@ == c.locations@.insert(item_id.0, room)
        &&& f.objects@ == c.objects@
        &&& f.objects.next_id() == c.objects.next_id()
        &&& f.labels@ == c.labels@
        &&& f.items@ == c.items@
        &&& f.mobs@ == c.mobs@
        &&& f.rooms@ == c.rooms@
        &&& f.players@ == c.players@
        &&& told_both(c, f, mob_id, drop_item_text(il), room, drop_item_others_text(c.labels@[mob_id.0].label@, il))
    }
}

/// The mob picks up an item, from the floor or from the inventory item given. The weight of
/// the item is checked by the caller: `fits` says whether the mob can carry it.
///
/// `Other(NotFoundException)` where the item or the mob's location is unknown, or the given
/// inventory is not an item; `Stuck` where the item can not be moved; `Full` where it does
/// not fit; `NotInventory` where the given inventory can not hold items. Each refusal but the
/// first tells the mob why.
pub fn do_pickup(
    container: &mut Container,
    mob_id: MobId,
    item_id: ItemId,
    inventory_id: Option<ItemId>,
    fits: bool,
) -> (r: Result<(), PickUpError>)
    requires
        old(container).wf(),
        pickable(old(container), mob_id, item_id),
    ensures
        final(container).wf(),
        pickup_done(old(container), final(container), mob_id, item_id, inventory_id, fits, r),
{
    let item = match container.items.get(item_id) {
        Some(item) => item,
        None => {
            return Err(PickUpError::Other(Error::NotFoundException));
        },
    };
    let room_id = match container.locations.get(mob_id) {
        Some(room_id) => room_id,
        None => {
            return Err(PickUpError::Other(Error::NotFoundException));
        },
    };
    let mob_label = container.labels.get_label_f(mob_id);
    let item_label = container.labels.get_label_f(item_id);

    if item.flags.is_stuck {
        let msg = comm::pick_fail_item_is_stuck(item_label);
        container.outputs.private(mob_id, msg);
        proof {
            lemma_told(old(container).outputs@, container.outputs@);
        }
        return Err(PickUpError::Stuck);
    }
    if !fits {
        let msg = comm::pick_fail_storage_is_not_inventory(item_label);
        container.outputs.private(mob_id, msg);
        proof {
            lemma_told(old(container).outputs@, container.outputs@);
        }
        return Err(PickUpError::Full);
    }
    match inventory_id {
        Some(inventory_id) => {
            let inventory_label = container.labels.get_label_f(inventory_id);
            let inventory_item = match container.items.get(inventory_id) {
                Some(item) => item,
                None => {
                    return Err(PickUpError::Other(Error::NotFoundException));
                },
            };
            if !inventory_item.flags.is_inventory {
                let msg = comm::pick_fail_storage_is_not_inventory(inventory_label);
                container.outputs.private(mob_id, msg);
                proof {
                    lemma_told(old(container).outputs@, container.outputs@);
                }
                return Err(PickUpError::NotInventory);
            }
            let msg = comm::pick_player_from(inventory_label, item_label);
            let others = comm::pick_from(mob_label, inventory_label, item_label);
            container.outputs.private(mob_id, msg);
            container.outputs.broadcast(Some(mob_id), room_id, others);
        },
        None => {
            let msg = comm::pick_player_from_room(item_label);
            let others = comm::pick_from_room(mob_label, item_label);
            container.outputs.private(mob_id, msg);
            container.outputs.broadcast(Some(mob_id), room_id, others);
        },
    }
    let ghost mid = *container;
    proof {
        if item.flags.is_money {
            let amount = item.amount;
            assert forall|id: u32| #[trigger] inventory_service::is_money_at(container, mob_id.0, id) implies
                container.items@[id].amount + amount <= u32::MAX by {
                assert(inventory_service::is_money_at(old(container), mob_id.0, id));
            }
        }
    }
    let _ = inventory_service::add(container, item_id, mob_id);
    proof {
        lemma_told(old(container).outputs@, container.outputs@);
        lemma_put_into_outputs(old(container), &mid, container, item_id.0, mob_id.0);
    }
    Ok(())
}

/// The mob starts using an item it carries. `NotFoundFailure` where there is no such item, or
/// the mob does not carry it (told), or where the mob has no label or location once the item is
/// in use; `InvalidArgumentFailure` where the item is neither weapon nor armor (told).
pub fn do_equip(container: &mut Container, mob_id: MobId, item_id: ItemId) -> (r: Result<(), Error>)
    requires
        old(container).wf(),
    ensures
        final(container).wf(),
        equip_done(old(container), final(container), mob_id, item_id, r),
{
    let item = match container.items.get(item_id) {
        Some(item) => item,
        None => {
            return Err(Error::NotFoundFailure);
        },
    };
    let item_label = container.labels.get_label_f(item_id);
    let has_item = match container.locations.get(item_id) {
        Some(location_id) => location_id == mob_id,
        None => false,
    };
    if !has_item {
        let msg = comm::equip_what();
        container.outputs.private(mob_id, msg);
        proof {
            lemma_told(old(container).outputs@, container.outputs@);
        }
        return Err(Error::NotFoundFailure);
    }
    if !item.can_equip() {
        let msg = comm::equip_item_invalid(item_label);
        container.outputs.private(mob_id, msg);
        proof {
            lemma_told(old(container).outputs@, container.outputs@);
        }
        return Err(Error::InvalidArgumentFailure);
    }
    container.equips.add(mob_id, item_id);
    let mob_label = match container.labels.get_label(mob_id) {
        Some(label) => label,
        None => {
            return Err(Error::NotFoundFailure);
        },
    };
    let room_id = match container.locations.get(mob_id) {
        Some(room_id) => room_id,
        None => {
            return Err(Error::NotFoundFailure);
        },
    };
    let msg = comm::equip_player_from_room(item_label);
    let others = comm::equip_from_room(mob_label, item_label);
    container.outputs.private(mob_id, msg);
    container.outputs.broadcast(Some(mob_id), room_id, others);
    proof {
        lemma_told(old(container).outputs@, container.outputs@);
    }
    Ok(())
}

/// The mob stops using an item, where it was using it. `NotFoundFailure` where the mob has no
/// label or location, or the item no label.
pub fn do_strip(container: &mut Container, mob_id: MobId, item_id: ItemId) -> (r: Result<(), Error>)
    requires
        old(container).wf(),
    ensures
        final(container).wf(),
        strip_done(old(container), final(container), mob_id, item_id, r),
{
    let mob_label = match container.labels.get_label(mob_id) {
        Some(label) => label,
        None => {
            return Err(Error::NotFoundFailure);
        },
    };
    let room_id = match container.locations.get(mob_id) {
        Some(room_id) => room_id,
        None => {
            return Err(Error::NotFoundFailure);
        },
    };
    let item_label = match container.labels.get_label(item_id) {
        Some(label) => label,
        None => {
            return Err(Error::NotFoundFailure);
        },
    };
    let _ = container.equips.strip(mob_id, item_id);
    let msg = comm::strip_player_from_room(item_label);
    let others = comm::strip_from_room(mob_label, item_label);
    container.outputs.private(mob_id, msg);
    container.outputs.broadcast(Some(mob_id), room_id, others);
    proof {
        lemma_told(old(container).outputs@, container.outputs@);
    }
    Ok(())
}

/// The mob drops an item where it stands, and stops using it. `NotFoundFailure` where the mob
/// has no label or location, or the item no label. The weights of the inventories are updated
/// by the caller.
pub fn do_drop(container: &mut Container, mob_id: MobId, item_id: ItemId) -> (r: Result<(), Error>)
    requires
        old(container).wf(),
        old(container).locations@.contains_key(mob_id.0) ==> item_id.0 != old(container).locations@[mob_id.0],
    ensures
        final(container).wf(),
        drop_done(old(container), final(container), mob_id, item_id, r),
{
    let mob_label = match container.labels.get_label(mob_id) {
        Some(label) => label,
        None => {
            return Err(Error::NotFoundFailure);
        },
    };
    let room_id = match container.locations.get(mob_id) {
        Some(room_id) => room_id,
        None => {
            return Err(Error::NotFoundFailure);
        },
    };
    let item_label = match container.labels.get_label(item_id) {
        Some(label) => label,
        None => {
            return Err(Error::NotFoundFailure);
        },
    };
    let _ = container.equips.strip(mob_id, item_id);
    container.locations.set(item_id, room_id);
    let msg = comm::drop_item(item_label);
    let others = comm::drop_item_others(mob_label, item_label);
    container.outputs.private(mob_id, msg);
    container.outputs.broadcast(Some(mob_id), room_id, others);
    proof {
        lemma_told(old(container).outputs@, container.outputs@);
    }
    Ok(())
}

/// Law: equipping an item the mob was not using and then stripping it leaves the mob with the
/// equipment it had.
pub proof fn equip_then_strip_restores(
    c0: &Container,
    c1: &Container,
    c2: &Container,
    mob_id: MobId,
    item_id: ItemId,
    r1: Result<(), Error>,
    r2: Result<(), Error>,
)
    requires
        c0.wf(),
        c0.labels@.contains_key(item_id.0),
        !equipment_of(c0.equips@, mob_id.0).contains(item_id.0),
        equip_done(c0, c1, mob_id, item_id, r1),
        r1 is Ok,
        strip_done(c1, c2, mob_id, item_id, r2),
    ensures
        r2 is Ok,
        equipment_of(c2.equips@, mob_id.0) == equipment_of(c0.equips@, mob_id.0),
{
    let e0 = equipment_of(c0.equips@, mob_id.0);
    assert(equipment_of(c1.equips@, mob_id.0) == e0.insert(item_id.0));
    assert(e0.insert(item_id.0).remove(item_id.0) =~= e0);
}

/// Law: an item picked up from the floor of the mob's room and dropped again lies where it
/// lay, and nothing else has moved.
pub proof fn pickup_then_drop_restores(
    c0: &Container,
    c1: &Container,
    c2: &Container,
    mob_id: MobId,
    item_id: ItemId,
    r1: Result<(), PickUpError>,
    r2: Result<(), Error>,
)
    requires
        c0.wf(),
        pickable(c0, mob_id, item_id),
        c0.items@.contains_key(item_id.0),
        !c0.items@[item_id.0].flags.is_money,
        c0.labels@.contains_key(item_id.0),
        c0.labels@.contains_key(mob_id.0),
        c0.locations@.contains_key(mob_id.0),
        c0.locations@.contains_key(item_id.0),
        c0.locations@[item_id.0] == c0.locations@[mob_id.0],
        pickup_done(c0, c1, mob_id, item_id, None, true, r1),
        r1 is Ok,
        drop_done(c1, c2, mob_id, item_id, r2),
    ensures
        r2 is Ok,
        c2.locations@ == c0.locations@,
{
    assert(c1.locations@ == c0.locations@.insert(item_id.0, mob_id.0));
    assert(c2.locations@ =~= c0.locations@);
}

} // verus!
