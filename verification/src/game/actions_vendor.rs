use crate::errors::{Error, Result};
use crate::game::actions_items::{same_but_outputs, told, told_both};
use crate::game::comm;
use crate::game::comm::{
    vendor_buy_fail_text, vendor_buy_item_not_found_text, vendor_buy_success_floor_others_text,
    vendor_buy_success_floor_text, vendor_buy_success_others_text, vendor_buy_success_text,
    vendor_buy_you_have_not_enough_money_text,
};
use crate::game::container::Container;
use crate::game::inventory_service;
use crate::game::inventory_service::{has_money_at, is_money_at, money_removed};
use crate::game::item::ItemId;
use crate::game::labels::label_text;
use crate::game::loader::apply::{spawn_done, ObjLoad};
use crate::game::loader::Loader;
use crate::game::mob::MobId;
use crate::game::prices::Money;
use crate::ids::ObjId;
use vstd::prelude::*;

verus! {

/// `m` is the money the mob has at hand: the amount of a money item it carries, or 0.
pub open spec fn money_read(c: &Container, mob: u32, m: u32) -> bool {
    ||| !has_money_at(c, mob) && m == 0
    ||| exists|id: u32| is_money_at(c, mob, id) && c.items@[id].amount == m
}

/// The label of a prefab, or "undefined".
pub open spec fn prefab_label(p: ObjLoad) -> Seq<char> {
    match p.label {
        Some(l) => l@,
        None => "undefined"@,
    }
}

/// The bought item is made at `place` (see `spawn_done`) and the buyer told, the others at its
/// location `loc` told; where it can not be made, the buyer is told of the failure.
pub open spec fn delivered(
    c2: &Container,
    f: &Container,
    mob_id: MobId,
    loc: u32,
    place: u32,
    data: ObjLoad,
    price: u32,
    new_money: u32,
    fits: bool,
    item_weight: Seq<char>,
    available_weight: Seq<char>,
    r: Result<ItemId>,
) -> bool {
    exists|c3: Container, sr: Result<ItemId>|
        #![trigger spawn_done(c2, &c3, data, ObjId(place), sr)]
        spawn_done(c2, &c3, data, ObjId(place), sr) && same_but_outputs(&c3, f) && match sr {
            Err(e) => r == Err::<ItemId, Error>(e) && told(&c3, f, mob_id, vendor_buy_fail_text()),
            Ok(n) => r == Ok::<ItemId, Error>(n) && {
                let mob = label_text(c3.labels@, mob_id.0);
                let item = label_text(c3.labels@, n.0);
                if fits {
                    told_both(
                        &c3,
                        f,
                        mob_id,
                        vendor_buy_success_text(item, price, new_money),
                        loc,
                        vendor_buy_success_others_text(mob, item),
                    )
                } else {
                    told_both(
                        &c3,
                        f,
                        mob_id,
                        vendor_buy_success_floor_text(item, price, new_money, item_weight, available_weight),
                        loc,
                        vendor_buy_success_floor_others_text(mob, item),
                    )
                }
            },
        }
}

/// Law: a buyer with one money item is refused for lack of money, with only a message,
/// exactly when that item holds less than the price; holding the price or more, the money is
/// taken and the buy ends in the item or in a failure to make it.
pub proof fn buy_refused_only_when_money_is_short(
    c: &Container,
    f: &Container,
    mob_id: MobId,
    prefab: ObjLoad,
    price: Money,
    fits: bool,
    item_weight: Seq<char>,
    available_weight: Seq<char>,
    r: Result<ItemId>,
    id: u32,
)
    requires
        c.locations@.contains_key(mob_id.0),
        is_money_at(c, mob_id.0, id),
        forall|j: u32| #[trigger] is_money_at(c, mob_id.0, j) ==> j == id,
        bought(c, f, mob_id, Some(prefab), Some(price), fits, item_weight, available_weight, r),
    ensures
        c.items@[id].amount < price.0 ==> r == Err::<ItemId, Error>(Error::InvalidArgumentFailure) && same_but_outputs(c, f),
        c.items@[id].amount >= price.0 ==> !(r matches Err(Error::InvalidArgumentFailure)) && !(r matches Err(
            Error::NotFoundFailure,
        )),
{
    let m = choose|m: u32| #[trigger] money_read(c, mob_id.0, m) && if m < price.0 {
        r == Err::<ItemId, Error>(Error::InvalidArgumentFailure) && same_but_outputs(c, f) && told(
            c,
            f,
            mob_id,
            vendor_buy_you_have_not_enough_money_text(m, price.0),
        )
    } else {
        exists|c2: Container, mr: Result<Money>|
            #![trigger money_removed(c, &c2, mob_id.0, price.0, mr)]
            money_removed(c, &c2, mob_id.0, price.0, mr) && c2.wf() && c2.outputs@ == c.outputs@ && match mr {
                Err(e) => r == Err::<ItemId, Error>(e) && same_but_outputs(&c2, f) && told(
                    &c2,
                    f,
                    mob_id,
                    vendor_buy_fail_text(),
                ),
                Ok(nm) => delivered(
                    &c2,
                    f,
                    mob_id,
                    c.locations@[mob_id.0],
                    if fits { mob_id.0 } else { c.locations@[mob_id.0] },
                    prefab,
                    price.0,
                    nm.0,
                    fits,
                    item_weight,
                    available_weight,
                    r,
                ),
            }
    };
    assert(m == c.items@[id].amount);
    if m >= price.0 {
        let (c2, mr) = choose|c2: Container, mr: Result<Money>|
            #![trigger money_removed(c, &c2, mob_id.0, price.0, mr)]
            money_removed(c, &c2, mob_id.0, price.0, mr) && c2.wf() && c2.outputs@ == c.outputs@ && match mr {
                Err(e) => r == Err::<ItemId, Error>(e) && same_but_outputs(&c2, f) && told(
                    &c2,
                    f,
                    mob_id,
                    vendor_buy_fail_text(),
                ),
                Ok(nm) => delivered(
                    &c2,
                    f,
                    mob_id,
                    c.locations@[mob_id.0],
                    if fits { mob_id.0 } else { c.locations@[mob_id.0] },
                    prefab,
                    price.0,
                    nm.0,
                    fits,
                    item_weight,
                    available_weight,
                    r,
                ),
            };
        assert(mr is Ok);
    }
}

/// What buying does (see `buy`).
pub open spec fn bought(
    c: &Container,
    f: &Container,
    mob_id: MobId,
    prefab: Option<ObjLoad>,
    price: Option<Money>,
    fits: bool,
    item_weight: Seq<char>,
    available_weight: Seq<char>,
    r: Result<ItemId>,
) -> bool {
    if !c.locations@.contains_key(mob_id.0) {
        r == Err::<ItemId, Error>(Error::InvalidStateFailure) && same_but_outputs(c, f) && told(c, f, mob_id, vendor_buy_fail_text())
    } else if prefab is None {
        r == Err::<ItemId, Error>(Error::NotFoundException) && same_but_outputs(c, f) && told(c, f, mob_id, vendor_buy_fail_text())
    } else if price is None {
        r == Err::<ItemId, Error>(Error::InvalidStateFailure) && same_but_outputs(c, f) && told(
            c,
            f,
            mob_id,
            vendor_buy_item_not_found_text(prefab_label(prefab->0)),
        )
    } else {
        let cost = price.unwrap().0;
        exists|m: u32|
            #![trigger money_read(c, mob_id.0, m)]
            money_read(c, mob_id.0, m) && if m < cost {
                r == Err::<ItemId, Error>(Error::InvalidArgumentFailure) && same_but_outputs(c, f) && told(
                    c,
                    f,
                    mob_id,
                    vendor_buy_you_have_not_enough_money_text(m, cost),
                )
            } else {
                exists|c2: Container, mr: Result<Money>|
                    #![trigger money_removed(c, &c2, mob_id.0, cost, mr)]
                    money_removed(c, &c2, mob_id.0, cost, mr) && c2.wf() && c2.outputs@ == c.outputs@ && match mr {
                        Err(e) => r == Err::<ItemId, Error>(e) && same_but_outputs(&c2, f) && told(
                            &c2,
                            f,
                            mob_id,
                            vendor_buy_fail_text(),
                        ),
                        Ok(nm) => delivered(&c2, f, mob_id, c.locations@[mob_id.0], if fits { mob_id.0 } else { c.locations@[mob_id.0] }, prefab->0, cost, nm.0, fits, item_weight, available_weight, r),
                    }
            }
    }
}

/// The mob buys, for `price`, an item made from the prefab that a vendor sells: `price` is the
/// vendor's price of it, `None` where the vendor does not sell it. The money leaves the mob, the
/// item is made in its inventory where it `fits`, else on the floor of its location, and the mob
/// and those around are told; the weights, decimal numbers, come written for the message of an
/// item left on the floor. Every failure tells the mob (see `bought`): no location
/// (`InvalidStateFailure`), no prefab (`NotFoundException`), not sold (`InvalidStateFailure`),
/// not enough money (`InvalidArgumentFailure`), the money can not be taken or the item can not
/// be made. A failure to make the item comes after the money was taken.
pub fn buy(
    container: &mut Container,
    mob_id: MobId,
    prefab: Option<&ObjLoad>,
    price: Option<Money>,
    fits: bool,
    item_weight: &str,
    available_weight: &str,
) -> (r: Result<ItemId>)
    requires
        old(container).wf(),
    ensures
        final(container).wf(),
        bought(
            old(container),
            final(container),
            mob_id,
            match prefab {
                Some(pf) => Some(*pf),
                None => None,
            },
            price,
            fits,
            item_weight@,
            available_weight@,
            r,
        ),
{
    let location_id = match container.locations.get(mob_id) {
        Some(l) => l,
        None => {
            container.outputs.private(mob_id, comm::vendor_buy_fail());
            proof {
                assert(container.outputs@.take(old(container).outputs@.len() as int) =~= old(container).outputs@);
            }
            return Err(Error::InvalidStateFailure);
        },
    };
    let data = match prefab {
        Some(p) => p,
        None => {
            container.outputs.private(mob_id, comm::vendor_buy_fail());
            proof {
                assert(container.outputs@.take(old(container).outputs@.len() as int) =~= old(container).outputs@);
            }
            return Err(Error::NotFoundException);
        },
    };
    let buy_price = match price {
        Some(p) => p,
        None => {
            let label = match &data.label {
                Some(l) => l.as_str(),
                None => "undefined",
            };
            proof {
                reveal_strlit("undefined");
            }
            container.outputs.private(mob_id, comm::vendor_buy_item_not_found(label));
            proof {
                assert(container.outputs@.take(old(container).outputs@.len() as int) =~= old(container).outputs@);
            }
            return Err(Error::InvalidStateFailure);
        },
    };
    let mob_money = inventory_service::get_money(container, mob_id)?;
    if mob_money.0 < buy_price.0 {
        container.outputs.private(mob_id, comm::vendor_buy_you_have_not_enough_money(mob_money.0, buy_price.0));
        proof {
            assert(container.outputs@.take(old(container).outputs@.len() as int) =~= old(container).outputs@);
            assert(money_read(old(container), mob_id.0, mob_money.0));
        }
        return Err(Error::InvalidArgumentFailure);
    }
    let ghost c0 = *container;
    let mr = inventory_service::remove_money(container, mob_id, buy_price);
    let ghost c2 = *container;
    proof {
        assert(money_read(old(container), mob_id.0, mob_money.0));
        assert(money_removed(old(container), &c2, mob_id.0, buy_price.0, mr));
    }
    let new_money = match mr {
        Ok(m) => m,
        Err(e) => {
            container.outputs.private(mob_id, comm::vendor_buy_fail());
            proof {
                assert(container.outputs@.take(c2.outputs@.len() as int) =~= c2.outputs@);
                assert(money_read(old(container), mob_id.0, mob_money.0));
                assert(!(mob_money.0 < buy_price.0));
            }
            return Err(e);
        },
    };
    let place = if fits { mob_id } else { location_id };
    let sr = Loader::spawn_at(container, data, place);
    let ghost c3 = *container;
    let item_id = match sr {
        Ok(id) => id,
        Err(e) => {
            container.outputs.private(mob_id, comm::vendor_buy_fail());
            let r = Err(e);
            proof {
                assert(container.outputs@.take(c3.outputs@.len() as int) =~= c3.outputs@);
                assert(spawn_done(&c2, &c3, *data, place, sr));
                assert(delivered(&c2, container, mob_id, location_id.0, place.0, *data, buy_price.0, new_money.0, fits, item_weight@, available_weight@, r));
                assert(money_read(old(container), mob_id.0, mob_money.0));
                assert(!(mob_money.0 < buy_price.0));
            }
            return r;
        },
    };
    let mob_label = container.labels.get_label_f(mob_id);
    let item_label = container.labels.get_label_f(item_id);
    if fits {
        let msg = comm::vendor_buy_success(item_label, buy_price.0, new_money.0);
        let others = comm::vendor_buy_success_others(mob_label, item_label);
        container.outputs.private(mob_id, msg);
        container.outputs.broadcast(Some(mob_id), location_id, others);
    } else {
        let msg = comm::vendor_buy_success_floor(item_label, buy_price.0, new_money.0, item_weight, available_weight);
        let others = comm::vendor_buy_success_floor_others(mob_label, item_label);
        container.outputs.private(mob_id, msg);
        container.outputs.broadcast(Some(mob_id), location_id, others);
    }
    let r = Ok(item_id);
    proof {
        assert(container.outputs@.take(c3.outputs@.len() as int) =~= c3.outputs@);
        assert(spawn_done(&c2, &c3, *data, place, sr));
        assert(same_but_outputs(&c3, container));
        let mob = label_text(c3.labels@, mob_id.0);
        let item = label_text(c3.labels@, item_id.0);
        if fits {
            assert(told_both(
                &c3,
                container,
                mob_id,
                vendor_buy_success_text(item, buy_price.0, new_money.0),
                location_id.0,
                vendor_buy_success_others_text(mob, item),
            ));
        } else {
            assert(told_both(
                &c3,
                container,
                mob_id,
                vendor_buy_success_floor_text(item, buy_price.0, new_money.0, item_weight@, available_weight@),
                location_id.0,
                vendor_buy_success_floor_others_text(mob, item),
            ));
        }
        assert(delivered(&c2, container, mob_id, location_id.0, place.0, *data, buy_price.0, new_money.0, fits, item_weight@, available_weight@, r));
        assert(money_read(old(container), mob_id.0, mob_money.0));
        assert(!(mob_money.0 < buy_price.0));
    }
    r
}

} // verus!
