use crate::game::comm;
use crate::game::comm::item_corpse_appears_in_room_text;
use crate::game::container::Container;
use crate::game::inventory_service;
use crate::game::item::{Item, ItemFlags};
use crate::game::labels::Label;
use crate::game::mob::MobId;
use crate::game::outputs::Output;
use crate::ids::ObjId;
use vstd::prelude::*;
use vstd::string::StringExecFns;

verus! {

/// The label of the corpse of a mob.
pub open spec fn corpse_label_text(mob_label: Seq<char>) -> Seq<char> {
    mob_label + " corpse"@
}

/// The description of the corpse of a mob.
pub open spec fn corpse_desc_text(mob_label: Seq<char>) -> Seq<char> {
    "The corpse of "@ + mob_label + " laying in the ground"@
}

/// The corpse item: an inventory that is someone's body.
pub open spec fn corpse_item(id: ObjId) -> Item {
    Item {
        flags: ItemFlags { is_inventory: true, is_stuck: false, is_corpse: true, is_money: false },
        ..Item::spec_new(id)
    }
}

/// Leave the corpse of a mob where it is: a new item, labelled after the mob, that takes
/// everything the mob carried, announced to the room. Gives the corpse's id, for its decay to
/// be scheduled by the program around the library, which keeps the game's time.
pub fn create_corpse(container: &mut Container, mob_id: MobId) -> (r: ObjId)
    requires
        old(container).wf(),
        old(container).objects.next_id() < u32::MAX,
        old(container).locations@.contains_key(mob_id.0),
        old(container).labels@.contains_key(mob_id.0),
        old(container).locations@[mob_id.0] != old(container).objects.next_id(),
        old(container).locations@[mob_id.0] != mob_id.0,
    ensures
        final(container).wf(),
        r.0 == old(container).objects.next_id(),
        final(container).objects@ == old(container).objects@.insert(r.0),
        final(container).objects.next_id() == r.0 + 1,
        final(container).items@ == old(container).items@.insert(r.0, corpse_item(r)),
        final(container).labels@.dom() == old(container).labels@.dom().insert(r.0),
        final(container).labels@[r.0].id == r,
        final(container).labels@[r.0].label@ == corpse_label_text(old(container).labels@[mob_id.0].label@),
        final(container).labels@[r.0].desc@ == corpse_desc_text(old(container).labels@[mob_id.0].label@),
        forall|k: u32| k != r.0 ==> #[trigger] final(container).labels@.get(k) == old(container).labels@.get(k),
        final(container).locations@ == Map::new(
            |k: u32| old(container).locations@.contains_key(k) || k == r.0,
            |k: u32| if k == r.0 || old(container).locations@[k] == mob_id.0 {
                if k == r.0 { old(container).locations@[mob_id.0] } else { r.0 }
            } else {
                old(container).locations@[k]
            },
        ),
        final(container).mobs@ == old(container).mobs@,
        final(container).rooms@ == old(container).rooms@,
        final(container).equips@ == old(container).equips@,
        final(container).players@ == old(container).players@,
        final(container).outputs@ == old(container).outputs@.push(
            Output::Broadcast {
                exclude: None,
                location_id: ObjId(old(container).locations@[mob_id.0]),
                recursive: false,
                msg: final(container).outputs@.last()->Broadcast_msg,
            },
        ),
        final(container).outputs@.last()->Broadcast_msg@ == item_corpse_appears_in_room_text(
            corpse_label_text(old(container).labels@[mob_id.0].label@),
        ),
{
    let room_id = container.locations.get(mob_id).unwrap();
    let mob_label = container.labels.get_label(mob_id).unwrap();
    let mut corpse_label = String::from_str(mob_label);
    corpse_label.append(" corpse");
    let mut corpse_desc = String::from_str("The corpse of ");
    corpse_desc.append(mob_label);
    corpse_desc.append(" laying in the ground");
    let corpse_id = container.objects.create();
    let mut corpse = Item::new(corpse_id);
    corpse.flags.is_corpse = true;
    corpse.flags.is_inventory = true;
    container.items.add(corpse);
    let ghost l0 = container.locations@;
    inventory_service::move_all(&mut container.locations, mob_id, corpse_id);
    container.locations.set(corpse_id, room_id);
    let msg = comm::item_corpse_appears_in_room(corpse_label.as_str());
    container.labels.add(Label::new_desc(corpse_id, corpse_label.as_str(), corpse_desc.as_str()));
    container.outputs.broadcast(None, room_id, msg);
    proof {
        assert(container.locations@ =~= Map::new(
            |k: u32| old(container).locations@.contains_key(k) || k == corpse_id.0,
            |k: u32| if k == corpse_id.0 || old(container).locations@[k] == mob_id.0 {
                if k == corpse_id.0 { old(container).locations@[mob_id.0] } else { corpse_id.0 }
            } else {
                old(container).locations@[k]
            },
        ));
    }
    corpse_id
}

} // verus!
