use crate::game::container::Container;
use crate::game::domain::Dir;
use crate::game::item::{Item, ItemId};
use crate::game::labels::Label;
use crate::game::location::LocationId;
use crate::game::mob::{Mob, MobId};
use crate::game::room::{exits_view, Room, RoomId};
use crate::ids::ObjId;
use vstd::prelude::*;

verus! {

// Builders of game objects from code, above all for tests.

/// What every builder leaves as it was: outputs, equipment and players.
pub open spec fn same_outputs_and_equips(a: &Container, b: &Container) -> bool {
    a.outputs@ == b.outputs@ && a.equips@ == b.equips@ && a.players@ == b.players@
}

/// A new room, with the label as its name and description.
pub fn add_room(container: &mut Container, label: &str) -> (r: RoomId)
    requires
        old(container).wf(),
        old(container).objects.next_id() < u32::MAX,
    ensures
        final(container).wf(),
        r.0 == old(container).objects.next_id(),
        final(container).objects@ == old(container).objects@.insert(r.0),
        final(container).objects.next_id() == r.0 + 1,
        final(container).rooms@ == old(container).rooms@.insert(r.0, Seq::<(Dir, u32)>::empty()),
        final(container).labels@.dom() == old(container).labels@.dom().insert(r.0),
        final(container).labels@[r.0].id == r,
        final(container).labels@[r.0].label@ == label@,
        final(container).labels@[r.0].desc@ == label@,
        forall|k: u32| k != r.0 ==> #[trigger] final(container).labels@.get(k) == old(container).labels@.get(k),
        final(container).locations@ == old(container).locations@,
        final(container).items@ == old(container).items@,
        final(container).mobs@ == old(container).mobs@,
        same_outputs_and_equips(old(container), final(container)),
{
    let room_id = container.objects.create();
    let room = Room::new(room_id);
    proof {
        assert(exits_view(room) =~= Seq::<(Dir, u32)>::empty());
    }
    container.rooms.add(room);
    container.labels.add(Label::new(room_id, label));
    room_id
}

/// A new item with the label, at the location.
pub fn add_item(container: &mut Container, label: &str, location_id: ObjId) -> (r: ItemId)
    requires
        old(container).wf(),
        old(container).objects.next_id() < u32::MAX,
        location_id.0 != old(container).objects.next_id(),
    ensures
        final(container).wf(),
        r.0 == old(container).objects.next_id(),
        final(container).objects@ == old(container).objects@.insert(r.0),
        final(container).objects.next_id() == r.0 + 1,
        final(container).items@ == old(container).items@.insert(r.0, Item::spec_new(r)),
        final(container).labels@.dom() == old(container).labels@.dom().insert(r.0),
        final(container).labels@[r.0].id == r,
        final(container).labels@[r.0].label@ == label@,
        forall|k: u32| k != r.0 ==> #[trigger] final(container).labels@.get(k) == old(container).labels@.get(k),
        final(container).locations@ == old(container).locations@.insert(r.0, location_id.0),
        final(container).rooms@ == old(container).rooms@,
        final(container).mobs@ == old(container).mobs@,
        same_outputs_and_equips(old(container), final(container)),
{
    let item_id = container.objects.create();
    container.items.add(Item::new(item_id));
    container.labels.add(Label::new(item_id, label));
    container.locations.set(item_id, location_id);
    item_id
}

/// A new item that can hold other items, stuck or not, with the label, at the location.
pub fn add_container(container: &mut Container, label: &str, location_id: ObjId, stuck: bool) -> (r: ItemId)
    requires
        old(container).wf(),
        old(container).objects.next_id() < u32::MAX,
        location_id.0 != old(container).objects.next_id(),
    ensures
        final(container).wf(),
        r.0 == old(container).objects.next_id(),
        final(container).objects@ == old(container).objects@.insert(r.0),
        final(container).objects.next_id() == r.0 + 1,
        final(container).items@.dom() == old(container).items@.dom().insert(r.0),
        final(container).items@[r.0].id == r,
        final(container).items@[r.0].amount == 1,
        final(container).items@[r.0].flags.is_inventory,
        final(container).items@[r.0].flags.is_stuck == stuck,
        !final(container).items@[r.0].flags.is_corpse,
        !final(container).items@[r.0].flags.is_money,
        final(container).items@[r.0].weapon is None,
        final(container).items@[r.0].armor is None,
        final(container).items@[r.0].item_def_id is None,
        forall|k: u32| k != r.0 ==> #[trigger] final(container).items@.get(k) == old(container).items@.get(k),
        final(container).labels@.dom() == old(container).labels@.dom().insert(r.0),
        final(container).labels@[r.0].id == r,
        final(container).labels@[r.0].label@ == label@,
        forall|k: u32| k != r.0 ==> #[trigger] final(container).labels@.get(k) == old(container).labels@.get(k),
        final(container).locations@ == old(container).locations@.insert(r.0, location_id.0),
        final(container).rooms@ == old(container).rooms@,
        final(container).mobs@ == old(container).mobs@,
        same_outputs_and_equips(old(container), final(container)),
{
    let item_id = container.objects.create();
    let mut item = Item::new(item_id);
    item.flags.is_stuck = stuck;
    item.flags.is_inventory = true;
    container.items.add(item);
    container.labels.add(Label::new(item_id, label));
    container.locations.set(item_id, location_id);
    item_id
}

/// A new mob with the label, in the room.
pub fn add_mob(container: &mut Container, label: &str, location_id: LocationId) -> (r: MobId)
    requires
        old(container).wf(),
        old(container).objects.next_id() < u32::MAX,
        location_id.0 != old(container).objects.next_id(),
    ensures
        final(container).wf(),
        r.0 == old(container).objects.next_id(),
        final(container).objects@ == old(container).objects@.insert(r.0),
        final(container).objects.next_id() == r.0 + 1,
        final(container).mobs@.dom() == old(container).mobs@.dom().insert(r.0),
        final(container).mobs@[r.0].is_fresh(r),
        forall|k: u32| k != r.0 ==> #[trigger] final(container).mobs@.get(k) == old(container).mobs@.get(k),
        final(container).labels@.dom() == old(container).labels@.dom().insert(r.0),
        final(container).labels@[r.0].id == r,
        final(container).labels@[r.0].label@ == label@,
        forall|k: u32| k != r.0 ==> #[trigger] final(container).labels@.get(k) == old(container).labels@.get(k),
        final(container).locations@ == old(container).locations@.insert(r.0, location_id.0),
        final(container).rooms@ == old(container).rooms@,
        final(container).items@ == old(container).items@,
        same_outputs_and_equips(old(container), final(container)),
{
    let id = container.objects.create();
    container.mobs.add(Mob::new(id));
    container.labels.add(Label::new(id, label));
    container.locations.set(id, location_id);
    id
}

/// An exit from one room to another in the direction, and back in the inverse direction.
pub fn add_portal(container: &mut Container, from: RoomId, to: RoomId, dir: Dir)
    requires
        old(container).wf(),
        old(container).rooms@.contains_key(from.0),
        old(container).rooms@.contains_key(to.0),
    ensures
        final(container).wf(),
        from.0 != to.0 ==> final(container).rooms@ == old(container).rooms@.insert(
            from.0,
            old(container).rooms@[from.0].push((dir, to.0)),
        ).insert(to.0, old(container).rooms@[to.0].push((dir.spec_inv(), from.0))),
        from.0 == to.0 ==> final(container).rooms@ == old(container).rooms@.insert(
            from.0,
            old(container).rooms@[from.0].push((dir, to.0)).push((dir.spec_inv(), from.0)),
        ),
        final(container).objects@ == old(container).objects@,
        final(container).objects.next_id() == old(container).objects.next_id(),
        final(container).labels@ == old(container).labels@,
        final(container).locations@ == old(container).locations@,
        final(container).items@ == old(container).items@,
        final(container).mobs@ == old(container).mobs@,
        same_outputs_and_equips(old(container), final(container)),
{
    container.rooms.add_portal(from, to, dir);
}

} // verus!
