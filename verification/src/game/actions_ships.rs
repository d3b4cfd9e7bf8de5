use crate::errors::{Error, Result};
use crate::game::actions_items::{same_but_outputs, told};
use crate::game::astro_bodies::AstroBodyKind;
use crate::game::comm;
use crate::game::comm::{space_jump_complete_text, space_jump_failed_text};
use crate::game::container::Container;
use crate::game::mob::MobId;
use crate::game::outputs::Output;
use crate::ids::ObjId;
use vstd::prelude::*;

verus! {

/// What jumping a ship does (see `do_jump`).
pub open spec fn jump_done(c: &Container, f: &Container, mob_id: MobId, ship_id: ObjId, r: Result<()>) -> bool {
    if !c.locations@.contains_key(ship_id.0) || !c.astro_bodies@.contains_key(c.locations@[ship_id.0]) {
        (r matches Err(Error::NotFoundFailure)) && *f == *c
    } else {
        let gate = c.astro_bodies@[c.locations@[ship_id.0]];
        if gate.kind != AstroBodyKind::JumpGate || gate.jump_target_id is None {
            (r matches Err(Error::InvalidArgumentFailure)) && same_but_outputs(c, f) && told(
                c,
                f,
                mob_id,
                space_jump_failed_text(),
            )
        } else {
            let target = gate.jump_target_id->0;
            &&& r is Ok
            &&& f.locations@ == c.locations@.insert(ship_id.0, target.0)
            &&& f.objects@ == c.objects@
            &&& f.objects.next_id() == c.objects.next_id()
            &&& f.labels@ == c.labels@
            &&& f.items@ == c.items@
            &&& f.mobs@ == c.mobs@
            &&& f.equips@ == c.equips@
            &&& f.rooms@ == c.rooms@
            &&& f.players@ == c.players@
            &&& f.astro_bodies@ == c.astro_bodies@
            &&& f.outputs@ == c.outputs@.push(
                Output::Broadcast {
                    exclude: None,
                    location_id: ship_id,
                    recursive: true,
                    msg: f.outputs@.last()->Broadcast_msg,
                },
            )
            &&& f.outputs@.last()->Broadcast_msg@ == space_jump_complete_text()
        }
    }
}

/// Send a ship through the jump gate it is at. `NotFoundFailure` where the ship is nowhere
/// or not at a body of space; `InvalidArgumentFailure`, told to the mob, where that body is
/// no jump gate or leads nowhere.
pub fn do_jump(container: &mut Container, mob_id: MobId, ship_id: ObjId) -> (r: Result<()>)
    requires
        old(container).wf(),
        old(container).astro_bodies@.contains_key(old(container).locations@[ship_id.0]) ==> {
            let target = old(container).astro_bodies@[old(container).locations@[ship_id.0]].jump_target_id;
            target matches Some(t) ==> t != ship_id
        },
    ensures
        final(container).wf(),
        jump_done(old(container), final(container), mob_id, ship_id, r),
{
    let location_id = match container.locations.get(ship_id) {
        Some(id) => id,
        None => {
            return Err(Error::NotFoundFailure);
        },
    };
    let astro_location = match container.astro_bodies.get(location_id) {
        Some(body) => body,
        None => {
            return Err(Error::NotFoundFailure);
        },
    };
    let is_gate = match astro_location.kind {
        AstroBodyKind::JumpGate => true,
        _ => false,
    };
    if !is_gate {
        container.outputs.private(mob_id, comm::space_jump_failed());
        proof {
            crate::game::actions_items::lemma_told(old(container).outputs@, container.outputs@);
        }
        return Err(Error::InvalidArgumentFailure);
    }
    let target_jump_id = match astro_location.jump_target_id {
        Some(id) => id,
        None => {
            container.outputs.private(mob_id, comm::space_jump_failed());
            proof {
                crate::game::actions_items::lemma_told(old(container).outputs@, container.outputs@);
            }
            return Err(Error::InvalidArgumentFailure);
        },
    };
    container.locations.set(ship_id, target_jump_id);
    container.outputs.broadcast_all(None, ship_id, comm::space_jump_complete());
    Ok(())
}

} // verus!
