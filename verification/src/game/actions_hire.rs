use crate::errors::{Error, Result};
use crate::game::actions_items::{told, told_both};
use crate::game::comm;
use crate::game::comm::{hire_fail_text, hire_others_text, hire_text};
use crate::game::container::Container;
use crate::game::labels::label_text;
use crate::game::mob::MobId;
use vstd::prelude::*;

verus! {

/// Everything but the mobs and the outputs is as it was.
pub open spec fn same_but_mobs(before: &Container, after: &Container) -> bool {
    &&& after.objects@ == before.objects@
    &&& after.objects.next_id() == before.objects.next_id()
    &&& after.labels@ == before.labels@
    &&& after.locations@ == before.locations@
    &&& after.items@ == before.items@
    &&& after.equips@ == before.equips@
    &&& after.rooms@ == before.rooms@
    &&& after.players@ == before.players@
    &&& after.hires@ == before.hires@
}

/// What hiring a mob does (see `hire`).
pub open spec fn hire_done(c: &Container, f: &Container, mob_id: MobId, hired_id: MobId, r: Result<()>) -> bool {
    if !c.locations@.contains_key(mob_id.0) {
        (r matches Err(Error::InvalidStateFailure)) && crate::game::actions_items::same_but_outputs(c, f) && told(
            c,
            f,
            mob_id,
            hire_fail_text(),
        )
    } else if !c.mobs@.contains_key(mob_id.0) {
        (r matches Err(Error::NotFoundFailure)) && *f == *c
    } else {
        let ml = label_text(c.labels@, mob_id.0);
        let hl = label_text(c.labels@, hired_id.0);
        &&& r is Ok
        &&& same_but_mobs(c, f)
        &&& f.mobs@.dom() == c.mobs@.dom()
        &&& f.mobs@[mob_id.0].followers@ == c.mobs@[mob_id.0].followers@.push(hired_id)
        &&& f.mobs@[mob_id.0].id == c.mobs@[mob_id.0].id
        &&& f.mobs@[mob_id.0].is_avatar == c.mobs@[mob_id.0].is_avatar
        &&& f.mobs@[mob_id.0].attributes == c.mobs@[mob_id.0].attributes
        &&& f.mobs@[mob_id.0].xp == c.mobs@[mob_id.0].xp
        &&& forall|k: u32| k != mob_id.0 && #[trigger] c.mobs@.contains_key(k) ==> f.mobs@[k] == c.mobs@[k]
        &&& told_both(c, f, mob_id, hire_text(hl), c.locations@[mob_id.0], hire_others_text(ml, hl))
    }
}

/// The mob hires another one, which starts following it. `InvalidStateFailure`, told to the
/// mob, where it is nowhere; `NotFoundFailure` where it is no mob.
pub fn hire(container: &mut Container, mob_id: MobId, hired_id: MobId) -> (r: Result<()>)
    requires
        old(container).wf(),
    ensures
        final(container).wf(),
        hire_done(old(container), final(container), mob_id, hired_id, r),
{
    let location_id = match container.locations.get(mob_id) {
        Some(location_id) => location_id,
        None => {
            container.outputs.private(mob_id, comm::hire_fail());
            proof {
                crate::game::actions_items::lemma_told(old(container).outputs@, container.outputs@);
            }
            return Err(Error::InvalidStateFailure);
        },
    };
    if !container.mobs.exist(mob_id) {
        return Err(Error::NotFoundFailure);
    }
    container.mobs.add_follower(mob_id, hired_id);
    let mob_label = container.labels.get_label_f(mob_id);
    let hired_label = container.labels.get_label_f(hired_id);
    let msg = comm::hire(hired_label);
    let others = comm::hire_others(mob_label, hired_label);
    container.outputs.private(mob_id, msg);
    container.outputs.broadcast(Some(mob_id), location_id, others);
    proof {
        crate::game::actions_items::lemma_told(old(container).outputs@, container.outputs@);
    }
    Ok(())
}

} // verus!
