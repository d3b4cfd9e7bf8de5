use crate::errors::{Error, Result};
use crate::game::ai::{Ai, AiCommand};
use crate::game::container::Container;
use crate::ids::ObjId;
use vstd::prelude::*;
use vstd::string::StringExecFns;

verus! {

/// A command an owner can give to what it owns.
#[derive(Debug, Clone, Copy, PartialEq, Eq, Structural)]
pub enum RequestCommand {
    Idle,
    FollowMe,
    Extract,
}

/// The commands an object can be given: all of them.
pub fn list_commands_for(_container: &Container, _obj_id: ObjId) -> (r: Result<Vec<RequestCommand>>)
    ensures
        r is Ok,
        r->Ok_0@ == seq![RequestCommand::Idle, RequestCommand::FollowMe, RequestCommand::Extract],
{
    let mut v = Vec::new();
    v.push(RequestCommand::Idle);
    v.push(RequestCommand::FollowMe);
    v.push(RequestCommand::Extract);
    Ok(v)
}

/// What ordering an object to follow a mob does (see `set_command_follow`).
pub open spec fn follow_set(c: &Container, f: &Container, obj_id: ObjId, followed_id: ObjId, r: Result<()>) -> bool {
    if !c.ai@.contains_key(obj_id.0) {
        (r matches Err(Error::Failure(msg)) && msg@ == "target object expected to have AI"@) && *f == *c
    } else {
        let ai = f.ai@ == c.ai@.insert(
            obj_id.0,
            Ai { command: AiCommand::FollowAndProtect { target_id: followed_id }, ..c.ai@[obj_id.0] },
        );
        if !c.mobs@.contains_key(followed_id.0) {
            &&& (r matches Err(Error::Failure(msg)) && msg@ == "followed id has no mob component"@)
            &&& ai
            &&& f.mobs@ == c.mobs@
        } else {
            &&& r is Ok
            &&& ai
            &&& f.mobs@.dom() == c.mobs@.dom()
            &&& f.mobs@[followed_id.0].followers@ == c.mobs@[followed_id.0].followers@.push(obj_id)
            &&& f.mobs@[followed_id.0].id == c.mobs@[followed_id.0].id
            &&& f.mobs@[followed_id.0].is_avatar == c.mobs@[followed_id.0].is_avatar
            &&& f.mobs@[followed_id.0].attributes == c.mobs@[followed_id.0].attributes
            &&& f.mobs@[followed_id.0].xp == c.mobs@[followed_id.0].xp
            &&& forall|k: u32| k != followed_id.0 && #[trigger] c.mobs@.contains_key(k) ==> f.mobs@[k] == c.mobs@[k]
        }
    }
}

/// Order an object with a behaviour to follow and protect a mob, which it joins as a
/// follower. The behaviour is changed even where the followed one is no mob.
pub fn set_command_follow(container: &mut Container, obj_id: ObjId, followed_id: ObjId) -> (r: Result<()>)
    requires
        old(container).wf(),
    ensures
        final(container).wf(),
        follow_set(old(container), final(container), obj_id, followed_id, r),
        final(container).objects@ == old(container).objects@,
        final(container).objects.next_id() == old(container).objects.next_id(),
        final(container).labels@ == old(container).labels@,
        final(container).locations@ == old(container).locations@,
        final(container).items@ == old(container).items@,
        final(container).equips@ == old(container).equips@,
        final(container).rooms@ == old(container).rooms@,
        final(container).players@ == old(container).players@,
        final(container).outputs@ == old(container).outputs@,
{
    if !container.ai.exist(obj_id) {
        return Err(Error::Failure(String::from_str("target object expected to have AI")));
    }
    let _ = container.ai.set_command(obj_id, AiCommand::FollowAndProtect { target_id: followed_id });
    if !container.mobs.exist(followed_id) {
        return Err(Error::Failure(String::from_str("followed id has no mob component")));
    }
    container.mobs.add_follower(followed_id, obj_id);
    Ok(())
}

} // verus!
