use crate::errors::{Error, Result};
use crate::ids::{ids_of, ObjId};
use std::collections::HashMap;
use vstd::prelude::*;

verus! {

broadcast use vstd::std_specs::hash::group_hash_axioms;

/// What a mob does on its own.
#[derive(Debug, Clone, PartialEq, Eq)]
pub enum AiCommand {
    Idle,
    /// attack any enemy that enter in the room
    Aggressive,
    /// ignore others, but return combat if attacked
    Passive,
    /// like aggressive, but keep moving into 'distance' from its spawn point
    AggressivePatrolHome {
        /// distance from spawn, zero means stay in the same room
        distance: u32,
    },
    FollowAndProtect { target_id: ObjId },
    Hauler { from: ObjId, to: ObjId, wares: Vec<ObjId> },
}

/// The behaviour of a mob.
#[derive(Debug, Clone, PartialEq, Eq)]
pub struct Ai {
    pub id: ObjId,
    pub command: AiCommand,
    /// can have its commands change by owner?
    pub commandable: bool,
}

impl Ai {
    pub fn new(id: ObjId) -> (r: Self)
        ensures
            r.id == id,
            r.command is Idle,
            !r.commandable,
    {
        Ai { id, command: AiCommand::Idle, commandable: false }
    }
}

/// The two commands are the same, their lists of wares compared by content.
pub open spec fn same_command(a: AiCommand, b: AiCommand) -> bool {
    match a {
        AiCommand::Hauler { from, to, wares } => b matches AiCommand::Hauler { from: f, to: t, wares: w } && f == from
            && t == to && w@ == wares@,
        _ => a == b,
    }
}

/// The behaviour of each mob that has one, by id.
pub struct AiRepo {
    index: HashMap<u32, Ai>,
}

impl View for AiRepo {
    type V = Map<u32, Ai>;

    closed spec fn view(&self) -> Map<u32, Ai> {
        self.index@
    }
}

impl AiRepo {
    /// Every behaviour is stored under its mob's id.
    pub open spec fn wf(&self) -> bool {
        forall|k: u32| #[trigger] self@.contains_key(k) ==> self@[k].id.0 == k
    }

    pub fn new() -> (r: Self)
        ensures
            r.wf(),
            r@ == Map::<u32, Ai>::empty(),
    {
        AiRepo { index: HashMap::new() }
    }

    /// Add a behaviour, refused with `ConflictException` where the mob has one.
    pub fn add_or_update(&mut self, ai: Ai) -> (r: Result<()>)
        requires
            old(self).wf(),
        ensures
            final(self).wf(),
            old(self)@.contains_key(ai.id.0) ==> (r matches Err(Error::ConflictException)) && final(self)@ == old(self)@,
            !old(self)@.contains_key(ai.id.0) ==> r is Ok && final(self)@ == old(self)@.insert(ai.id.0, ai),
    {
        if self.index.contains_key(&ai.id.0) {
            return Err(Error::ConflictException);
        }
        self.index.insert(ai.id.0, ai);
        Ok(())
    }

    pub fn remove(&mut self, id: ObjId) -> (r: Option<Ai>)
        requires
            old(self).wf(),
        ensures
            final(self).wf(),
            final(self)@ == old(self)@.remove(id.0),
            r == old(self)@.get(id.0),
    {
        self.index.remove(&id.0)
    }

    pub fn get(&self, id: ObjId) -> (r: Option<&Ai>)
        ensures
            match r {
                Some(a) => self@.contains_key(id.0) && *a == self@[id.0],
                None => !self@.contains_key(id.0),
            },
    {
        self.index.get(&id.0)
    }

    pub fn exist(&self, id: ObjId) -> (r: bool)
        ensures
            r == self@.contains_key(id.0),
    {
        self.index.contains_key(&id.0)
    }

    /// Every mob with a behaviour, each once, in no given order.
    pub fn list_ids(&self) -> (r: Vec<ObjId>)
        ensures
            r@.map_values(|o: ObjId| o.0).no_duplicates(),
            r@.map_values(|o: ObjId| o.0).to_set() == self@.dom(),
    {
        ids_of(&self.index)
    }

    /// Set the command of a mob that has a behaviour; `NotFoundFailure` where it has none.
    pub fn set_command(&mut self, id: ObjId, command: AiCommand) -> (r: Result<()>)
        requires
            old(self).wf(),
        ensures
            final(self).wf(),
            !old(self)@.contains_key(id.0) ==> (r matches Err(Error::NotFoundFailure)) && final(self)@ == old(self)@,
            old(self)@.contains_key(id.0) ==> r is Ok && final(self)@ == old(self)@.insert(
                id.0,
                Ai { command, ..old(self)@[id.0] },
            ),
    {
        match self.index.remove(&id.0) {
            Some(ai) => {
                self.index.insert(id.0, Ai { command, ..ai });
                Ok(())
            },
            None => Err(Error::NotFoundFailure),
        }
    }
}

/// Where a hauler takes its wares from and to.
#[derive(Debug, Clone)]
pub struct AiCommandHaulData {
    pub from_id: ObjId,
    pub to_id: ObjId,
    pub targets: Vec<ObjId>,
}

#[derive(Debug, Clone, Copy, PartialEq, Eq, Structural)]
pub struct AiCommandAggressivePatrolHomeData {
    pub distance: u32,
}

/// A behaviour as configuration writes it: at most one command is expected.
#[derive(Debug, Clone)]
pub struct AiData {
    pub command_aggressive: Option<bool>,
    pub command_follow_and_protect: Option<ObjId>,
    pub command_haul: Option<AiCommandHaulData>,
    pub command_aggressive_patrol_home: Option<AiCommandAggressivePatrolHomeData>,
    pub commandable: Option<bool>,
}

/// `r` is the behaviour that the data describes for the mob: the first command set, in the
/// order aggressive, follow and protect, haul, patrol; idle where none is.
pub open spec fn is_parsed(id: ObjId, d: AiData, r: Ai) -> bool {
    &&& r.id == id
    &&& r.commandable == (d.commandable == Some(true))
    &&& if d.command_aggressive == Some(true) {
        r.command is Aggressive
    } else if d.command_follow_and_protect is Some {
        r.command == AiCommand::FollowAndProtect { target_id: d.command_follow_and_protect->0 }
    } else if d.command_haul is Some {
        let h = d.command_haul->0;
        r.command matches AiCommand::Hauler { from, to, wares } && from == h.from_id && to == h.to_id && wares@
            == h.targets@
    } else if d.command_aggressive_patrol_home is Some {
        r.command == AiCommand::AggressivePatrolHome { distance: d.command_aggressive_patrol_home->0.distance }
    } else {
        r.command is Idle
    }
}

/// `d` is the data that writes down the behaviour: the field of its command, and
/// `commandable` where it is set.
pub open spec fn is_serialized(ai: Ai, d: AiData) -> bool {
    &&& d.command_aggressive == if ai.command is Aggressive {
        Some(true)
    } else {
        None::<bool>
    }
    &&& d.command_follow_and_protect == match ai.command {
        AiCommand::FollowAndProtect { target_id } => Some(target_id),
        _ => None::<ObjId>,
    }
    &&& match ai.command {
        AiCommand::Hauler { from, to, wares } => d.command_haul is Some && d.command_haul->0.from_id == from
            && d.command_haul->0.to_id == to && d.command_haul->0.targets@ == wares@,
        _ => d.command_haul is None,
    }
    &&& d.command_aggressive_patrol_home == match ai.command {
        AiCommand::AggressivePatrolHome { distance } => Some(AiCommandAggressivePatrolHomeData { distance }),
        _ => None::<AiCommandAggressivePatrolHomeData>,
    }
    &&& d.commandable == if ai.commandable {
        Some(true)
    } else {
        None::<bool>
    }
}

/// The behaviour of a mob from its data (see `is_parsed`).
pub fn parse_ai(obj_id: ObjId, ai_data: &AiData) -> (r: Ai)
    ensures
        is_parsed(obj_id, *ai_data, r),
{
    let command = if ai_data.command_aggressive == Some(true) {
        AiCommand::Aggressive
    } else if let Some(target_id) = ai_data.command_follow_and_protect {
        AiCommand::FollowAndProtect { target_id }
    } else if let Some(haul) = &ai_data.command_haul {
        AiCommand::Hauler { from: haul.from_id, to: haul.to_id, wares: haul.targets.clone() }
    } else if let Some(patrol_data) = &ai_data.command_aggressive_patrol_home {
        AiCommand::AggressivePatrolHome { distance: patrol_data.distance }
    } else {
        AiCommand::Idle
    };
    let commandable = match ai_data.commandable {
        Some(b) => b,
        None => false,
    };
    Ai { id: obj_id, command, commandable }
}

/// The data that writes down a behaviour (see `is_serialized`).
pub fn serialize_ai(ai: &Ai) -> (r: AiData)
    ensures
        is_serialized(*ai, r),
{
    let command_aggressive = match ai.command {
        AiCommand::Aggressive => Some(true),
        _ => None,
    };
    let command_follow_and_protect = match ai.command {
        AiCommand::FollowAndProtect { target_id } => Some(target_id),
        _ => None,
    };
    let command_haul = match &ai.command {
        AiCommand::Hauler { from, to, wares } => Some(
            AiCommandHaulData { from_id: *from, to_id: *to, targets: wares.clone() },
        ),
        _ => None,
    };
    let command_aggressive_patrol_home = match ai.command {
        AiCommand::AggressivePatrolHome { distance } => Some(AiCommandAggressivePatrolHomeData { distance }),
        _ => None,
    };
    AiData {
        command_aggressive,
        command_follow_and_protect,
        command_haul,
        command_aggressive_patrol_home,
        commandable: if ai.commandable {
            Some(true)
        } else {
            None
        },
    }
}

/// Law: a behaviour written down and read back is the same behaviour, but for a passive one,
/// which has no field of its own and reads back as idle.
pub proof fn serialize_then_parse_gives_back(ai: Ai, d: AiData, r: Ai)
    requires
        !(ai.command is Passive),
        is_serialized(ai, d),
        is_parsed(ai.id, d, r),
    ensures
        r.id == ai.id,
        r.commandable == ai.commandable,
        same_command(r.command, ai.command),
{
}

/// A passive behaviour reads back as idle.
pub proof fn passive_reads_back_idle(ai: Ai, d: AiData, r: Ai)
    requires
        ai.command is Passive,
        is_serialized(ai, d),
        is_parsed(ai.id, d, r),
    ensures
        r.command is Idle,
{
}

} // verus!
