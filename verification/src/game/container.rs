use crate::game::ai::AiRepo;
use crate::game::astro_bodies::AstroBodies;
use crate::game::config::Config;
use crate::game::domain::{MobCtx, PlayerCtx};
use crate::game::equip::Equips;
use crate::game::extractable::Extractables;
use crate::game::hire::Hires;
use crate::game::item::ItemRepository;
use crate::game::labels::Labels;
use crate::game::location::Locations;
use crate::game::mob::MobRepository;
use crate::game::obj::Objects;
use crate::game::outputs::Outputs;
use crate::game::player::PlayerRepository;
use crate::game::room::RoomRepository;
use crate::ids::{ObjId, PlayerId};
use crate::game::mob::MobId;
use vstd::prelude::*;

verus! {

/// Every id of `dom` was given before `next`.
pub open spec fn below(dom: Set<u32>, next: u32) -> bool {
    forall|k: u32| #[trigger] dom.contains(k) ==> k < next
}

/// The state of a game world: its objects and what each of them is.
pub struct Container {
    pub objects: Objects,
    pub labels: Labels,
    pub locations: Locations,
    pub items: ItemRepository,
    pub mobs: MobRepository,
    pub rooms: RoomRepository,
    pub equips: Equips,
    pub outputs: Outputs,
    pub players: PlayerRepository,
    pub astro_bodies: AstroBodies,
    pub hires: Hires,
    pub ai: AiRepo,
    pub extractables: Extractables,
    pub config: Config,
}

/// The parts that the actions on items, mobs and places never change: astronomical bodies,
/// hires, behaviours, extractables, the set up, and the rooms whole.
pub open spec fn same_rest(before: &Container, after: &Container) -> bool {
    &&& after.astro_bodies@ == before.astro_bodies@
    &&& after.hires@ == before.hires@
    &&& after.ai@ == before.ai@
    &&& after.extractables@ == before.extractables@
    &&& after.config == before.config
    &&& after.rooms.rooms() == before.rooms.rooms()
}

impl Container {
    /// Each repository keeps its own invariant, and every id in use was given by `objects`.
    pub open spec fn wf(&self) -> bool {
        &&& self.objects.wf()
        &&& self.labels.wf()
        &&& self.items.wf()
        &&& self.mobs.wf()
        &&& self.rooms.wf()
        &&& self.players.wf()
        &&& self.hires.wf()
        &&& self.ai.wf()
        &&& self.extractables.wf()
        &&& below(self.labels@.dom(), self.objects.next_id())
        &&& below(self.locations@.dom(), self.objects.next_id())
        &&& below(self.items@.dom(), self.objects.next_id())
        &&& below(self.mobs@.dom(), self.objects.next_id())
        &&& below(self.rooms@.dom(), self.objects.next_id())
    }

    pub fn new() -> (r: Self)
        ensures
            r.wf(),
            r.objects@ == Set::<u32>::empty(),
            r.objects.next_id() == 0,
            r.labels@ == Map::<u32, crate::game::labels::Label>::empty(),
            r.locations@ == Map::<u32, u32>::empty(),
            r.items@ == Map::<u32, crate::game::item::Item>::empty(),
            r.mobs@ == Map::<u32, crate::game::mob::Mob>::empty(),
            r.rooms@ == Map::<u32, Seq<(crate::game::domain::Dir, u32)>>::empty(),
            r.equips@ == Map::<u32, Set<u32>>::empty(),
            r.outputs@ == Seq::<crate::game::outputs::Output>::empty(),
            r.players@ == Map::<u32, crate::game::player::Player>::empty(),
            r.astro_bodies@ == Map::<u32, crate::game::astro_bodies::AstroBody>::empty(),
            r.hires@ == Map::<u32, crate::game::hire::Hire>::empty(),
            r.ai@ == Map::<u32, crate::game::ai::Ai>::empty(),
            r.extractables@ == Map::<u32, crate::game::extractable::Extractable>::empty(),
            r.config.initial_room is None && r.config.avatar_id is None && r.config.money_id is None
                && r.config.avatar is None,
    {
        Container {
            objects: Objects::new(),
            labels: Labels::new(),
            locations: Locations::new(),
            items: ItemRepository::new(),
            mobs: MobRepository::new(),
            rooms: RoomRepository::new(),
            equips: Equips::new(),
            outputs: Outputs::new(),
            players: PlayerRepository::new(),
            astro_bodies: AstroBodies::new(),
            hires: Hires::new(),
            ai: AiRepo::new(),
            extractables: Extractables::new(),
            config: Config::new(),
        }
    }

    /// Forget an object: it stops existing, loses its label, location, item and mob, and no
    /// one uses it any more. A room stays, and what is located at the object stays there.
    pub fn remove(&mut self, obj_id: ObjId)
        requires
            old(self).wf(),
        ensures
            final(self).wf(),
            final(self).objects@ == old(self).objects@.remove(obj_id.0),
            final(self).objects.next_id() == old(self).objects.next_id(),
            final(self).labels@ == old(self).labels@.remove(obj_id.0),
            final(self).locations@ == old(self).locations@.remove(obj_id.0),
            final(self).items@ == old(self).items@.remove(obj_id.0),
            final(self).mobs@ == old(self).mobs@.remove(obj_id.0),
            final(self).equips@ == Map::new(
                |k: u32| old(self).equips@.contains_key(k),
                |k: u32| old(self).equips@[k].remove(obj_id.0),
            ),
            final(self).rooms@ == old(self).rooms@,
            final(self).players@ == old(self).players@,
            final(self).outputs@ == old(self).outputs@,
            final(self).astro_bodies@ == old(self).astro_bodies@.remove(obj_id.0),
            final(self).hires@ == old(self).hires@,
            final(self).ai@ == old(self).ai@,
            final(self).extractables@ == old(self).extractables@,
    {
        self.objects.remove(obj_id);
        self.mobs.remove(obj_id);
        self.items.remove(obj_id);
        self.locations.remove(obj_id);
        self.equips.remove(obj_id);
        self.labels.remove(obj_id);
        self.astro_bodies.remove(obj_id);
    }

    /// The mob and the room it is in, where both exist.
    pub fn get_mob_ctx(&self, mob_id: MobId) -> (r: Option<MobCtx>)
        requires
            self.wf(),
        ensures
            match r {
                Some(ctx) => {
                    &&& self.mobs@.contains_key(mob_id.0)
                    &&& *ctx.mob == self.mobs@[mob_id.0]
                    &&& self.locations@.contains_key(mob_id.0)
                    &&& self.rooms@.contains_key(self.locations@[mob_id.0])
                    &&& self.rooms.rooms().contains_key(self.locations@[mob_id.0])
                    &&& *ctx.room == self.rooms.rooms()[self.locations@[mob_id.0]]
                },
                None => !self.mobs@.contains_key(mob_id.0) || !self.locations@.contains_key(mob_id.0)
                    || !self.rooms@.contains_key(self.locations@[mob_id.0]),
            },
    {
        let mob = self.mobs.get(mob_id)?;
        let room_id = self.locations.get(mob.id)?;
        let room = self.rooms.get(room_id)?;
        Some(MobCtx { mob, room })
    }

    /// The player, its avatar and the room the avatar is in, where all exist.
    pub fn get_player_ctx(&self, player_id: PlayerId) -> (r: Option<PlayerCtx>)
        requires
            self.wf(),
        ensures
            match r {
                Some(ctx) => {
                    let mob_id = self.players@[player_id.0].mob_id.0;
                    &&& self.players@.contains_key(player_id.0)
                    &&& *ctx.player == self.players@[player_id.0]
                    &&& self.mobs@.contains_key(mob_id)
                    &&& *ctx.mob == self.mobs@[mob_id]
                    &&& self.locations@.contains_key(mob_id)
                    &&& self.rooms@.contains_key(self.locations@[mob_id])
                    &&& self.rooms.rooms().contains_key(self.locations@[mob_id])
                    &&& *ctx.room == self.rooms.rooms()[self.locations@[mob_id]]
                },
                None => {
                    let mob_id = self.players@[player_id.0].mob_id.0;
                    !self.players@.contains_key(player_id.0) || !self.mobs@.contains_key(mob_id)
                        || !self.locations@.contains_key(mob_id) || !self.rooms@.contains_key(self.locations@[mob_id])
                },
            },
    {
        let player = self.players.get(player_id)?;
        let mob = self.mobs.get(player.mob_id)?;
        let room_id = self.locations.get(mob.id)?;
        let room = self.rooms.get(room_id)?;
        Some(PlayerCtx { player, mob, room })
    }
}

} // verus!
