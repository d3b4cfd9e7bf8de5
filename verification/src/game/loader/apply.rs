use crate::errors::{Error, Result};
use crate::game::astro_bodies::{AstroBody, AstroBodyKind};
use crate::game::ai::{is_parsed, is_serialized, serialize_ai, Ai, AiData, AiRepo};
use crate::game::container::Container;
use crate::game::domain::{Dir, Modifier};
use crate::game::hire::{Hire, Hires};
use crate::game::item::{Armor, Damage, Item, ItemFlags, ItemRepository, Weapon};
use crate::game::labels::{Label, Labels};
use crate::game::loader::{static_id_text, write_static_id, Loader};
use crate::game::mob::{Attributes, Mob, MobRepository, Pv};
use crate::game::player::{Player, PlayerRepository};
use crate::game::obj::Objects;
use crate::game::prices::Money;
use crate::game::room::Room;
use crate::ids::{ObjId, StaticId};
use std::collections::HashMap;
use vstd::prelude::*;
use vstd::string::StringExecFns;

verus! {

broadcast use vstd::std_specs::hash::group_hash_axioms;

/// A mob as configuration describes it.
#[derive(Debug, Clone)]
pub struct MobLoad {
    pub attack: u32,
    pub defense: u32,
    pub damage_min: u32,
    pub damage_max: u32,
    pub pv: i32,
    pub pv_max: u32,
    pub xp: u32,
    pub hire_cost: Option<u32>,
}

/// An exit of a room: its direction as written, and the static id it leads to.
#[derive(Debug, Clone)]
pub struct ExitLoad {
    pub dir: String,
    pub to: u32,
}

/// A room as configuration describes it.
#[derive(Debug, Clone)]
pub struct RoomLoad {
    pub can_exit: Option<bool>,
    pub exits: Option<Vec<ExitLoad>>,
}

#[derive(Debug, Clone, Copy)]
pub struct ItemFlagsLoad {
    pub money: Option<bool>,
    pub inventory: Option<bool>,
    pub stuck: Option<bool>,
    pub body: Option<bool>,
}

#[derive(Debug, Clone, Copy)]
pub struct WeaponLoad {
    pub min: u32,
    pub max: u32,
    pub attack: i32,
}

#[derive(Debug, Clone, Copy)]
pub struct ArmorLoad {
    pub defense: i32,
    pub rd: u32,
}

/// An item as configuration describes it, but for its weight and its weapon's calm down, which
/// are decimal numbers.
#[derive(Debug, Clone, Copy)]
pub struct ItemLoad {
    pub flags: Option<ItemFlagsLoad>,
    pub amount: Option<u32>,
    pub weapon: Option<WeaponLoad>,
    pub armor: Option<ArmorLoad>,
}

/// A player: its static id, login and the static id of its avatar.
#[derive(Debug, Clone)]
pub struct PlayerLoad {
    pub id: u32,
    pub login: String,
    pub avatar_id: u32,
}

/// A body of space: the name of its kind and, for a jump gate, the static id of where it leads.
/// Its orbit distance, a decimal number, is read by the program around the library.
#[derive(Debug, Clone)]
pub struct AstroBodyLoad {
    pub kind: String,
    pub jump_target: Option<u32>,
}

/// What configuration says of an object or a prefab, as far as this library keeps it.
#[derive(Debug, Clone)]
pub struct ObjLoad {
    pub id: u32,
    pub parent: Option<u32>,
    pub label: Option<String>,
    pub desc: Option<String>,
    pub mob: Option<MobLoad>,
    pub room: Option<RoomLoad>,
    pub item: Option<ItemLoad>,
    pub player: Option<PlayerLoad>,
    pub ai: Option<AiData>,
    pub astro_body: Option<AstroBodyLoad>,
}

/// The object a static id stands for: the one made for it where there is one, else the object
/// with that id where it exists.
pub open spec fn resolved(objects: Set<u32>, refs: Map<u32, ObjId>, s: u32) -> Option<u32> {
    if refs.contains_key(s) {
        Some(refs[s].0)
    } else if objects.contains(s) {
        Some(s)
    } else {
        None
    }
}

/// The exits of the data, or none.
pub open spec fn exits_of(data: ObjLoad) -> Seq<ExitLoad> {
    match data.room {
        Some(room) => match room.exits {
            Some(exits) => exits@,
            None => Seq::empty(),
        },
        None => Seq::empty(),
    }
}

/// The data describes a jump gate.
pub open spec fn is_jump_gate(data: ObjLoad) -> bool {
    data.astro_body matches Some(ab) && AstroBodyKind::spec_parse(ab.kind@) == Some(AstroBodyKind::JumpGate)
}

/// The static id a jump gate leads to, where the data gives one; that of another body is not
/// read.
pub open spec fn jump_refs(data: ObjLoad) -> Seq<u32> {
    match data.astro_body {
        Some(ab) => if is_jump_gate(data) {
            match ab.jump_target {
                Some(t) => seq![t],
                None => Seq::empty(),
            }
        } else {
            Seq::empty()
        },
        None => Seq::empty(),
    }
}

/// The static ids read before the exits: the parent, then where a jump gate leads.
pub open spec fn head_refs(data: ObjLoad) -> Seq<u32> {
    let parent = match data.parent {
        Some(p) => seq![p],
        None => Seq::empty(),
    };
    parent + jump_refs(data)
}

/// The static ids that the data refers to and that must resolve, in the order they are read:
/// the parent, where a jump gate leads, then the targets of the exits.
pub open spec fn static_refs(data: ObjLoad) -> Seq<u32> {
    head_refs(data) + exits_of(data).map_values(|e: ExitLoad| e.to)
}

/// The astro bodies once the data's body, if any, is given to the object.
pub open spec fn astro_loaded(objects: Set<u32>, refs: Map<u32, ObjId>, bodies: Map<u32, AstroBody>, obj_id: ObjId, data: ObjLoad) -> Map<u32, AstroBody> {
    match data.astro_body {
        Some(ab) => bodies.insert(
            obj_id.0,
            AstroBody {
                id: obj_id,
                kind: AstroBodyKind::spec_parse(ab.kind@)->0,
                jump_target_id: if jump_refs(data).len() > 0 {
                    Some(ObjId(resolved(objects, refs, jump_refs(data)[0])->0))
                } else {
                    None
                },
            },
        ),
        None => bodies,
    }
}


pub open spec fn all_resolve(objects: Set<u32>, refs: Map<u32, ObjId>, data: ObjLoad) -> bool {
    forall|i: int| 0 <= i < static_refs(data).len() ==> (#[trigger] resolved(objects, refs, static_refs(data)[i])) is Some
}

/// The message of a static id that does not resolve.
pub open spec fn unresolved_text(s: u32) -> Seq<char> {
    "Static id "@ + static_id_text(StaticId(s)) + " can not be resolved"@
}

/// What loading may be asked: the object is made and has nothing yet (a second hire or ai for
/// it stops the game), the exits' directions are directions, the player's ids resolve, the
/// astro body's kind is a kind and the parent is not the object (reading the data stops the game otherwise, as an object can not be
/// located at itself).
pub open spec fn load_allowed(c: &Container, obj_id: ObjId, data: ObjLoad, refs: Map<u32, ObjId>) -> bool {
    let o = obj_id.0;
    &&& o < c.objects.next_id()
    &&& !c.labels@.contains_key(o) && !c.locations@.contains_key(o) && !c.mobs@.contains_key(o)
    &&& !c.items@.contains_key(o) && !c.rooms@.contains_key(o) && !c.hires@.contains_key(o) && !c.ai@.contains_key(o)
    &&& forall|i: int| 0 <= i < exits_of(data).len() ==> Dir::spec_parse((#[trigger] exits_of(data)[i]).dir@) is Some
    &&& (data.player matches Some(p) ==> resolved(c.objects@, refs, p.id) is Some && resolved(c.objects@, refs, p.avatar_id) is Some)
    &&& (data.astro_body matches Some(ab) ==> AstroBodyKind::spec_parse(ab.kind@) is Some)
    &&& (data.parent matches Some(p) ==> resolved(c.objects@, refs, p) != Some(o))
}

pub open spec fn flag(b: Option<bool>) -> bool {
    match b {
        Some(v) => v,
        None => false,
    }
}

/// The item that the data describes.
pub open spec fn item_of(o: u32, it: ItemLoad) -> Item {
    Item {
        id: ObjId(o),
        amount: match it.amount {
            Some(a) => a,
            None => 1,
        },
        item_def_id: None,
        weapon: match it.weapon {
            Some(w) => Some(Weapon { damage: Damage { min: w.min, max: w.max }, attack: Modifier(w.attack) }),
            None => None,
        },
        armor: match it.armor {
            Some(a) => Some(Armor { defense: Modifier(a.defense), rd: a.rd }),
            None => None,
        },
        flags: match it.flags {
            Some(fl) => ItemFlags {
                is_inventory: flag(fl.inventory),
                is_stuck: flag(fl.stuck),
                is_corpse: flag(fl.body),
                is_money: flag(fl.money),
            },
            None => ItemFlags { is_inventory: false, is_stuck: false, is_corpse: false, is_money: false },
        },
    }
}

/// The exits of the data as the container keeps them.
pub open spec fn exits_loaded(objects: Set<u32>, refs: Map<u32, ObjId>, data: ObjLoad) -> Seq<(Dir, u32)> {
    exits_of(data).map_values(|e: ExitLoad| (Dir::spec_parse(e.dir@)->0, resolved(objects, refs, e.to)->0))
}

/// What loading the data into the object does.
pub open spec fn loaded(c: &Container, f: &Container, obj_id: ObjId, data: ObjLoad, refs: Map<u32, ObjId>) -> bool {
    let o = obj_id.0;
    &&& f.locations@ == match data.parent {
        Some(p) => c.locations@.insert(o, resolved(c.objects@, refs, p)->0),
        None => c.locations@,
    }
    &&& labels_loaded(c.labels@, f.labels@, obj_id, data)
    &&& mobs_loaded(c.mobs@, f.mobs@, obj_id, data)
    &&& f.hires@ == hires_loaded(c.hires@, obj_id, data)
    &&& match data.room {
        Some(room) => f.rooms@ == c.rooms@.insert(o, exits_loaded(c.objects@, refs, data)) && f.rooms.rooms()[o].can_exit
            == flag(room.can_exit),
        None => f.rooms@ == c.rooms@,
    }
    &&& f.items@ == match data.item {
        Some(it) => c.items@.insert(o, item_of(o, it)),
        None => c.items@,
    }
    &&& players_loaded(c.objects@, refs, c.players@, f.players@, data)
    &&& match data.ai {
        Some(a) => f.ai@.dom() == c.ai@.dom().insert(o) && is_parsed(obj_id, a, f.ai@[o]) && forall|k: u32|
            k != o ==> #[trigger] f.ai@.get(k) == c.ai@.get(k),
        None => f.ai@ == c.ai@,
    }
    &&& f.objects@ == c.objects@ && f.objects.next_id() == c.objects.next_id()
    &&& f.equips@ == c.equips@ && f.outputs@ == c.outputs@
    &&& f.astro_bodies@ == astro_loaded(c.objects@, refs, c.astro_bodies@, obj_id, data)
    &&& f.extractables@ == c.extractables@ && f.config == c.config
}

/// What loading the data has done when it stops at where a jump gate leads, which does not
/// resolve: the parent is the object's location and the label is given; nothing else.
pub open spec fn labelled_only(c: &Container, f: &Container, obj_id: ObjId, data: ObjLoad, refs: Map<u32, ObjId>) -> bool {
    let o = obj_id.0;
    &&& f.locations@ == match data.parent {
        Some(p) => c.locations@.insert(o, resolved(c.objects@, refs, p)->0),
        None => c.locations@,
    }
    &&& labels_loaded(c.labels@, f.labels@, obj_id, data)
    &&& f.mobs@ == c.mobs@ && f.hires@ == c.hires@ && f.astro_bodies@ == c.astro_bodies@
    &&& f.rooms@ == c.rooms@ && f.rooms.rooms() == c.rooms.rooms()
    &&& f.items@ == c.items@ && f.players@ == c.players@ && f.ai@ == c.ai@
    &&& f.objects@ == c.objects@ && f.objects.next_id() == c.objects.next_id()
    &&& f.equips@ == c.equips@ && f.outputs@ == c.outputs@
    &&& f.extractables@ == c.extractables@ && f.config == c.config
}

/// What loading the data has done when it stops at an exit whose target does not resolve: the
/// parent is the object's location, and the label, the astro body, the mob and its hire are
/// given; nothing else.
pub open spec fn partly_loaded(c: &Container, f: &Container, obj_id: ObjId, data: ObjLoad, refs: Map<u32, ObjId>) -> bool {
    let o = obj_id.0;
    &&& f.locations@ == match data.parent {
        Some(p) => c.locations@.insert(o, resolved(c.objects@, refs, p)->0),
        None => c.locations@,
    }
    &&& labels_loaded(c.labels@, f.labels@, obj_id, data)
    &&& mobs_loaded(c.mobs@, f.mobs@, obj_id, data)
    &&& f.hires@ == hires_loaded(c.hires@, obj_id, data)
    &&& f.rooms@ == c.rooms@ && f.rooms.rooms() == c.rooms.rooms()
    &&& f.items@ == c.items@ && f.players@ == c.players@ && f.ai@ == c.ai@
    &&& f.objects@ == c.objects@ && f.objects.next_id() == c.objects.next_id()
    &&& f.equips@ == c.equips@ && f.outputs@ == c.outputs@
    &&& f.astro_bodies@ == astro_loaded(c.objects@, refs, c.astro_bodies@, obj_id, data)
    &&& f.extractables@ == c.extractables@ && f.config == c.config
}

/// The data's parent is given and does not resolve.
pub open spec fn parent_unresolved(objects: Set<u32>, refs: Map<u32, ObjId>, data: ObjLoad) -> bool {
    data.parent matches Some(p) && resolved(objects, refs, p) is None
}

/// Where the jump gate of the data leads does not resolve.
pub open spec fn jump_unresolved(objects: Set<u32>, refs: Map<u32, ObjId>, data: ObjLoad) -> bool {
    jump_refs(data).len() > 0 && resolved(objects, refs, jump_refs(data)[0]) is None
}

/// What a load that fails leaves: nothing where the parent does not resolve, the location and
/// label where the jump gate's target does not (see `labelled_only`), else what was loaded
/// before the exits (see `partly_loaded`).
pub open spec fn failed_load(c: &Container, f: &Container, obj_id: ObjId, data: ObjLoad, refs: Map<u32, ObjId>) -> bool {
    if parent_unresolved(c.objects@, refs, data) {
        *f == *c
    } else if jump_unresolved(c.objects@, refs, data) {
        labelled_only(c, f, obj_id, data, refs)
    } else {
        partly_loaded(c, f, obj_id, data, refs)
    }
}

fn resolve(objects: &Objects, refs: &HashMap<u32, ObjId>, s: u32) -> (r: Option<ObjId>)
    ensures
        match r {
            Some(id) => resolved(objects@, refs@, s) == Some(id.0),
            None => resolved(objects@, refs@, s) is None,
        },
{
    match refs.get(&s) {
        Some(id) => Some(*id),
        None => if objects.exist(ObjId(s)) {
            Some(ObjId(s))
        } else {
            None
        },
    }
}

fn unresolved(s: u32) -> (r: Error)
    ensures
        r matches Error::Failure(m) && m@ == unresolved_text(s),
{
    let mut m = String::from_str("Static id ");
    m.append(write_static_id(StaticId(s)).as_str());
    m.append(" can not be resolved");
    Error::Failure(m)
}

/// The labels once the data's label, if any, is given to the object.
pub open spec fn labels_loaded(c: Map<u32, Label>, f: Map<u32, Label>, obj_id: ObjId, data: ObjLoad) -> bool {
    let o = obj_id.0;
    match data.label {
        Some(l) => f.dom() == c.dom().insert(o) && f[o].id == obj_id && f[o].label@ == l@ && f[o].desc@ == match data.desc {
            Some(d) => d@,
            None => Seq::<char>::empty(),
        } && forall|k: u32| k != o ==> #[trigger] f.get(k) == c.get(k),
        None => f == c,
    }
}

fn load_label(labels: &mut Labels, obj_id: ObjId, data: &ObjLoad)
    requires
        old(labels).wf(),
        !old(labels)@.contains_key(obj_id.0),
    ensures
        final(labels).wf(),
        labels_loaded(old(labels)@, final(labels)@, obj_id, *data),
{
    match &data.label {
        Some(label) => {
            let desc = match &data.desc {
                Some(d) => d.as_str(),
                None => "",
            };
            proof {
                reveal_strlit("");
                assert(data.desc is None ==> desc@ =~= Seq::<char>::empty());
            }
            labels.add(Label::new_desc(obj_id, label.as_str(), desc));
        },
        None => {},
    }
}

/// The mobs once the data's mob, if any, is given to the object.
pub open spec fn mobs_loaded(c: Map<u32, Mob>, f: Map<u32, Mob>, obj_id: ObjId, data: ObjLoad) -> bool {
    let o = obj_id.0;
    match data.mob {
        Some(m) => f.dom() == c.dom().insert(o) && f[o].id == obj_id && !f[o].is_avatar && f[o].xp == m.xp
            && f[o].followers@ == Seq::<ObjId>::empty() && f[o].attributes == (Attributes {
            attack: m.attack,
            defense: m.defense,
            pv: Pv { current: m.pv, max: m.pv_max },
            damage: Damage { min: m.damage_min, max: m.damage_max },
        }) && forall|k: u32| k != o ==> #[trigger] f.get(k) == c.get(k),
        None => f == c,
    }
}

/// The hires once the data's mob, if it has a hire cost, is given to the object.
pub open spec fn hires_loaded(c: Map<u32, Hire>, obj_id: ObjId, data: ObjLoad) -> Map<u32, Hire> {
    match data.mob {
        Some(m) => match m.hire_cost {
            Some(cost) => c.insert(obj_id.0, Hire { id: obj_id, cost: Money(cost) }),
            None => c,
        },
        None => c,
    }
}

fn load_mob(mobs: &mut MobRepository, hires: &mut Hires, obj_id: ObjId, data: &ObjLoad)
    requires
        old(mobs).wf(),
        old(hires).wf(),
        !old(mobs)@.contains_key(obj_id.0),
        !old(hires)@.contains_key(obj_id.0),
    ensures
        final(mobs).wf(),
        final(hires).wf(),
        mobs_loaded(old(mobs)@, final(mobs)@, obj_id, *data),
        final(hires)@ == hires_loaded(old(hires)@, obj_id, *data),
{
    match &data.mob {
        Some(m) => {
            let mob = Mob {
                id: obj_id,
                is_avatar: false,
                attributes: Attributes {
                    attack: m.attack,
                    defense: m.defense,
                    pv: Pv { current: m.pv, max: m.pv_max },
                    damage: Damage { min: m.damage_min, max: m.damage_max },
                },
                xp: m.xp,
                followers: Vec::new(),
            };
            mobs.add(mob);
            match m.hire_cost {
                Some(cost) => {
                    let _ = hires.add(Hire { id: obj_id, cost: Money(cost) });
                },
                None => {},
            }
        },
        None => {},
    }
}

fn load_item(items: &mut ItemRepository, obj_id: ObjId, data: &ObjLoad)
    requires
        old(items).wf(),
        !old(items)@.contains_key(obj_id.0),
    ensures
        final(items).wf(),
        final(items)@ == match data.item {
            Some(it) => old(items)@.insert(obj_id.0, item_of(obj_id.0, it)),
            None => old(items)@,
        },
{
    match &data.item {
        Some(it) => {
            let item = Item {
                id: obj_id,
                amount: match it.amount {
                    Some(a) => a,
                    None => 1,
                },
                item_def_id: None,
                weapon: match it.weapon {
                    Some(w) => Some(Weapon { damage: Damage { min: w.min, max: w.max }, attack: Modifier(w.attack) }),
                    None => None,
                },
                armor: match it.armor {
                    Some(a) => Some(Armor { defense: Modifier(a.defense), rd: a.rd }),
                    None => None,
                },
                flags: match it.flags {
                    Some(fl) => ItemFlags {
                        is_inventory: opt_flag(fl.inventory),
                        is_stuck: opt_flag(fl.stuck),
                        is_corpse: opt_flag(fl.body),
                        is_money: opt_flag(fl.money),
                    },
                    None => ItemFlags { is_inventory: false, is_stuck: false, is_corpse: false, is_money: false },
                },
            };
            items.add(item);
        },
        None => {},
    }
}

/// The players once the data's player, if any, is made.
pub open spec fn players_loaded(
    objects: Set<u32>,
    refs: Map<u32, ObjId>,
    c: Map<u32, Player>,
    f: Map<u32, Player>,
    data: ObjLoad,
) -> bool {
    match data.player {
        Some(p) => {
            let pid = resolved(objects, refs, p.id)->0;
            &&& f.dom() == c.dom().insert(pid)
            &&& f[pid].id == ObjId(pid) && f[pid].login@ == p.login@
            &&& f[pid].mob_id == ObjId(resolved(objects, refs, p.avatar_id)->0)
            &&& forall|k: u32| k != pid ==> #[trigger] f.get(k) == c.get(k)
        },
        None => f == c,
    }
}

fn load_player(players: &mut PlayerRepository, objects: &Objects, refs: &HashMap<u32, ObjId>, data: &ObjLoad)
    requires
        old(players).wf(),
        data.player matches Some(p) ==> resolved(objects@, refs@, p.id) is Some && resolved(objects@, refs@, p.avatar_id) is Some,
    ensures
        final(players).wf(),
        players_loaded(objects@, refs@, old(players)@, final(players)@, *data),
{
    match &data.player {
        Some(p) => {
            let pid = resolve(objects, refs, p.id).unwrap();
            let avatar = resolve(objects, refs, p.avatar_id).unwrap();
            players.create(pid, p.login.clone(), avatar);
            proof {
                assert forall|k: u32| k != pid.0 implies #[trigger] players@.get(k) == old(players)@.get(k) by {}
            }
        },
        None => {},
    }
}

/// The exits of the data, each direction read and each target resolved; `Failure` names the
/// first target that does not resolve.
fn resolve_exits(objects: &Objects, refs: &HashMap<u32, ObjId>, data: &ObjLoad) -> (r: Result<Vec<(Dir, ObjId)>>)
    requires
        forall|i: int| 0 <= i < exits_of(*data).len() ==> Dir::spec_parse((#[trigger] exits_of(*data)[i]).dir@) is Some,
    ensures
        match r {
            Ok(v) => v@.map_values(|e: (Dir, ObjId)| (e.0, e.1.0)) == exits_loaded(objects@, refs@, *data) && forall|i: int|
                0 <= i < exits_of(*data).len() ==> resolved(objects@, refs@, (#[trigger] exits_of(*data)[i]).to) is Some,
            Err(e) => exists|i: int|
                0 <= i < exits_of(*data).len() && resolved(objects@, refs@, (#[trigger] exits_of(*data)[i]).to) is None
                    && (e matches Error::Failure(m) && m@ == unresolved_text(exits_of(*data)[i].to)) && forall|j: int|
                    0 <= j < i ==> resolved(objects@, refs@, (#[trigger] exits_of(*data)[j]).to) is Some,
        },
{
    let mut exits: Vec<(Dir, ObjId)> = Vec::new();
    match &data.room {
        Some(room) => match &room.exits {
            Some(list) => {
                let mut i: usize = 0;
                while i < list.len()
                    invariant
                        i <= list.len(),
                        list@ == exits_of(*data),
                        forall|i: int| 0 <= i < exits_of(*data).len() ==> Dir::spec_parse((#[trigger] exits_of(*data)[i]).dir@) is Some,
                        exits@.len() == i,
                        forall|j: int| 0 <= j < i ==> (#[trigger] exits@[j]).0 == Dir::spec_parse(list@[j].dir@)->0
                            && resolved(objects@, refs@, list@[j].to) == Some(exits@[j].1.0),
                    decreases list.len() - i,
                {
                    let dir = match Dir::parse(list[i].dir.as_str()) {
                        Ok(d) => d,
                        Err(_) => {
                            proof {
                                assert(Dir::spec_parse(exits_of(*data)[i as int].dir@) is Some);
                            }
                            return Err(Error::InvalidStateFailure);
                        },
                    };
                    let to = match resolve(objects, refs, list[i].to) {
                        Some(id) => id,
                        None => {
                            proof {
                                assert(exits_of(*data)[i as int] == list@[i as int]);
                                assert forall|j: int| 0 <= j < i implies resolved(objects@, refs@, (#[trigger] exits_of(*data)[j]).to) is Some by {
                                    assert(exits_of(*data)[j] == list@[j]);
                                    assert(exits@[j].0 == Dir::spec_parse(list@[j].dir@)->0);
                                }
                            }
                            return Err(unresolved(list[i].to));
                        },
                    };
                    exits.push((dir, to));
                    i = i + 1;
                }
            },
            None => {},
        },
        None => {},
    }
    proof {
        assert(exits@.map_values(|e: (Dir, ObjId)| (e.0, e.1.0)) =~= exits_loaded(objects@, refs@, *data));
        assert forall|i: int| 0 <= i < exits_of(*data).len() implies resolved(objects@, refs@, (#[trigger] exits_of(*data)[i]).to) is Some by {
            assert(exits@[i].0 == Dir::spec_parse(exits_of(*data)[i].dir@)->0);
        }
    }
    Ok(exits)
}

impl Loader {
    /// Give the object what the data describes, in this order: its parent, label, astro body,
    /// mob with its hire, room with its exits, item, player and behaviour. Static ids are
    /// resolved through `references`, else as the object of that id. Where one does not resolve,
    /// `Failure` names the first that does not, in the order of `static_refs`, and what was given
    /// before it stays (see `failed_load`).
    #[verifier::rlimit(40)]
    pub fn apply_data(
        container: &mut Container,
        obj_id: ObjId,
        data: &ObjLoad,
        references: &HashMap<u32, ObjId>,
    ) -> (r: Result<()>)
        requires
            old(container).wf(),
            load_allowed(old(container), obj_id, *data, references@),
        ensures
            final(container).wf(),
            r is Ok <==> all_resolve(old(container).objects@, references@, *data),
            r is Ok ==> loaded(old(container), final(container), obj_id, *data, references@),
            r is Err ==> failed_load(old(container), final(container), obj_id, *data, references@) && exists|i: int|
                0 <= i < static_refs(*data).len() && resolved(old(container).objects@, references@, #[trigger] static_refs(*data)[i]) is None
                    && (r matches Err(Error::Failure(m)) && m@ == unresolved_text(static_refs(*data)[i])) && forall|j: int|
                    0 <= j < i ==> resolved(old(container).objects@, references@, #[trigger] static_refs(*data)[j]) is Some,
    {
        let ghost refs = static_refs(*data);
        let ghost pp = match data.parent {
            Some(p) => seq![p],
            None => Seq::<u32>::empty(),
        };
        let ghost js = jump_refs(*data);
        let ghost ps = head_refs(*data);
        let ghost ts = exits_of(*data).map_values(|e: ExitLoad| e.to);
        proof {
            assert(ps == pp + js);
            assert(refs == ps + ts);
        }
        let parent_id = match data.parent {
            Some(p) => match resolve(&container.objects, references, p) {
                Some(id) => Some(id),
                None => {
                    proof {
                        assert(refs[0] == p);
                    }
                    return Err(unresolved(p));
                },
            },
            None => None,
        };
        let ghost c = *container;
        load_label(&mut container.labels, obj_id, data);
        match parent_id {
            Some(p) => container.locations.set(obj_id, p),
            None => {},
        }
        proof {
            assert(labels_loaded(c.labels@, container.labels@, obj_id, *data));
        }
        match &data.astro_body {
            Some(ab) => {
                let kind = match AstroBodyKind::parse(ab.kind.as_str()) {
                    Some(k) => k,
                    None => {
                        proof {
                            assert(false);
                        }
                        return Err(Error::InvalidStateFailure);
                    },
                };
                let jump_target_id = match kind {
                    AstroBodyKind::JumpGate => match ab.jump_target {
                        Some(t) => match resolve(&container.objects, references, t) {
                            Some(id) => Some(id),
                            None => {
                                proof {
                                    assert(js == seq![t]);
                                    assert(refs[pp.len() as int] == t);
                                    assert forall|j: int| 0 <= j < pp.len() implies resolved(
                                        old(container).objects@,
                                        references@,
                                        #[trigger] refs[j],
                                    ) is Some by {
                                        assert(refs[j] == data.parent->0);
                                    }
                                    assert(labelled_only(&c, container, obj_id, *data, references@));
                                }
                                return Err(unresolved(t));
                            },
                        },
                        None => None,
                    },
                    _ => None,
                };
                let _ = container.astro_bodies.upsert(AstroBody { id: obj_id, kind, jump_target_id });
            },
            None => {},
        }
        proof {
            assert(container.astro_bodies@ == astro_loaded(c.objects@, references@, c.astro_bodies@, obj_id, *data));
            assert(js.len() > 0 ==> resolved(c.objects@, references@, js[0]) is Some);
        }
        load_mob(&mut container.mobs, &mut container.hires, obj_id, data);
        proof {
            assert(mobs_loaded(c.mobs@, container.mobs@, obj_id, *data));
            assert(partly_loaded(&c, container, obj_id, *data, references@));
        }
        let exits = match resolve_exits(&container.objects, references, data) {
            Ok(v) => v,
            Err(e) => {
                proof {
                    let i = choose|i: int|
                        0 <= i < exits_of(*data).len() && resolved(container.objects@, references@, (#[trigger] exits_of(*data)[i]).to) is None
                            && (e matches Error::Failure(m) && m@ == unresolved_text(exits_of(*data)[i].to)) && forall|j: int|
                            0 <= j < i ==> resolved(container.objects@, references@, (#[trigger] exits_of(*data)[j]).to) is Some;
                    assert(refs[ps.len() + i] == ts[i]);
                    assert forall|j: int| 0 <= j < ps.len() + i implies resolved(
                        old(container).objects@,
                        references@,
                        #[trigger] refs[j],
                    ) is Some by {
                        if j < pp.len() {
                            assert(refs[j] == data.parent->0);
                        } else if j < ps.len() {
                            assert(refs[j] == js[0]);
                        } else {
                            assert(refs[j] == ts[j - ps.len()]);
                            assert(ts[j - ps.len()] == exits_of(*data)[j - ps.len()].to);
                        }
                    }
                }
                return Err(e);
            },
        };
        proof {
            assert forall|i: int| 0 <= i < refs.len() implies (#[trigger] resolved(
                old(container).objects@,
                references@,
                refs[i],
            )) is Some by {
                if i < pp.len() {
                    assert(refs[i] == data.parent->0);
                } else if i < ps.len() {
                    assert(refs[i] == js[0]);
                } else {
                    let k = i - ps.len();
                    assert(refs[i] == ts[k]);
                    assert(ts[k] == exits_of(*data)[k].to);
                }
            }
        }
        match &data.room {
            Some(room) => {
                let can_exit = match room.can_exit {
                    Some(b) => b,
                    None => false,
                };
                container.rooms.add(Room { id: obj_id, can_exit, exits });
            },
            None => {},
        }
        load_item(&mut container.items, obj_id, data);
        load_player(&mut container.players, &container.objects, references, data);
        match &data.ai {
            Some(a) => {
                let _ = Loader::apply_ai_data(&mut container.ai, obj_id, a);
            },
            None => {},
        }
        proof {
            assert(labels_loaded(c.labels@, container.labels@, obj_id, *data));
            assert(mobs_loaded(c.mobs@, container.mobs@, obj_id, *data));
        }
        Ok(())
    }
}

fn opt_flag(b: Option<bool>) -> (r: bool)
    ensures
        r == flag(b),
{
    match b {
        Some(v) => v,
        None => false,
    }
}

} // verus!

verus! {

pub open spec fn true_or_none(b: bool) -> Option<bool> {
    if b {
        Some(true)
    } else {
        None
    }
}

/// `d` writes down the object `id` of the container: its label and non-empty description, its
/// location as parent, its room with its exits (a room that can be left is marked so), its mob
/// with the hire cost, its item (an amount of one and unset flags left out), its player, its
/// behaviour and its astro body.
pub open spec fn snapshot_of(c: &Container, id: ObjId, d: ObjLoad) -> bool {
    let o = id.0;
    &&& d.id == o
    &&& match d.label {
        Some(l) => c.labels@.contains_key(o) && l@ == c.labels@[o].label@,
        None => !c.labels@.contains_key(o),
    }
    &&& match d.desc {
        Some(x) => c.labels@.contains_key(o) && x@ == c.labels@[o].desc@ && x@.len() > 0,
        None => !c.labels@.contains_key(o) || c.labels@[o].desc@.len() == 0,
    }
    &&& d.parent == if c.locations@.contains_key(o) {
        Some(c.locations@[o])
    } else {
        None::<u32>
    }
    &&& match d.room {
        Some(room) => c.rooms@.contains_key(o) && room.can_exit == true_or_none(c.rooms.rooms()[o].can_exit) && (
        room.exits matches Some(es) && es@.len() == c.rooms@[o].len() && forall|i: int|
            0 <= i < es@.len() ==> (#[trigger] es@[i]).dir@ == seq![c.rooms@[o][i].0.code()] && es@[i].to == c.rooms@[o][i].1),
        None => !c.rooms@.contains_key(o),
    }
    &&& match d.mob {
        Some(m) => {
            let mob = c.mobs@[o];
            &&& c.mobs@.contains_key(o)
            &&& m.attack == mob.attributes.attack && m.defense == mob.attributes.defense
            &&& m.damage_min == mob.attributes.damage.min && m.damage_max == mob.attributes.damage.max
            &&& m.pv == mob.attributes.pv.current && m.pv_max == mob.attributes.pv.max && m.xp == mob.xp
            &&& m.hire_cost == if c.hires@.contains_key(o) {
                Some(c.hires@[o].cost.0)
            } else {
                None::<u32>
            }
        },
        None => !c.mobs@.contains_key(o),
    }
    &&& match d.item {
        Some(it) => {
            let item = c.items@[o];
            &&& c.items@.contains_key(o)
            &&& it.amount == if item.amount == 1 {
                None::<u32>
            } else {
                Some(item.amount)
            }
            &&& it.flags == Some(
                ItemFlagsLoad {
                    money: true_or_none(item.flags.is_money),
                    inventory: true_or_none(item.flags.is_inventory),
                    stuck: true_or_none(item.flags.is_stuck),
                    body: true_or_none(item.flags.is_corpse),
                },
            )
            &&& it.weapon == match item.weapon {
                Some(w) => Some(WeaponLoad { min: w.damage.min, max: w.damage.max, attack: w.attack.0 }),
                None => None::<WeaponLoad>,
            }
            &&& it.armor == match item.armor {
                Some(a) => Some(ArmorLoad { defense: a.defense.0, rd: a.rd }),
                None => None::<ArmorLoad>,
            }
        },
        None => !c.items@.contains_key(o),
    }
    &&& match d.player {
        Some(p) => c.players@.contains_key(o) && p.id == c.players@[o].id.0 && p.login@ == c.players@[o].login@
            && p.avatar_id == c.players@[o].mob_id.0,
        None => !c.players@.contains_key(o),
    }
    &&& match d.ai {
        Some(a) => c.ai@.contains_key(o) && is_serialized(c.ai@[o], a),
        None => !c.ai@.contains_key(o),
    }
    &&& match d.astro_body {
        Some(ab) => c.astro_bodies@.contains_key(o) && ab.kind@ == c.astro_bodies@[o].kind.name() && ab.jump_target
            == match c.astro_bodies@[o].jump_target_id {
            Some(t) => Some(t.0),
            None => None::<u32>,
        },
        None => !c.astro_bodies@.contains_key(o),
    }
}

fn snapshot_exits(exits: &Vec<(Dir, ObjId)>) -> (r: Vec<ExitLoad>)
    ensures
        r@.len() == exits@.len(),
        forall|i: int| 0 <= i < r@.len() ==> (#[trigger] r@[i]).dir@ == seq![exits@[i].0.code()] && r@[i].to == exits@[i].1.0,
{
    let mut r: Vec<ExitLoad> = Vec::new();
    let mut i: usize = 0;
    while i < exits.len()
        invariant
            i <= exits.len(),
            r@.len() == i,
            forall|j: int| 0 <= j < i ==> (#[trigger] r@[j]).dir@ == seq![exits@[j].0.code()] && r@[j].to == exits@[j].1.0,
        decreases exits.len() - i,
    {
        let (d, t) = exits[i];
        r.push(ExitLoad { dir: String::from_str(d.as_str()), to: t.0 });
        i = i + 1;
    }
    r
}

impl Loader {
    /// Write down the object as configuration would describe it (see `snapshot_of`).
    pub fn snapshot_obj(container: &Container, id: ObjId) -> (r: Result<ObjLoad>)
        requires
            container.wf(),
        ensures
            r matches Ok(d) && snapshot_of(container, id, d),
    {
        let (label, desc) = match container.labels.get(id) {
            Some(l) => (Some(l.label.clone()), if l.desc.as_str().unicode_len() == 0 {
                None
            } else {
                Some(l.desc.clone())
            }),
            None => (None, None),
        };
        let parent = match container.locations.get(id) {
            Some(p) => Some(p.0),
            None => None,
        };
        let room = match container.rooms.get(id) {
            Some(room) => {
                let exits = snapshot_exits(&room.exits);
                Some(RoomLoad { can_exit: if room.can_exit { Some(true) } else { None }, exits: Some(exits) })
            },
            None => None,
        };
        let mob = match container.mobs.get(id) {
            Some(m) => Some(
                MobLoad {
                    attack: m.attributes.attack,
                    defense: m.attributes.defense,
                    damage_min: m.attributes.damage.min,
                    damage_max: m.attributes.damage.max,
                    pv: m.attributes.pv.current,
                    pv_max: m.attributes.pv.max,
                    xp: m.xp,
                    hire_cost: match container.hires.get(id) {
                        Some(h) => Some(h.cost.0),
                        None => None,
                    },
                },
            ),
            None => None,
        };
        let item = match container.items.get(id) {
            Some(it) => Some(
                ItemLoad {
                    flags: Some(
                        ItemFlagsLoad {
                            money: if it.flags.is_money { Some(true) } else { None },
                            inventory: if it.flags.is_inventory { Some(true) } else { None },
                            stuck: if it.flags.is_stuck { Some(true) } else { None },
                            body: if it.flags.is_corpse { Some(true) } else { None },
                        },
                    ),
                    amount: if it.amount == 1 { None } else { Some(it.amount) },
                    weapon: match it.weapon {
                        Some(w) => Some(WeaponLoad { min: w.damage.min, max: w.damage.max, attack: w.attack.0 }),
                        None => None,
                    },
                    armor: match it.armor {
                        Some(a) => Some(ArmorLoad { defense: a.defense.0, rd: a.rd }),
                        None => None,
                    },
                },
            ),
            None => None,
        };
        let player = match container.players.get(id) {
            Some(p) => Some(PlayerLoad { id: p.id.0, login: p.login.clone(), avatar_id: p.mob_id.0 }),
            None => None,
        };
        let ai = match container.ai.get(id) {
            Some(a) => Some(serialize_ai(a)),
            None => None,
        };
        let astro_body = match container.astro_bodies.get(id) {
            Some(b) => Some(
                AstroBodyLoad {
                    kind: String::from_str(b.kind.as_str()),
                    jump_target: match b.jump_target_id {
                        Some(t) => Some(t.0),
                        None => None,
                    },
                },
            ),
            None => None,
        };
        Ok(ObjLoad { id: id.0, parent, label, desc, mob, room, item, player, ai, astro_body })
    }
}

} // verus!

verus! {

/// The two descriptions say the same, read by their views.
pub open spec fn same_load(a: ObjLoad, b: ObjLoad) -> bool {
    &&& a.id == b.id
    &&& a.parent == b.parent
    &&& opt_text(a.label) == opt_text(b.label)
    &&& opt_text(a.desc) == opt_text(b.desc)
    &&& mob_fields(a.mob) == mob_fields(b.mob)
    &&& a.room is Some <==> b.room is Some
    &&& (a.room matches Some(ra) ==> b.room matches Some(rb) && ra.can_exit == rb.can_exit && (ra.exits is Some
        <==> rb.exits is Some) && (ra.exits matches Some(ea) ==> rb.exits matches Some(eb) && ea@.len() == eb@.len()
        && forall|i: int| 0 <= i < ea@.len() ==> (#[trigger] ea@[i]).dir@ == eb@[i].dir@ && ea@[i].to == eb@[i].to))
    &&& a.item == b.item
    &&& player_fields(a.player) == player_fields(b.player)
    &&& astro_fields(a.astro_body) == astro_fields(b.astro_body)
}

pub open spec fn astro_fields(a: Option<AstroBodyLoad>) -> Option<(Seq<char>, Option<u32>)> {
    match a {
        Some(ab) => Some((ab.kind@, ab.jump_target)),
        None => None,
    }
}

pub open spec fn opt_text(t: Option<String>) -> Option<Seq<char>> {
    match t {
        Some(x) => Some(x@),
        None => None,
    }
}

pub open spec fn mob_fields(m: Option<MobLoad>) -> Option<(u32, u32, u32, u32, i32, u32, u32, Option<u32>)> {
    match m {
        Some(m) => Some((m.attack, m.defense, m.damage_min, m.damage_max, m.pv, m.pv_max, m.xp, m.hire_cost)),
        None => None,
    }
}

pub open spec fn player_fields(p: Option<PlayerLoad>) -> Option<(u32, Seq<char>, u32)> {
    match p {
        Some(p) => Some((p.id, p.login@, p.avatar_id)),
        None => None,
    }
}

/// Written as a snapshot writes it: a description only beside a label and not empty, a room that can not be left and an
/// amount of one left out, item flags written and only when set, exits written.
pub open spec fn in_snapshot_form(data: ObjLoad) -> bool {
    &&& (data.astro_body matches Some(ab) && ab.jump_target is Some ==> is_jump_gate(data))
    &&& (data.desc matches Some(x) ==> x@.len() > 0 && data.label is Some)
    &&& (data.room matches Some(room) ==> room.can_exit != Some(false) && room.exits is Some)
    &&& (data.item matches Some(it) ==> it.amount != Some(1u32) && (it.flags matches Some(fl) && fl.money != Some(false)
        && fl.inventory != Some(false) && fl.stuck != Some(false) && fl.body != Some(false)))
}

proof fn lemma_kind_name_of_parse(s: Seq<char>)
    requires
        AstroBodyKind::spec_parse(s) is Some,
    ensures
        AstroBodyKind::spec_parse(s)->0.name() == s,
{
}

proof fn lemma_dir_code_of_parse(s: Seq<char>)
    requires
        Dir::spec_parse(s) is Some,
    ensures
        s == seq![Dir::spec_parse(s)->0.code()],
{
}

/// Law: loading an object's description under its own ids and then writing the object down
/// gives the description back (its behaviour as the data that writes down what was read).
pub proof fn load_then_snapshot_gives_back(
    c: &Container,
    f: &Container,
    obj_id: ObjId,
    data: ObjLoad,
    refs: Map<u32, ObjId>,
    d: ObjLoad,
)
    requires
        load_allowed(c, obj_id, data, refs),
        data.id == obj_id.0,
        in_snapshot_form(data),
        forall|i: int| 0 <= i < static_refs(data).len() ==> resolved(c.objects@, refs, #[trigger] static_refs(data)[i]) == Some(
            static_refs(data)[i],
        ),
        data.player matches Some(p) ==> p.id == obj_id.0 && resolved(c.objects@, refs, p.id) == Some(p.id) && resolved(
            c.objects@,
            refs,
            p.avatar_id,
        ) == Some(p.avatar_id),
        !c.players@.contains_key(obj_id.0),
        !c.astro_bodies@.contains_key(obj_id.0),
        loaded(c, f, obj_id, data, refs),
        snapshot_of(f, obj_id, d),
    ensures
        same_load(d, data),
        d.ai is Some <==> data.ai is Some,
        data.ai matches Some(a) ==> exists|ai: crate::game::ai::Ai| is_parsed(obj_id, a, ai) && is_serialized(ai, d.ai->0),
{
    let o = obj_id.0;
    if data.parent is Some {
        assert(static_refs(data)[0] == data.parent->0);
    }
    match data.room {
        Some(room) => {
            let ea = d.room->0.exits->0;
            let eb = exits_of(data);
            let ps = head_refs(data);
            assert forall|i: int| 0 <= i < ea@.len() implies (#[trigger] ea@[i]).dir@ == eb[i].dir@ && ea@[i].to == eb[i].to by {
                assert(f.rooms@[o] == exits_loaded(c.objects@, refs, data));
                lemma_dir_code_of_parse(eb[i].dir@);
                assert(static_refs(data)[ps.len() + i] == eb[i].to);
            }
        },
        None => {},
    }
    match data.ai {
        Some(a) => {
            assert(is_parsed(obj_id, a, f.ai@[o]) && is_serialized(f.ai@[o], d.ai->0));
        },
        None => {},
    }
    match data.astro_body {
        Some(ab) => {
            let ps = match data.parent {
                Some(p) => seq![p],
                None => Seq::<u32>::empty(),
            };
            let kind = AstroBodyKind::spec_parse(ab.kind@)->0;
            lemma_kind_name_of_parse(ab.kind@);
            assert(f.astro_bodies@ == astro_loaded(c.objects@, refs, c.astro_bodies@, obj_id, data));
            assert(f.astro_bodies@[o].kind == kind);
            let dab = d.astro_body->0;
            assert(dab.kind@ == ab.kind@);
            if jump_refs(data).len() > 0 {
                assert(static_refs(data)[ps.len() as int] == jump_refs(data)[0]);
                assert(resolved(c.objects@, refs, jump_refs(data)[0]) == Some(jump_refs(data)[0]));
                assert(dab.jump_target == ab.jump_target);
            } else {
                assert(dab.jump_target == ab.jump_target);
            }
            assert(astro_fields(d.astro_body) == astro_fields(data.astro_body));
        },
        None => {},
    }
}

} // verus!

verus! {

/// A prefab whose spawning as the new object `n` at `parent_id`, among `objects` (`n`
/// included), can go on: `n` is not the parent and has no hire or behaviour yet, the prefab's
/// parent is not `n`, its player's ids are objects, its exits' directions are directions and its
/// astro body's kind is a kind (reading the data stops the game otherwise).
pub open spec fn spawnable_with(
    objects: Set<u32>,
    n: u32,
    hires: Map<u32, Hire>,
    ai: Map<u32, Ai>,
    prefab: ObjLoad,
    parent_id: ObjId,
) -> bool {
    &&& parent_id.0 != n
    &&& !hires.contains_key(n) && !ai.contains_key(n)
    &&& prefab.parent != Some(n)
    &&& (prefab.player matches Some(p) ==> objects.contains(p.id) && objects.contains(p.avatar_id))
    &&& forall|i: int| 0 <= i < exits_of(prefab).len() ==> Dir::spec_parse((#[trigger] exits_of(prefab)[i]).dir@) is Some
    &&& (prefab.astro_body matches Some(ab) ==> AstroBodyKind::spec_parse(ab.kind@) is Some)
}

/// The prefab can be spawned at `parent_id` as the next object of the container.
pub open spec fn spawnable(c: &Container, prefab: ObjLoad, parent_id: ObjId) -> bool {
    let n = c.objects.next_id();
    &&& n < u32::MAX
    &&& spawnable_with(c.objects@.insert(n), n, c.hires@, c.ai@, prefab, parent_id)
}

/// `f` is `c` with a new object `n` that has what the prefab describes, located at `parent_id`.
pub open spec fn spawned(c: &Container, f: &Container, n: u32, prefab: ObjLoad, parent_id: ObjId) -> bool {
    exists|c1: Container, mid: Container|
        #![trigger loaded(&c1, &mid, ObjId(n), prefab, Map::<u32, ObjId>::empty())]
        created_only(c, &c1, n) && loaded(&c1, &mid, ObjId(n), prefab, Map::<u32, ObjId>::empty())
            && f.locations@ == mid.locations@.insert(n, parent_id.0) && f.objects@ == mid.objects@ && f.objects.next_id()
            == mid.objects.next_id() && f.labels@ == mid.labels@ && f.items@ == mid.items@ && f.mobs@ == mid.mobs@
            && f.rooms@ == mid.rooms@ && f.rooms.rooms() == mid.rooms.rooms() && f.hires@ == mid.hires@ && f.players@
            == mid.players@ && f.ai@ == mid.ai@ && f.equips@ == mid.equips@ && f.outputs@ == mid.outputs@
            && f.astro_bodies@ == mid.astro_bodies@ && f.extractables@ == mid.extractables@ && f.config == mid.config
}

/// `f` is `c` with the object `n` made, and nothing else.
pub open spec fn created_only(c: &Container, f: &Container, n: u32) -> bool {
    &&& f.objects@ == c.objects@.insert(n) && f.objects.next_id() == n + 1 && f.labels@ == c.labels@
    &&& f.locations@ == c.locations@ && f.items@ == c.items@ && f.mobs@ == c.mobs@ && f.rooms@ == c.rooms@
    &&& f.rooms.rooms() == c.rooms.rooms() && f.hires@ == c.hires@ && f.players@ == c.players@ && f.ai@ == c.ai@
    &&& f.equips@ == c.equips@ && f.outputs@ == c.outputs@ && f.astro_bodies@ == c.astro_bodies@
    &&& f.extractables@ == c.extractables@ && f.config == c.config
}

/// What spawning the prefab at `parent_id` does (see `Loader::spawn_at`).
pub open spec fn spawn_done(c: &Container, f: &Container, prefab: ObjLoad, parent_id: ObjId, r: Result<ObjId>) -> bool {
    let n = c.objects.next_id();
    if !spawnable(c, prefab, parent_id) {
        r == Err::<ObjId, Error>(Error::InvalidStateFailure) && *f == *c
    } else if all_resolve(c.objects@.insert(n), Map::<u32, ObjId>::empty(), prefab) {
        r == Ok::<ObjId, Error>(ObjId(n)) && spawned(c, f, n, prefab, parent_id)
    } else {
        (exists|c1: Container|
            #![trigger failed_load(&c1, f, ObjId(n), prefab, Map::<u32, ObjId>::empty())]
            created_only(c, &c1, n) && failed_load(&c1, f, ObjId(n), prefab, Map::<u32, ObjId>::empty())) && exists|i: int|
            0 <= i < static_refs(prefab).len() && !c.objects@.insert(n).contains(#[trigger] static_refs(prefab)[i])
                && (r matches Err(Error::Failure(m)) && m@ == unresolved_text(static_refs(prefab)[i])) && forall|j: int|
                0 <= j < i ==> c.objects@.insert(n).contains(#[trigger] static_refs(prefab)[j])
    }
}

/// `x` is among `objects`, `extra` or `n`.
spec fn in_base(objects: Set<u32>, extra: Option<u32>, n: u32, x: u32) -> bool {
    objects.contains(x) || extra == Some(x) || x == n
}

fn base_has(objects: &Objects, extra: Option<u32>, n: u32, x: u32) -> (r: bool)
    ensures
        r == in_base(objects@, extra, n, x),
{
    objects.exist(ObjId(x)) || x == n || match extra {
        Some(e) => e == x,
        None => false,
    }
}

fn exits_parse(prefab: &ObjLoad) -> (r: bool)
    ensures
        r == forall|i: int| 0 <= i < exits_of(*prefab).len() ==> Dir::spec_parse((#[trigger] exits_of(*prefab)[i]).dir@) is Some,
{
    match &prefab.room {
        Some(room) => match &room.exits {
            Some(list) => {
                let mut i: usize = 0;
                while i < list.len()
                    invariant
                        i <= list.len(),
                        list@ == exits_of(*prefab),
                        forall|j: int| 0 <= j < i ==> Dir::spec_parse((#[trigger] list@[j]).dir@) is Some,
                    decreases list.len() - i,
                {
                    let ok = match Dir::parse(list[i].dir.as_str()) {
                        Ok(_) => true,
                        Err(_) => false,
                    };
                    if !ok {
                        return false;
                    }
                    i = i + 1;
                }
                true
            },
            None => true,
        },
        None => true,
    }
}

fn prefab_spawnable(
    objects: &Objects,
    n: u32,
    extra: Option<u32>,
    hires: &Hires,
    ai: &AiRepo,
    prefab: &ObjLoad,
    parent_id: ObjId,
) -> (r: bool)
    ensures
        r == spawnable_with(
            match extra {
                Some(e) => objects@.insert(e).insert(n),
                None => objects@.insert(n),
            },
            n,
            hires@,
            ai@,
            *prefab,
            parent_id,
        ),
{
    let player_ok = match &prefab.player {
        Some(p) => base_has(objects, extra, n, p.id) && base_has(objects, extra, n, p.avatar_id),
        None => true,
    };
    let astro_ok = match &prefab.astro_body {
        Some(ab) => AstroBodyKind::parse(ab.kind.as_str()).is_some(),
        None => true,
    };
    let r = !(parent_id.0 == n || hires.get(ObjId(n)).is_some() || ai.get(ObjId(n)).is_some() || prefab.parent == Some(n))
        && player_ok && exits_parse(prefab) && astro_ok;
    proof {
        let objs = match extra {
            Some(e) => objects@.insert(e).insert(n),
            None => objects@.insert(n),
        };
        assert(forall|t: u32| objs.contains(t) <==> in_base(objects@, extra, n, t));
    }
    r
}

/// Whether the prefab's static ids all resolve, among the objects, `extra` and `n`, when no
/// reference is given.
fn prefab_refs_exist(objects: &Objects, extra: Option<u32>, n: u32, prefab: &ObjLoad) -> (r: bool)
    ensures
        r == all_resolve(
            match extra {
                Some(e) => objects@.insert(e).insert(n),
                None => objects@.insert(n),
            },
            Map::<u32, ObjId>::empty(),
            *prefab,
        ),
{
    let ghost objs = match extra {
        Some(e) => objects@.insert(e).insert(n),
        None => objects@.insert(n),
    };
    let ghost refs = static_refs(*prefab);
    let ghost pp = match prefab.parent {
        Some(p) => seq![p],
        None => Seq::<u32>::empty(),
    };
    let ghost js = jump_refs(*prefab);
    let ghost ps = head_refs(*prefab);
    let ghost ts = exits_of(*prefab).map_values(|e: ExitLoad| e.to);
    proof {
        assert(ps == pp + js);
        assert(refs == ps + ts);
        assert(forall|t: u32| objs.contains(t) <==> in_base(objects@, extra, n, t));
        assert(forall|t: u32| resolved(objs, Map::<u32, ObjId>::empty(), t) is Some <==> objs.contains(t));
    }
    match prefab.parent {
        Some(p) => {
            if !base_has(objects, extra, n, p) {
                proof {
                    assert(refs[0] == p);
                    assert(resolved(objs, Map::<u32, ObjId>::empty(), refs[0]) is None);
                }
                return false;
            }
        },
        None => {},
    }
    match &prefab.astro_body {
        Some(ab) => match ab.jump_target {
            Some(t) => {
                let gate = match AstroBodyKind::parse(ab.kind.as_str()) {
                    Some(AstroBodyKind::JumpGate) => true,
                    _ => false,
                };
                if gate && !base_has(objects, extra, n, t) {
                    proof {
                        assert(js == seq![t]);
                        assert(refs[pp.len() as int] == t);
                        assert(resolved(objs, Map::<u32, ObjId>::empty(), refs[pp.len() as int]) is None);
                    }
                    return false;
                }
            },
            None => {},
        },
        None => {},
    }
    proof {
        assert(js.len() > 0 ==> in_base(objects@, extra, n, js[0]));
    }
    match &prefab.room {
        Some(room) => match &room.exits {
            Some(list) => {
                let mut i: usize = 0;
                while i < list.len()
                    invariant
                        i <= list.len(),
                        list@ == exits_of(*prefab),
                        refs == ps + ts,
                        ps == pp + js,
                        js == jump_refs(*prefab),
                        js.len() > 0 ==> in_base(objects@, extra, n, js[0]),
                        refs == static_refs(*prefab),
                        ts == exits_of(*prefab).map_values(|e: ExitLoad| e.to),
                        forall|t: u32| objs.contains(t) <==> in_base(objects@, extra, n, t),
                        forall|t: u32| resolved(objs, Map::<u32, ObjId>::empty(), t) is Some <==> objs.contains(t),
                        forall|j: int| 0 <= j < i ==> in_base(objects@, extra, n, (#[trigger] list@[j]).to),
                    decreases list.len() - i,
                {
                    if !base_has(objects, extra, n, list[i].to) {
                        proof {
                            assert(ts[i as int] == list@[i as int].to);
                            assert(refs[ps.len() + i] == ts[i as int]);
                            assert(resolved(objs, Map::<u32, ObjId>::empty(), refs[ps.len() + i]) is None);
                        }
                        return false;
                    }
                    i = i + 1;
                }
            },
            None => {},
        },
        None => {},
    }
    proof {
        assert forall|i: int| 0 <= i < refs.len() implies (#[trigger] resolved(objs, Map::<u32, ObjId>::empty(), refs[i])) is Some by {
            if i < pp.len() {
                assert(refs[i] == prefab.parent->0);
            } else if i < ps.len() {
                assert(refs[i] == js[0]);
            } else {
                assert(refs[i] == ts[i - ps.len()]);
                assert(ts[i - ps.len()] == exits_of(*prefab)[i - ps.len()].to);
                assert(in_base(objects@, extra, n, exits_of(*prefab)[i - ps.len()].to));
            }
        }
    }
    true
}

/// Whether the prefab can be spawned at `parent_id` as the object after `next`, once `next`
/// is made (see `spawnable_with`), and its static ids then resolve.
pub fn spawnable_after(objects: &Objects, next: u32, hires: &Hires, ai: &AiRepo, prefab: &ObjLoad, parent_id: ObjId) -> (r: bool)
    requires
        next < u32::MAX,
    ensures
        r == (spawnable_with(objects@.insert(next).insert((next + 1) as u32), (next + 1) as u32, hires@, ai@, *prefab, parent_id)
            && all_resolve(objects@.insert(next).insert((next + 1) as u32), Map::<u32, ObjId>::empty(), *prefab)),
{
    prefab_spawnable(objects, next + 1, Some(next), hires, ai, prefab, parent_id) && prefab_refs_exist(
        objects,
        Some(next),
        next + 1,
        prefab,
    )
}

impl Loader {
    /// A new object made from the prefab and located at `parent_id` (see `spawn_done`):
    /// `InvalidStateFailure`, and nothing changes, where the spawning can not go on (see
    /// `spawnable`); `Failure`, with the object made and what was loaded into it before the
    /// static id that does not resolve (see `failed_load`), where one of the prefab does not
    /// resolve.
    pub fn spawn_at(container: &mut Container, prefab: &ObjLoad, parent_id: ObjId) -> (r: Result<ObjId>)
        requires
            old(container).wf(),
        ensures
            final(container).wf(),
            spawn_done(old(container), final(container), *prefab, parent_id, r),
            r matches Ok(id) ==> (prefab.label is Some ==> final(container).labels@.dom() == old(container).labels@.dom().insert(id.0))
                && (prefab.mob is Some ==> final(container).mobs@.contains_key(id.0)),
    {
        let n = container.objects.peek_next();
        if n == u32::MAX || !prefab_spawnable(&container.objects, n, None, &container.hires, &container.ai, prefab, parent_id) {
            return Err(Error::InvalidStateFailure);
        }
        let id = container.objects.create();
        let ghost c1 = *container;
        let refs: HashMap<u32, ObjId> = HashMap::new();
        proof {
            assert(refs@ == Map::<u32, ObjId>::empty());
            assert(forall|t: u32| resolved(c1.objects@, refs@, t) is Some <==> c1.objects@.contains(t));
            assert forall|p: u32| prefab.parent == Some(p) implies resolved(c1.objects@, refs@, p) != Some(id.0) by {}
        }
        match Loader::apply_data(container, id, prefab, &refs) {
            Ok(()) => {},
            Err(e) => {
                proof {
                    assert(created_only(old(container), &c1, n));
                    assert(failed_load(&c1, container, id, *prefab, Map::<u32, ObjId>::empty()));
                }
                return Err(e);
            },
        }
        let ghost mid = *container;
        container.locations.set(id, parent_id);
        proof {
            assert(created_only(old(container), &c1, n));
            assert(loaded(&c1, &mid, id, *prefab, Map::<u32, ObjId>::empty()));
        }
        Ok(id)
    }
}

} // verus!
