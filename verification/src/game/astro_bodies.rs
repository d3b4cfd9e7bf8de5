use crate::errors::{Error, Result};
use crate::game::location::{ancestors, obj_values, Locations};
use crate::ids::ObjId;
use crate::utils::text::str_eq;
use std::collections::HashMap;
use vstd::prelude::*;

verus! {

broadcast use vstd::std_specs::hash::group_hash_axioms;

pub type AstroBodyId = ObjId;

#[derive(Clone, Debug, Copy, PartialEq, Eq, Structural)]
pub enum AstroBodyKind {
    Star,
    Planet,
    Moon,
    JumpGate,
    Ship,
    AsteroidField,
    Station,
}

impl AstroBodyKind {
    pub open spec fn name(self) -> Seq<char> {
        match self {
            AstroBodyKind::Star => "star"@,
            AstroBodyKind::Planet => "planet"@,
            AstroBodyKind::Moon => "moon"@,
            AstroBodyKind::JumpGate => "jump_gate"@,
            AstroBodyKind::Ship => "ship"@,
            AstroBodyKind::AsteroidField => "asteroid_field"@,
            AstroBodyKind::Station => "station"@,
        }
    }

    /// The kind a name stands for.
    pub open spec fn spec_parse(s: Seq<char>) -> Option<AstroBodyKind> {
        if s == "star"@ {
            Some(AstroBodyKind::Star)
        } else if s == "asteroid_field"@ {
            Some(AstroBodyKind::AsteroidField)
        } else if s == "ship"@ {
            Some(AstroBodyKind::Ship)
        } else if s == "station"@ {
            Some(AstroBodyKind::Station)
        } else if s == "planet"@ {
            Some(AstroBodyKind::Planet)
        } else if s == "moon"@ {
            Some(AstroBodyKind::Moon)
        } else if s == "jump_gate"@ {
            Some(AstroBodyKind::JumpGate)
        } else {
            None
        }
    }

    /// The kind of a name, `None` for a name of no kind.
    pub fn parse(s: &str) -> (r: Option<AstroBodyKind>)
        ensures
            r == Self::spec_parse(s@),
    {
        if str_eq(s, "star") {
            Some(AstroBodyKind::Star)
        } else if str_eq(s, "asteroid_field") {
            Some(AstroBodyKind::AsteroidField)
        } else if str_eq(s, "ship") {
            Some(AstroBodyKind::Ship)
        } else if str_eq(s, "station") {
            Some(AstroBodyKind::Station)
        } else if str_eq(s, "planet") {
            Some(AstroBodyKind::Planet)
        } else if str_eq(s, "moon") {
            Some(AstroBodyKind::Moon)
        } else if str_eq(s, "jump_gate") {
            Some(AstroBodyKind::JumpGate)
        } else {
            None
        }
    }

    pub fn as_str(&self) -> (r: &'static str)
        ensures
            r@ == self.name(),
    {
        match self {
            AstroBodyKind::Star => "star",
            AstroBodyKind::Planet => "planet",
            AstroBodyKind::Moon => "moon",
            AstroBodyKind::JumpGate => "jump_gate",
            AstroBodyKind::Ship => "ship",
            AstroBodyKind::AsteroidField => "asteroid_field",
            AstroBodyKind::Station => "station",
        }
    }
}

/// Law: reading a kind's name gives the kind back, for every kind, and a name read as a kind is
/// that kind's name.
pub proof fn kind_name_reads_back(k: AstroBodyKind, s: Seq<char>)
    ensures
        AstroBodyKind::spec_parse(k.name()) == Some(k),
        AstroBodyKind::spec_parse(s) == Some(k) ==> s == k.name(),
{
    reveal_strlit("star");
    reveal_strlit("planet");
    reveal_strlit("moon");
    reveal_strlit("jump_gate");
    reveal_strlit("ship");
    reveal_strlit("asteroid_field");
    reveal_strlit("station");
    assert("star"@.len() == 4 && "star"@[0] == 's' && "star"@[1] == 't');
    assert("asteroid_field"@.len() == 14);
    assert("ship"@.len() == 4 && "ship"@[0] == 's' && "ship"@[1] == 'h');
    assert("station"@.len() == 7 && "station"@[0] == 's');
    assert("planet"@.len() == 6 && "planet"@[0] == 'p');
    assert("moon"@.len() == 4 && "moon"@[0] == 'm');
    assert("jump_gate"@.len() == 9);
}

/// A body of space. Its orbit distance, in millions of km, is kept by the program around the
/// library.
#[derive(Clone, Debug, Copy, PartialEq, Eq, Structural)]
pub struct AstroBody {
    pub id: AstroBodyId,
    pub kind: AstroBodyKind,
    pub jump_target_id: Option<ObjId>,
}

impl AstroBody {
    pub fn new(id: AstroBodyId, kind: AstroBodyKind) -> (r: Self)
        ensures
            r == (AstroBody { id, kind, jump_target_id: None }),
    {
        AstroBody { id, kind, jump_target_id: None }
    }
}

/// Every body of space, by id.
pub struct AstroBodies {
    index: HashMap<u32, AstroBody>,
}

impl View for AstroBodies {
    type V = Map<u32, AstroBody>;

    closed spec fn view(&self) -> Map<u32, AstroBody> {
        self.index@
    }
}

impl AstroBodies {
    pub fn new() -> (r: Self)
        ensures
            r@ == Map::<u32, AstroBody>::empty(),
    {
        AstroBodies { index: HashMap::new() }
    }

    /// Add or replace a body; gives the one replaced.
    pub fn upsert(&mut self, value: AstroBody) -> (r: Option<AstroBody>)
        ensures
            final(self)@ == old(self)@.insert(value.id.0, value),
            r == old(self)@.get(value.id.0),
    {
        self.index.insert(value.id.0, value)
    }

    pub fn remove(&mut self, id: AstroBodyId) -> (r: Option<AstroBody>)
        ensures
            final(self)@ == old(self)@.remove(id.0),
            r == old(self)@.get(id.0),
    {
        self.index.remove(&id.0)
    }

    pub fn get(&self, id: AstroBodyId) -> (r: Option<AstroBody>)
        ensures
            r == self@.get(id.0),
    {
        match self.index.get(&id.0) {
            Some(b) => Some(*b),
            None => None,
        }
    }

    pub fn exist(&self, id: ObjId) -> (r: bool)
        ensures
            r == self@.contains_key(id.0),
    {
        self.index.contains_key(&id.0)
    }
}

/// The ids of `ids` that are bodies, in order.
pub open spec fn bodies_in(ids: Seq<u32>, bodies: Map<u32, AstroBody>) -> Seq<u32> {
    ids.filter(|k: u32| bodies.contains_key(k))
}

fn only_bodies(ids: &Vec<ObjId>, bodies: &AstroBodies) -> (r: Vec<ObjId>)
    ensures
        obj_values(r@) == bodies_in(obj_values(ids@), bodies@),
{
    let ghost f = obj_values(ids@);
    let ghost pred = |k: u32| bodies@.contains_key(k);
    let mut r: Vec<ObjId> = Vec::new();
    let mut i: usize = 0;
    proof {
        assert(f.take(0) =~= Seq::<u32>::empty());
        assert(obj_values(r@) =~= f.take(0).filter(pred));
    }
    while i < ids.len()
        invariant
            f == obj_values(ids@),
            pred == (|k: u32| bodies@.contains_key(k)),
            i <= ids.len(),
            obj_values(r@) == f.take(i as int).filter(pred),
        decreases ids.len() - i,
    {
        proof {
            assert(f.take(i + 1) =~= f.take(i as int).push(ids@[i as int].0));
            f.take(i as int).lemma_filter_push(ids@[i as int].0, pred);
        }
        let ghost before = r@;
        if bodies.exist(ids[i]) {
            r.push(ids[i]);
            proof {
                assert(obj_values(r@) =~= obj_values(before).push(ids@[i as int].0));
            }
        }
        i = i + 1;
    }
    proof {
        assert(f.take(ids.len() as int) =~= f);
    }
    r
}

/// The star of the system the object is in: the nearest star above it.
pub fn find_start_of(locations: &Locations, astro_bodies: &AstroBodies, obj_id: ObjId) -> (r: Option<ObjId>)
    ensures
        ({
            let s = bodies_in(ancestors(locations@, obj_id.0, locations@.dom().len()), astro_bodies@);
            match r {
                Some(star) => exists|i: int|
                    0 <= i < s.len() && s[i] == star.0 && astro_bodies@[s[i]].kind == AstroBodyKind::Star && forall|j: int|
                        0 <= j < i ==> astro_bodies@[s[j]].kind != AstroBodyKind::Star,
                None => forall|i: int| 0 <= i < s.len() ==> astro_bodies@[s[i]].kind != AstroBodyKind::Star,
            }
        }),
{
    let parents = locations.list_parents(obj_id);
    let bodies = only_bodies(&parents, astro_bodies);
    let ghost s = obj_values(bodies@);
    proof {
        assert forall|k: u32| #[trigger] s.contains(k) implies astro_bodies@.contains_key(k) by {
            let pred = |k: u32| astro_bodies@.contains_key(k);
            let j = choose|j: int| 0 <= j < s.len() && s[j] == k;
            obj_values(parents@).lemma_filter_pred(pred, j);
        }
    }
    let mut i: usize = 0;
    while i < bodies.len()
        invariant
            i <= bodies.len(),
            s == obj_values(bodies@),
            s == bodies_in(ancestors(locations@, obj_id.0, locations@.dom().len()), astro_bodies@),
            forall|k: u32| #[trigger] s.contains(k) ==> astro_bodies@.contains_key(k),
            forall|j: int| 0 <= j < i ==> astro_bodies@[s[j]].kind != AstroBodyKind::Star,
        decreases bodies.len() - i,
    {
        proof {
            assert(s[i as int] == bodies@[i as int].0);
            assert(s.contains(s[i as int]));
        }
        let body = astro_bodies.get(bodies[i]).unwrap();
        if body.kind == AstroBodyKind::Star {
            proof {
                assert(s == bodies_in(ancestors(locations@, obj_id.0, locations@.dom().len()), astro_bodies@));
                assert(astro_bodies@[s[i as int]].kind == AstroBodyKind::Star);
            }
            return Some(bodies[i]);
        }
        i = i + 1;
    }
    proof {
        assert(s == bodies_in(ancestors(locations@, obj_id.0, locations@.dom().len()), astro_bodies@));
    }
    None
}

/// The bodies at or above the object, nearest first.
pub open spec fn bodies_above(locations: Map<u32, u32>, bodies: Map<u32, AstroBody>, id: u32) -> Seq<u32> {
    bodies_in(seq![id] + ancestors(locations, id, locations.dom().len()), bodies)
}

/// Where a travel between two objects goes through: the bodies at or above each, the root body
/// above the ship, and the nearest body above the ship that is above the target too, at its
/// index in each list. The distances along these lists are summed by the program around the
/// library.
pub struct TravelReference {
    pub root_body_id: ObjId,
    pub reference_body_id: ObjId,
    pub ship_parents: Vec<ObjId>,
    pub target_parents: Vec<ObjId>,
    pub ship_index: usize,
    pub target_index: usize,
}

/// Find where a travel of the ship to the target goes through (see `TravelReference`).
/// `NotFoundFailure` where no body is above both.
pub fn travel_reference(locations: &Locations, astro_bodies: &AstroBodies, ship_id: ObjId, target_id: ObjId) -> (r: Result<TravelReference>)
    requires
        bodies_above(locations@, astro_bodies@, ship_id.0).len() > 0,
    ensures
        ({
            let sp = bodies_above(locations@, astro_bodies@, ship_id.0);
            let tp = bodies_above(locations@, astro_bodies@, target_id.0);
            match r {
                Ok(t) => {
                    &&& obj_values(t.ship_parents@) == sp
                    &&& obj_values(t.target_parents@) == tp
                    &&& t.root_body_id.0 == sp.last()
                    &&& t.ship_index < sp.len() && t.target_index < tp.len()
                    &&& t.reference_body_id.0 == sp[t.ship_index as int]
                    &&& tp[t.target_index as int] == sp[t.ship_index as int]
                    &&& forall|i: int| 0 <= i < t.ship_index ==> !tp.contains(#[trigger] sp[i])
                    &&& forall|j: int| 0 <= j < t.target_index ==> tp[j] != sp[t.ship_index as int]
                },
                Err(e) => e is NotFoundFailure && forall|i: int| 0 <= i < sp.len() ==> !tp.contains(#[trigger] sp[i]),
            }
        }),
{
    let ship_parents = only_bodies(&locations.list_parents_inclusive(ship_id), astro_bodies);
    let target_parents = only_bodies(&locations.list_parents_inclusive(target_id), astro_bodies);
    let ghost sp = obj_values(ship_parents@);
    let ghost tp = obj_values(target_parents@);
    let root_body_id = ship_parents[ship_parents.len() - 1];
    let mut i: usize = 0;
    while i < ship_parents.len()
        invariant
            i <= ship_parents.len(),
            sp == obj_values(ship_parents@),
            tp == obj_values(target_parents@),
            sp == bodies_above(locations@, astro_bodies@, ship_id.0),
            tp == bodies_above(locations@, astro_bodies@, target_id.0),
            root_body_id.0 == sp.last(),
            forall|k: int| 0 <= k < i ==> !tp.contains(#[trigger] sp[k]),
        decreases ship_parents.len() - i,
    {
        let one = ship_parents[i];
        let mut j: usize = 0;
        while j < target_parents.len()
            invariant
                j <= target_parents.len(),
                i < ship_parents.len(),
                one == ship_parents@[i as int],
                sp == obj_values(ship_parents@),
                tp == obj_values(target_parents@),
                sp == bodies_above(locations@, astro_bodies@, ship_id.0),
                tp == bodies_above(locations@, astro_bodies@, target_id.0),
                root_body_id.0 == sp.last(),
                forall|k: int| 0 <= k < i ==> !tp.contains(#[trigger] sp[k]),
                forall|k: int| 0 <= k < j ==> tp[k] != one.0,
            decreases target_parents.len() - j,
        {
            if target_parents[j] == one {
                proof {
                    assert(sp[i as int] == one.0);
                }
                return Ok(TravelReference {
                    root_body_id,
                    reference_body_id: one,
                    ship_parents,
                    target_parents,
                    ship_index: i,
                    target_index: j,
                });
            }
            j = j + 1;
        }
        proof {
            assert(sp[i as int] == one.0);
            if tp.contains(one.0) {
                let k = choose|k: int| 0 <= k < tp.len() && tp[k] == one.0;
            }
        }
        i = i + 1;
    }
    Err(Error::NotFoundFailure)
}

} // verus!
