pub mod migrations;
pub mod report;
pub mod apply;
pub mod extend;

use crate::errors::{Error, Result};
use crate::game::ai::{is_parsed, parse_ai, AiData, AiRepo};
use crate::game::mob::MobId;
use crate::game::location::{descendants, is_descendant, obj_values, Locations};
use crate::ids::{ids_of, ObjId, StaticId};
use crate::utils::text::{decimal, str_eq, usize_to_string};
use vstd::string::StringExecFns;
use std::collections::{HashMap, HashSet};
use vstd::prelude::*;

verus! {

broadcast use {vstd::std_specs::hash::group_hash_axioms, vstd::set::group_set_axioms};

/// The tags of a prefab or an object.
#[derive(Debug, Clone)]
pub struct TagsData {
    pub values: Vec<String>,
}

/// What the prefab index reads of a prefab: its id, its parent, its label and its tags. The
/// rest of the prefab's data is kept by the program around the library.
#[derive(Debug, Clone)]
pub struct PrefabSummary {
    pub id: StaticId,
    pub parent: Option<StaticId>,
    pub label: Option<String>,
    pub tags: Option<TagsData>,
}

impl PrefabSummary {
    /// A prefab with nothing but its id.
    pub fn new(id: StaticId) -> (r: Self)
        ensures
            r.id == id,
            r.parent is None,
            r.label is None,
            r.tags is None,
    {
        PrefabSummary { id, parent: None, label: None, tags: None }
    }
}

/// The numbers of the ids.
pub open spec fn static_values(s: Seq<StaticId>) -> Seq<u32> {
    s.map_values(|x: StaticId| x.0)
}

/// The number of the prefab's parent, where it has one.
pub open spec fn parent_number(p: PrefabSummary) -> u32 {
    match p.parent {
        Some(s) => s.0,
        None => 0,
    }
}

/// Which prefabs a listing keeps.
pub enum PrefabTest<'a> {
    All,
    ParentIs(StaticId),
    AnyTag(&'a Vec<&'a str>),
}

impl<'a> PrefabTest<'a> {
    pub open spec fn passes_spec(&self, p: PrefabSummary) -> bool {
        match self {
            PrefabTest::All => true,
            PrefabTest::ParentIs(id) => p.parent == Some(*id),
            PrefabTest::AnyTag(tags) => has_any_tag(p, tags@.map_values(|t: &str| t@)),
        }
    }

    pub fn passes(&self, p: &PrefabSummary) -> (r: bool)
        ensures
            r == self.passes_spec(*p),
    {
        match self {
            PrefabTest::All => true,
            PrefabTest::ParentIs(id) => match p.parent {
                Some(parent_id) => parent_id.0 == id.0,
                None => false,
            },
            PrefabTest::AnyTag(tags) => tagged_any(p, tags),
        }
    }
}

/// The links from each prefab to its parent, but for a prefab that is its own parent.
pub open spec fn parent_links(m: Map<u32, PrefabSummary>) -> Map<u32, u32> {
    Map::new(
        |k: u32| m.contains_key(k) && m[k].parent is Some && parent_number(m[k]) != k,
        |k: u32| parent_number(m[k]),
    )
}

/// The prefab has one of the tags.
pub open spec fn has_any_tag(p: PrefabSummary, tags: Seq<Seq<char>>) -> bool {
    p.tags is Some && exists|i: int, j: int|
        0 <= i < p.tags->0.values.len() && 0 <= j < tags.len() && #[trigger] p.tags->0.values@[i]@
            == #[trigger] tags[j]
}

/// The prefabs, the data objects are made from, by id.
pub struct Loader {
    index: HashMap<u32, PrefabSummary>,
    parents: Locations,
}

impl View for Loader {
    type V = Map<u32, PrefabSummary>;

    closed spec fn view(&self) -> Map<u32, PrefabSummary> {
        self.index@
    }
}

impl Loader {
    /// Every prefab is stored under its own id, and the parent links are kept beside them.
    pub closed spec fn wf(&self) -> bool {
        &&& forall|k: u32| #[trigger] self.index@.contains_key(k) ==> self.index@[k].id.0 == k
        &&& self.parents@ == parent_links(self.index@)
    }

    pub fn new() -> (r: Self)
        ensures
            r.wf(),
            r@ == Map::<u32, PrefabSummary>::empty(),
    {
        let r = Loader { index: HashMap::new(), parents: Locations::new() };
        proof {
            assert(r.parents@ =~= parent_links(r.index@));
        }
        r
    }

    /// Add a prefab under an id that has none yet.
    pub fn add_prefab(&mut self, data: PrefabSummary)
        requires
            old(self).wf(),
            !old(self)@.contains_key(data.id.0),
        ensures
            final(self).wf(),
            final(self)@ == old(self)@.insert(data.id.0, data),
    {
        let id = data.id;
        match data.parent {
            Some(parent_id) => {
                if parent_id.0 != id.0 {
                    self.parents.set(ObjId(id.0), ObjId(parent_id.0));
                }
            },
            None => {},
        }
        self.index.insert(id.0, data);
        proof {
            assert(self.parents@ =~= parent_links(self.index@));
        }
    }

    pub fn get_prefab(&self, id: StaticId) -> (r: Option<&PrefabSummary>)
        ensures
            match r {
                Some(p) => self@.contains_key(id.0) && *p == self@[id.0],
                None => !self@.contains_key(id.0),
            },
    {
        self.index.get(&id.0)
    }

    /// The label of the prefab, where it has one.
    pub fn get_prefab_label(&self, id: StaticId) -> (r: Option<&str>)
        ensures
            match r {
                Some(l) => self@.contains_key(id.0) && self@[id.0].label is Some && l@ == self@[id.0].label->0@,
                None => !self@.contains_key(id.0) || self@[id.0].label is None,
            },
    {
        match self.index.get(&id.0) {
            Some(data) => match &data.label {
                Some(label) => Some(label.as_str()),
                None => None,
            },
            None => None,
        }
    }

    /// Every prefab's id, each once, in no given order.
    pub fn list_prefabs(&self) -> (r: Vec<StaticId>)
        ensures
            static_values(r@).no_duplicates(),
            static_values(r@).to_set() == self@.dom(),
    {
        let ids = ids_of(&self.index);
        let r = self.keep(&ids, PrefabTest::All);
        proof {
            assert(self@.dom().filter(|k: u32| PrefabTest::All.passes_spec(self@[k])) =~= self@.dom());
        }
        r
    }

    /// The ids among `ids` whose prefab passes the test, in their order.
    fn keep(&self, ids: &Vec<ObjId>, test: PrefabTest) -> (r: Vec<StaticId>)
        requires
            ids@.map_values(|o: ObjId| o.0).no_duplicates(),
            ids@.map_values(|o: ObjId| o.0).to_set() == self@.dom(),
        ensures
            static_values(r@).no_duplicates(),
            static_values(r@).to_set() == self@.dom().filter(|k: u32| test.passes_spec(self@[k])),
    {
        let mut r: Vec<StaticId> = Vec::new();
        let ghost v = ids@.map_values(|o: ObjId| o.0);
        let mut i: usize = 0;
        while i < ids.len()
            invariant
                i <= ids.len(),
                v == ids@.map_values(|o: ObjId| o.0),
                v.no_duplicates(),
                v.to_set() == self@.dom(),
                static_values(r@).no_duplicates(),
                forall|k: u32|
                    static_values(r@).contains(k) <==> (v.take(i as int).contains(k)
                        && test.passes_spec(self@[k])),
            decreases ids.len() - i,
        {
            let id = ids[i];
            let ghost before = static_values(r@);
            proof {
                assert(v[i as int] == id.0);
                assert(v.to_set().contains(id.0));
                assert(v.take(i + 1) =~= v.take(i as int).push(id.0));
            }
            let data = self.index.get(&id.0).unwrap();
            let pass = test.passes(data);
            proof {
                assert(*data == self@[id.0]);
                assert(pass == test.passes_spec(self@[id.0]));
            }
            if pass {
                r.push(StaticId(id.0));
                proof {
                    assert(static_values(r@) =~= before.push(id.0));
                    if before.contains(id.0) {
                        assert(v.take(i as int).contains(id.0));
                        let j = choose|j: int| 0 <= j < i && #[trigger] v.take(i as int)[j] == id.0;
                        assert(v.take(i as int)[j] == v[j]);
                        assert(v[j] == v[i as int]);
                    }
                    assert forall|k: u32|
                        static_values(r@).contains(k) <==> (v.take(i + 1).contains(k) && test.passes_spec(self@[k])) by {
                        vstd::seq_lib::lemma_seq_contains_after_push(before, id.0, k);
                        vstd::seq_lib::lemma_seq_contains_after_push(v.take(i as int), id.0, k);
                    }
                }
            } else {
                proof {
                    assert forall|k: u32|
                        static_values(r@).contains(k) <==> (v.take(i + 1).contains(k) && test.passes_spec(self@[k])) by {
                        vstd::seq_lib::lemma_seq_contains_after_push(v.take(i as int), id.0, k);
                    }
                }
            }
            i = i + 1;
        }
        proof {
            assert(v.take(ids.len() as int) =~= v);
            assert(static_values(r@).to_set() =~= self@.dom().filter(|k: u32| test.passes_spec(self@[k])));
        }
        r
    }

    /// The prefabs whose parent is the given one, each once, in no given order.
    pub fn find_prefabs_by_parent(&self, id: StaticId) -> (r: Vec<StaticId>)
        requires
            self.wf(),
        ensures
            static_values(r@).no_duplicates(),
            static_values(r@).to_set() == self@.dom().filter(
                |k: u32| self@[k].parent == Some(id),
            ),
    {
        let ids = ids_of(&self.index);
        let r = self.keep(&ids, PrefabTest::ParentIs(id));
        proof {
            assert(self@.dom().filter(|k: u32| PrefabTest::ParentIs(id).passes_spec(self@[k])) =~= self@.dom().filter(
                |k: u32| self@[k].parent == Some(id),
            ));
        }
        r
    }

    /// Every prefab below the given one, through parents, each once, in no given order. The
    /// prefab must not be below itself.
    pub fn find_deep_prefabs_by_parents(&self, static_id: StaticId) -> (r: Vec<StaticId>)
        requires
            self.wf(),
            !(self@.contains_key(static_id.0) && self@[static_id.0].parent == Some(static_id)),
            !is_descendant(parent_links(self@), static_id.0, static_id.0),
        ensures
            static_values(r@).no_duplicates(),
            static_values(r@).to_set() == descendants(parent_links(self@), static_id.0),
    {
        let found = self.parents.list_deep_at(ObjId(static_id.0));
        let mut r: Vec<StaticId> = Vec::new();
        let mut i: usize = 0;
        while i < found.len()
            invariant
                i <= found.len(),
                static_values(r@) == obj_values(found@).take(i as int),
            decreases found.len() - i,
        {
            r.push(StaticId(found[i].0));
            proof {
                assert(obj_values(found@).take(i + 1) =~= obj_values(found@).take(i as int).push(found@[i as int].0));
                assert(static_values(r@) =~= obj_values(found@).take(i + 1));
            }
            i = i + 1;
        }
        proof {
            assert(obj_values(found@).take(found.len() as int) =~= obj_values(found@));
        }
        r
    }

    /// Give the mob the behaviour its data describes, unless it has one already.
    pub fn apply_ai_data(ai_repo: &mut AiRepo, mob_id: MobId, ai_data: &AiData) -> (r: Result<()>)
        requires
            old(ai_repo).wf(),
        ensures
            final(ai_repo).wf(),
            r is Ok,
            old(ai_repo)@.contains_key(mob_id.0) ==> final(ai_repo)@ == old(ai_repo)@,
            !old(ai_repo)@.contains_key(mob_id.0) ==> final(ai_repo)@.dom() == old(ai_repo)@.dom().insert(mob_id.0)
                && is_parsed(mob_id, *ai_data, final(ai_repo)@[mob_id.0]) && forall|k: u32|
                k != mob_id.0 && #[trigger] old(ai_repo)@.contains_key(k) ==> final(ai_repo)@[k] == old(ai_repo)@[k],
    {
        let ai = parse_ai(mob_id, ai_data);
        let _ = ai_repo.add_or_update(ai);
        Ok(())
    }

    /// The prefabs with one of the tags, each once, in no given order.
    pub fn find_prefabs_by_tags_or(&self, tags: &Vec<&str>) -> (r: Vec<StaticId>)
        requires
            self.wf(),
        ensures
            static_values(r@).no_duplicates(),
            static_values(r@).to_set() == self@.dom().filter(
                |k: u32| has_any_tag(self@[k], tags@.map_values(|t: &str| t@)),
            ),
    {
        let ids = ids_of(&self.index);
        let r = self.keep(&ids, PrefabTest::AnyTag(tags));
        proof {
            assert(self@.dom().filter(|k: u32| PrefabTest::AnyTag(tags).passes_spec(self@[k])) =~= self@.dom().filter(
                |k: u32| has_any_tag(self@[k], tags@.map_values(|t: &str| t@)),
            ));
        }
        r
    }
}

/// Whether the prefab has one of the tags.
fn tagged_any(p: &PrefabSummary, tags: &Vec<&str>) -> (r: bool)
    ensures
        r == has_any_tag(*p, tags@.map_values(|t: &str| t@)),
{
    let values = match &p.tags {
        Some(t) => &t.values,
        None => {
            return false;
        },
    };
    let ghost ts = tags@.map_values(|t: &str| t@);
    let mut i: usize = 0;
    while i < values.len()
        invariant
            i <= values.len(),
            ts == tags@.map_values(|t: &str| t@),
            p.tags is Some,
            values@ == p.tags->0.values@,
            forall|a: int, b: int| 0 <= a < i && 0 <= b < ts.len() ==> values@[a]@ != ts[b],
        decreases values.len() - i,
    {
        let mut j: usize = 0;
        while j < tags.len()
            invariant
                i < values.len(),
                p.tags is Some,
                values@ == p.tags->0.values@,
                j <= tags.len(),
                ts == tags@.map_values(|t: &str| t@),
                forall|b: int| 0 <= b < j ==> values@[i as int]@ != ts[b],
            decreases tags.len() - j,
        {
            if str_eq(values[i].as_str(), tags[j]) {
                proof {
                    assert(values@[i as int]@ == ts[j as int]);
                    assert(p.tags->0.values@[i as int]@ == tags@.map_values(|t: &str| t@)[j as int]);
                }
                return true;
            }
            j = j + 1;
        }
        i = i + 1;
    }
    false
}

/// What checking the ids of the data found: entries whose id is given again, and entries
/// whose id differs from their key.
#[derive(Debug, Clone)]
pub struct ValidationResult {
    pub duplicate_ids: Vec<StaticId>,
    pub mismatch_ids: Vec<(StaticId, StaticId)>,
}

/// The id an entry has once normalized: its own, or its key where it has none.
pub open spec fn normalized_id(e: (StaticId, Option<StaticId>)) -> StaticId {
    match e.1 {
        Some(id) => id,
        None => e.0,
    }
}

/// The entries whose id differs from their key, as (key, id), in order.
pub open spec fn mismatches(es: Seq<(StaticId, Option<StaticId>)>) -> Seq<(StaticId, StaticId)>
    decreases es.len(),
{
    if es.len() == 0 {
        Seq::empty()
    } else {
        let e = es.last();
        mismatches(es.drop_last()) + if e.1 is Some && e.1->0 != e.0 {
            seq![(e.0, e.1->0)]
        } else {
            Seq::empty()
        }
    }
}

/// The keys of the entries whose normalized id an earlier entry has, in order.
pub open spec fn duplicates(es: Seq<(StaticId, Option<StaticId>)>) -> Seq<StaticId>
    decreases es.len(),
{
    if es.len() == 0 {
        Seq::empty()
    } else {
        let e = es.last();
        let earlier = es.drop_last();
        duplicates(earlier) + if exists|j: int| 0 <= j < earlier.len() && normalized_id(earlier[j]) == normalized_id(e) {
            seq![e.0]
        } else {
            Seq::empty()
        }
    }
}

/// The numbers of the normalized ids of the entries.
pub open spec fn id_numbers(es: Seq<(StaticId, Option<StaticId>)>) -> Seq<u32> {
    es.map_values(|e: (StaticId, Option<StaticId>)| normalized_id(e).0)
}

/// Every entry with its normalized id.
pub open spec fn normalized(es: Seq<(StaticId, Option<StaticId>)>) -> Seq<(StaticId, Option<StaticId>)> {
    es.map_values(|e: (StaticId, Option<StaticId>)| (e.0, Some(normalized_id(e))))
}

/// Give each entry without an id its key as id, and check the ids of the objects and then of
/// the prefabs, each given as (key, id) in key order (see `mismatches` and `duplicates`).
pub fn validate_and_normalize(
    objects: &mut Vec<(StaticId, Option<StaticId>)>,
    prefabs: &mut Vec<(StaticId, Option<StaticId>)>,
) -> (r: ValidationResult)
    ensures
        final(objects)@ == normalized(old(objects)@),
        final(prefabs)@ == normalized(old(prefabs)@),
        r.mismatch_ids@ == mismatches(old(objects)@ + old(prefabs)@),
        r.duplicate_ids@ == duplicates(old(objects)@ + old(prefabs)@),
{
    let ghost all = old(objects)@ + old(prefabs)@;
    let mut result = ValidationResult { duplicate_ids: Vec::new(), mismatch_ids: Vec::new() };
    let mut ids: HashSet<u32> = HashSet::new();
    let ghost n = objects.len() as int;
    proof {
        assert(all.subrange(0, n) =~= objects@);
        assert(all.take(0) =~= Seq::<(StaticId, Option<StaticId>)>::empty());
        assert(id_numbers(all.take(0)).to_set() =~= Set::<u32>::empty());
    }
    normalize_part(objects, &mut ids, &mut result, Ghost(all), Ghost(0));
    proof {
        assert(all.subrange(n, n + prefabs@.len()) =~= prefabs@);
    }
    normalize_part(prefabs, &mut ids, &mut result, Ghost(all), Ghost(n));
    proof {
        assert(all.take(all.len() as int) =~= all);
    }
    result
}

/// Check and normalize the entries standing from `start` in the whole list `all`, after the
/// ones before them.
fn normalize_part(
    part: &mut Vec<(StaticId, Option<StaticId>)>,
    ids: &mut HashSet<u32>,
    result: &mut ValidationResult,
    Ghost(all): Ghost<Seq<(StaticId, Option<StaticId>)>>,
    Ghost(start): Ghost<int>,
)
    requires
        0 <= start,
        start + old(part)@.len() <= all.len(),
        all.subrange(start, start + old(part)@.len()) == old(part)@,
        old(ids)@ == id_numbers(all.take(start)).to_set(),
        old(result).mismatch_ids@ == mismatches(all.take(start)),
        old(result).duplicate_ids@ == duplicates(all.take(start)),
    ensures
        final(part)@ == normalized(old(part)@),
        final(ids)@ == id_numbers(all.take(start + old(part)@.len())).to_set(),
        final(result).mismatch_ids@ == mismatches(all.take(start + old(part)@.len())),
        final(result).duplicate_ids@ == duplicates(all.take(start + old(part)@.len())),
{
    let ghost p0 = part@;
    let mut i: usize = 0;
    while i < part.len()
        invariant
            0 <= start,
            i <= part.len(),
            part@.len() == p0.len(),
            start + p0.len() <= all.len(),
            all.subrange(start, start + p0.len()) == p0,
            forall|k: int| 0 <= k < i ==> part@[k] == (p0[k].0, Some(normalized_id(p0[k]))),
            forall|k: int| i <= k < p0.len() ==> part@[k] == p0[k],
            ids@ == id_numbers(all.take(start + i)).to_set(),
            result.mismatch_ids@ == mismatches(all.take(start + i)),
            result.duplicate_ids@ == duplicates(all.take(start + i)),
        decreases part.len() - i,
    {
        let (key, given) = part[i];
        let ghost e = p0[i as int];
        let ghost before = all.take(start + i);
        let ghost after = all.take(start + i + 1);
        proof {
            assert(all[start + i] == p0[i as int]);
            assert(after.drop_last() =~= before);
            assert(after.last() == e);
        }
        let id = match given {
            Some(id) => {
                if id.0 != key.0 {
                    result.mismatch_ids.push((key, id));
                }
                id
            },
            None => key,
        };
        part.set(i, (key, Some(id)));
        let fresh = ids.insert(id.0);
        proof {
            assert(id_numbers(after) =~= id_numbers(before).push(id.0));
            id_numbers(before).lemma_push_to_set_commute(id.0);
            assert(fresh == !exists|j: int| 0 <= j < before.len() && normalized_id(before[j]) == normalized_id(e)) by {
                if exists|j: int| 0 <= j < before.len() && normalized_id(before[j]) == normalized_id(e) {
                    let j = choose|j: int| 0 <= j < before.len() && normalized_id(before[j]) == normalized_id(e);
                    assert(id_numbers(before)[j] == id.0);
                }
                if !fresh {
                    assert(id_numbers(before).to_set().contains(id.0));
                    let j = choose|j: int| 0 <= j < id_numbers(before).len() && id_numbers(before)[j] == id.0;
                    assert(normalized_id(before[j]).0 == id.0);
                }
            }
        }
        if !fresh {
            result.duplicate_ids.push(key);
        }
        i = i + 1;
    }
    proof {
        assert(part@ =~= normalized(p0));
    }
}

/// Law: checking data a second time changes no id and finds the same mismatches and
/// duplicates.
pub proof fn validation_is_idempotent(es: Seq<(StaticId, Option<StaticId>)>)
    ensures
        normalized(normalized(es)) == normalized(es),
        mismatches(normalized(es)) == mismatches(es),
        duplicates(normalized(es)) == duplicates(es),
    decreases es.len(),
{
    assert(normalized(normalized(es)) =~= normalized(es));
    if es.len() > 0 {
        validation_is_idempotent(es.drop_last());
        assert(normalized(es).drop_last() =~= normalized(es.drop_last()));
        let earlier = es.drop_last();
        let n_earlier = normalized(es).drop_last();
        assert(forall|j: int| 0 <= j < earlier.len() ==> normalized_id(n_earlier[j]) == normalized_id(earlier[j]));
        assert(normalized_id(normalized(es).last()) == normalized_id(es.last()));
    }
}

impl ValidationResult {
    /// `Err` where an id differs from its key or is given twice, naming the first such.
    pub fn assert_valid(&self) -> (r: Result<()>)
        ensures
            self.mismatch_ids.len() > 0 ==> (r matches Err(Error::Error(msg)) && msg@ == "conflict object id "@
                + static_id_text(self.mismatch_ids@[0].0) + " and "@ + static_id_text(self.mismatch_ids@[0].1)),
            self.mismatch_ids.len() == 0 && self.duplicate_ids.len() > 0 ==> (r matches Err(Error::Error(msg)) && msg@
                == "duplicate prefab id "@ + static_id_text(self.duplicate_ids@[0])),
            self.mismatch_ids.len() == 0 && self.duplicate_ids.len() == 0 ==> r is Ok,
    {
        if self.mismatch_ids.len() > 0 {
            let (a, b) = self.mismatch_ids[0];
            let mut msg = String::from_str("conflict object id ");
            msg.append(write_static_id(a).as_str());
            msg.append(" and ");
            msg.append(write_static_id(b).as_str());
            return Err(Error::Error(msg));
        }
        if self.duplicate_ids.len() > 0 {
            let mut msg = String::from_str("duplicate prefab id ");
            msg.append(write_static_id(self.duplicate_ids[0]).as_str());
            return Err(Error::Error(msg));
        }
        Ok(())
    }
}

/// How `{:?}` writes a static id.
pub open spec fn static_id_text(id: StaticId) -> Seq<char> {
    "StaticId("@ + decimal(id.0 as nat) + ")"@
}

pub(crate) fn write_static_id(id: StaticId) -> (r: String)
    ensures
        r@ == static_id_text(id),
{
    let mut r = String::from_str("StaticId(");
    r.append(usize_to_string(id.0 as usize).as_str());
    r.append(")");
    r
}

} // verus!
