use crate::game::labels::{candidates, id_values, search_in, Labels};
use crate::ids::ObjId;
use std::collections::HashMap;
use vstd::prelude::*;
use vstd::std_specs::iter::IteratorSpec;

verus! {

broadcast use {vstd::std_specs::hash::group_hash_axioms, vstd::set::group_set_axioms};

pub type LocationId = ObjId;

/// Location of `k` after following `n` parent links, if every link exists.
pub open spec fn up(m: Map<u32, u32>, k: u32, n: nat) -> Option<u32>
    decreases n,
{
    if n == 0 {
        Some(k)
    } else if m.contains_key(k) {
        up(m, m[k], (n - 1) as nat)
    } else {
        None
    }
}

/// `k` is located, directly or through other objects, at `loc`.
pub open spec fn is_descendant(m: Map<u32, u32>, k: u32, loc: u32) -> bool {
    exists|n: nat| n >= 1 && #[trigger] up(m, k, n) == Some(loc)
}

/// The locations above `k`, nearest first, following at most `fuel` links.
pub open spec fn ancestors(m: Map<u32, u32>, k: u32, fuel: nat) -> Seq<u32>
    decreases fuel,
{
    if fuel == 0 || !m.contains_key(k) {
        Seq::empty()
    } else {
        seq![m[k]] + ancestors(m, m[k], (fuel - 1) as nat)
    }
}

/// The objects located directly at `loc`.
pub open spec fn children(m: Map<u32, u32>, loc: u32) -> Set<u32> {
    Set::new(|k: u32| m.contains_key(k) && m[k] == loc)
}

/// Filtering keeps a sequence free of duplicates.
pub proof fn lemma_filter_no_dup<A>(s: Seq<A>, p: spec_fn(A) -> bool)
    requires
        s.no_duplicates(),
    ensures
        s.filter(p).no_duplicates(),
    decreases s.len(),
{
    reveal(Seq::filter);
    if s.len() > 0 {
        let rest = s.drop_last();
        assert(rest.no_duplicates());
        lemma_filter_no_dup(rest, p);
        if p(s.last()) {
            if rest.filter(p).contains(s.last()) {
                rest.lemma_filter_contains_rev(p, s.last());
                let j = choose|j: int| 0 <= j < rest.len() && rest[j] == s.last();
                assert(s[j] == s[s.len() - 1]);
            }
        }
    }
}

/// Every object located, directly or through other objects, at `loc`.
pub open spec fn descendants(m: Map<u32, u32>, loc: u32) -> Set<u32> {
    Set::new(|k: u32| is_descendant(m, k, loc))
}

/// Every child of `loc` and of every member of `s` is in `s`.
pub open spec fn closed_under_children(m: Map<u32, u32>, loc: u32, s: Set<u32>) -> bool {
    &&& children(m, loc).subset_of(s)
    &&& forall|x: u32| #[trigger] s.contains(x) ==> children(m, x).subset_of(s)
}

/// A set closed under children holds every descendant.
pub proof fn lemma_closed_holds_descendants(m: Map<u32, u32>, loc: u32, s: Set<u32>, k: u32, n: nat)
    requires
        closed_under_children(m, loc, s),
        n >= 1,
        up(m, k, n) == Some(loc),
    ensures
        s.contains(k),
    decreases n,
{
    assert(m.contains_key(k));
    let p = m[k];
    assert(up(m, p, (n - 1) as nat) == Some(loc));
    if n == 1 {
        assert(children(m, loc).contains(k));
    } else {
        lemma_closed_holds_descendants(m, loc, s, p, (n - 1) as nat);
        assert(children(m, p).contains(k));
    }
}

pub open spec fn obj_values(s: Seq<ObjId>) -> Seq<u32> {
    s.map_values(|o: ObjId| o.0)
}

/// Where each object is: a tree of objects, each located at its parent.
pub struct Locations {
    index: HashMap<u32, u32>,
}

impl View for Locations {
    type V = Map<u32, u32>;

    closed spec fn view(&self) -> Map<u32, u32> {
        self.index@
    }
}

impl Locations {
    pub fn new() -> (r: Self)
        ensures
            r@ == Map::<u32, u32>::empty(),
    {
        Locations { index: HashMap::new() }
    }

    /// Place an object at a location; an object can not be located at itself.
    pub fn set(&mut self, obj_id: ObjId, location_id: LocationId)
        requires
            obj_id != location_id,
        ensures
            final(self)@ == old(self)@.insert(obj_id.0, location_id.0),
    {
        self.index.insert(obj_id.0, location_id.0);
    }

    pub fn remove(&mut self, obj_id: ObjId)
        ensures
            final(self)@ == old(self)@.remove(obj_id.0),
    {
        self.index.remove(&obj_id.0);
    }

    pub fn get(&self, obj_id: ObjId) -> (r: Option<ObjId>)
        ensures
            match r {
                Some(l) => self@.contains_key(obj_id.0) && l.0 == self@[obj_id.0],
                None => !self@.contains_key(obj_id.0),
            },
    {
        match self.index.get(&obj_id.0) {
            Some(l) => Some(ObjId(*l)),
            None => None,
        }
    }

    /// Every located object, each once.
    fn keys(&self) -> (r: Vec<u32>)
        ensures
            r@.no_duplicates(),
            r@.to_set() == self@.dom(),
    {
        let mut r: Vec<u32> = Vec::new();
        let ghost ks = vstd::std_specs::hash::spec_keys_iter(&self.index).remaining();
        proof {
            assert(ks.unref().to_set() == self@.dom());
        }
        for k in it: self.index.keys()
            invariant
                it.seq() == ks,
                r@ == ks.take(it.index() as int).map_values(|x: &u32| *x),
        {
            r.push(*k);
        }
        proof {
            assert(ks.take(ks.len() as int) =~= ks);
            assert(r@ =~= ks.unref());
            assert forall|i: int, j: int| 0 <= i < j < r.len() implies r@[i] != r@[j] by {
                assert(ks[i] != ks[j]);
            }
        }
        r
    }

    /// The objects located directly at `location_id`, each once, in no given order.
    pub fn list_at(&self, location_id: ObjId) -> (r: Vec<ObjId>)
        ensures
            obj_values(r@).no_duplicates(),
            obj_values(r@).to_set() == children(self@, location_id.0),
    {
        let keys = self.keys();
        let ghost pred = |k: u32| self@[k] == location_id.0;
        let mut r: Vec<ObjId> = Vec::new();
        let mut i: usize = 0;
        proof {
            assert(keys@.take(0) =~= Seq::<u32>::empty());
            assert(obj_values(r@) =~= Seq::<u32>::empty());
        }
        while i < keys.len()
            invariant
                i <= keys.len(),
                keys@.no_duplicates(),
                keys@.to_set() == self@.dom(),
                pred == (|k: u32| self@[k] == location_id.0),
                obj_values(r@) == keys@.take(i as int).filter(pred),
            decreases keys.len() - i,
        {
            let k = keys[i];
            proof {
                assert(keys@.to_set().contains(k));
                assert(keys@.take(i + 1) =~= keys@.take(i as int).push(k));
                keys@.take(i as int).lemma_filter_push(k, pred);
            }
            let p = *self.index.get(&k).unwrap();
            let ghost old_r = r@;
            if p == location_id.0 {
                r.push(ObjId(k));
                proof {
                    assert(obj_values(r@) =~= obj_values(old_r).push(k));
                }
            }
            i = i + 1;
        }
        proof {
            assert(keys@.take(keys.len() as int) =~= keys@);
            lemma_filter_no_dup(keys@, pred);
            let f = keys@.filter(pred);
            assert forall|k: u32| f.to_set().contains(k) <==> children(self@, location_id.0).contains(k) by {
                if f.contains(k) {
                    keys@.lemma_filter_contains_rev(pred, k);
                    let j = choose|j: int| 0 <= j < f.len() && f[j] == k;
                    keys@.lemma_filter_pred(pred, j);
                    assert(keys@.to_set().contains(k));
                }
                if children(self@, location_id.0).contains(k) {
                    assert(keys@.to_set().contains(k));
                    let j = choose|j: int| 0 <= j < keys.len() && keys@[j] == k;
                    keys@.lemma_filter_contains(pred, j);
                }
            }
            assert(f.to_set() =~= children(self@, location_id.0));
        }
        r
    }

    /// Add to `r` the children of `x` that it does not hold yet.
    fn add_children(&self, keys: &Vec<u32>, x: u32, r: &mut Vec<u32>)
        requires
            keys@.to_set() == self@.dom(),
            old(r)@.no_duplicates(),
        ensures
            final(r)@.no_duplicates(),
            final(r)@.len() >= old(r)@.len(),
            final(r)@.take(old(r)@.len() as int) == old(r)@,
            final(r)@.to_set() == old(r)@.to_set() + children(self@, x),
    {
        let ghost r0 = r@;
        let mut i: usize = 0;
        while i < keys.len()
            invariant
                i <= keys.len(),
                keys@.to_set() == self@.dom(),
                r@.no_duplicates(),
                r@.len() >= r0.len(),
                r@.take(r0.len() as int) == r0,
                forall|y: u32| #[trigger] r@.contains(y) ==> r0.contains(y) || children(self@, x).contains(y),
                forall|j: int| 0 <= j < i && self@[keys@[j]] == x ==> r@.contains(#[trigger] keys@[j]),
                forall|y: u32| r0.contains(y) ==> #[trigger] r@.contains(y),
            decreases keys.len() - i,
        {
            let k = keys[i];
            proof {
                assert(keys@.to_set().contains(k));
            }
            let p = *self.index.get(&k).unwrap();
            if p == x {
                let mut found = false;
                let mut j: usize = 0;
                while j < r.len()
                    invariant
                        j <= r.len(),
                        found == exists|t: int| 0 <= t < j && r@[t] == k,
                    decreases r.len() - j,
                {
                    if r[j] == k {
                        found = true;
                    }
                    j = j + 1;
                }
                if !found {
                    let ghost old_r = r@;
                    r.push(k);
                    proof {
                        assert forall|a: int, b: int| 0 <= a < b < r@.len() implies r@[a] != r@[b] by {
                            if b == r@.len() - 1 {
                                assert(old_r[a] != k);
                            } else {
                                assert(old_r[a] != old_r[b]);
                            }
                        }
                        assert(r@.take(r0.len() as int) =~= old_r.take(r0.len() as int));
                        assert(children(self@, x).contains(k));
                        assert forall|y: u32| #[trigger] r@.contains(y) implies r0.contains(y)
                            || children(self@, x).contains(y) by {
                            if y != k {
                                let t = choose|t: int| 0 <= t < r@.len() && r@[t] == y;
                                assert(old_r[t] == y);
                                assert(old_r.contains(y));
                            }
                        }
                        assert forall|y: u32| r0.contains(y) implies #[trigger] r@.contains(y) by {
                            let t = choose|t: int| 0 <= t < old_r.len() && old_r[t] == y;
                            assert(r@[t] == y);
                        }
                        assert forall|j: int| 0 <= j < i + 1 && self@[keys@[j]] == x implies r@.contains(
                            #[trigger] keys@[j],
                        ) by {
                            if j == i {
                                assert(r@[r@.len() - 1] == k);
                            } else {
                                let t = choose|t: int| 0 <= t < old_r.len() && old_r[t] == keys@[j];
                                assert(r@[t] == keys@[j]);
                            }
                        }
                    }
                } else {
                    proof {
                        let t = choose|t: int| 0 <= t < r@.len() && r@[t] == k;
                        assert(r@.contains(k));
                    }
                }
            }
            i = i + 1;
        }
        proof {
            assert forall|y: u32| #[trigger] (r0.to_set() + children(self@, x)).contains(y) implies r@.to_set().contains(y) by {
                if children(self@, x).contains(y) {
                    assert(keys@.to_set().contains(y));
                    let j = choose|j: int| 0 <= j < keys.len() && keys@[j] == y;
                    assert(r@.contains(keys@[j]));
                }
            }
            assert(r@.to_set() =~= r0.to_set() + children(self@, x));
        }
    }

    /// Every object located, directly or through others, at `location_id`, each once, in no
    /// given order.
    pub fn list_deep_at(&self, location_id: LocationId) -> (r: Vec<ObjId>)
        ensures
            obj_values(r@).no_duplicates(),
            obj_values(r@).to_set() == descendants(self@, location_id.0),
    {
        let keys = self.keys();
        let loc = location_id.0;
        let mut found: Vec<u32> = Vec::new();
        self.add_children(&keys, loc, &mut found);
        proof {
            assert forall|y: u32| #[trigger] found@.contains(y) implies is_descendant(self@, y, loc) by {
                assert(found@.to_set().contains(y));
                reveal_with_fuel(up, 2);
                assert(up(self@, y, 1) == Some(loc));
            }
        }
        let mut q: usize = 0;
        while q < found.len()
            invariant
                keys@.to_set() == self@.dom(),
                q <= found.len(),
                found@.no_duplicates(),
                forall|y: u32| #[trigger] found@.contains(y) ==> is_descendant(self@, y, loc),
                children(self@, loc).subset_of(found@.to_set()),
                forall|j: int| 0 <= j < q ==> children(self@, #[trigger] found@[j]).subset_of(found@.to_set()),
            decreases self@.dom().len() - q,
        {
            proof {
                assert forall|y: u32| found@.to_set().contains(y) implies self@.dom().contains(y) by {
                    assert(is_descendant(self@, y, loc));
                    let n = choose|n: nat| n >= 1 && #[trigger] up(self@, y, n) == Some(loc);
                }
                found@.unique_seq_to_set();
                vstd::set_lib::lemma_len_subset(found@.to_set(), self@.dom());
            }
            let x = found[q];
            let ghost old_found = found@;
            self.add_children(&keys, x, &mut found);
            proof {
                assert forall|y: u32| #[trigger] found@.contains(y) implies is_descendant(self@, y, loc) by {
                    if !old_found.contains(y) {
                        assert(found@.to_set().contains(y));
                        assert(children(self@, x).contains(y));
                        assert(old_found.contains(x));
                        let n = choose|n: nat| n >= 1 && #[trigger] up(self@, x, n) == Some(loc);
                        assert(up(self@, y, n + 1) == Some(loc));
                    }
                }
                assert forall|j: int| 0 <= j < q + 1 implies children(self@, #[trigger] found@[j]).subset_of(found@.to_set()) by {
                    assert(found@[j] == old_found[j]);
                }
            }
            q = q + 1;
        }
        proof {
            let s = found@.to_set();
            assert forall|x: u32| #[trigger] s.contains(x) implies children(self@, x).subset_of(s) by {
                let j = choose|j: int| 0 <= j < found@.len() && found@[j] == x;
            }
            assert forall|k: u32| #[trigger] descendants(self@, loc).contains(k) implies s.contains(k) by {
                let n = choose|n: nat| n >= 1 && #[trigger] up(self@, k, n) == Some(loc);
                lemma_closed_holds_descendants(self@, loc, s, k, n);
            }
            assert(s =~= descendants(self@, loc));
        }
        let mut r: Vec<ObjId> = Vec::new();
        let mut i: usize = 0;
        while i < found.len()
            invariant
                i <= found.len(),
                obj_values(r@) == found@.take(i as int),
            decreases found.len() - i,
        {
            r.push(ObjId(found[i]));
            proof {
                assert(found@.take(i + 1) =~= found@.take(i as int).push(found@[i as int]));
                assert(obj_values(r@) =~= found@.take(i + 1));
            }
            i = i + 1;
        }
        proof {
            assert(found@.take(found.len() as int) =~= found@);
        }
        r
    }

    /// The locations above the object, nearest first. The walk follows at most as many links
    /// as there are located objects, which is every link where locations form a tree.
    pub fn list_parents(&self, obj_id: ObjId) -> (r: Vec<LocationId>)
        ensures
            obj_values(r@) == ancestors(self@, obj_id.0, self@.dom().len()),
    {
        let mut r: Vec<ObjId> = Vec::new();
        let mut cur = obj_id.0;
        let mut fuel = self.index.len();
        let ghost total = ancestors(self@, obj_id.0, self@.dom().len());
        proof {
            assert(obj_values(r@) =~= Seq::<u32>::empty());
            assert(obj_values(r@) + ancestors(self@, cur, fuel as nat) =~= total);
        }
        while fuel > 0
            invariant
                total == ancestors(self@, obj_id.0, self@.dom().len()),
                obj_values(r@) + ancestors(self@, cur, fuel as nat) == total,
            decreases fuel,
        {
            match self.index.get(&cur) {
                Some(p) => {
                    let p = *p;
                    let ghost old_r = r@;
                    r.push(ObjId(p));
                    proof {
                        assert(obj_values(r@) =~= obj_values(old_r).push(p));
                        assert(ancestors(self@, cur, fuel as nat) == seq![p] + ancestors(self@, p, (fuel - 1) as nat));
                        assert(obj_values(r@) + ancestors(self@, p, (fuel - 1) as nat) =~= obj_values(old_r) + ancestors(self@, cur, fuel as nat));
                    }
                    cur = p;
                    fuel = fuel - 1;
                },
                None => {
                    proof {
                        assert(ancestors(self@, cur, fuel as nat) =~= Seq::<u32>::empty());
                        assert(obj_values(r@) =~= total);
                    }
                    return r;
                },
            }
        }
        proof {
            assert(obj_values(r@) =~= total);
        }
        r
    }

    /// The object followed by the locations above it, nearest first.
    pub fn list_parents_inclusive(&self, obj_id: ObjId) -> (r: Vec<LocationId>)
        ensures
            obj_values(r@) == seq![obj_id.0] + ancestors(self@, obj_id.0, self@.dom().len()),
    {
        let parents = self.list_parents(obj_id);
        let mut r: Vec<ObjId> = Vec::new();
        r.push(obj_id);
        let mut i: usize = 0;
        while i < parents.len()
            invariant
                i <= parents.len(),
                obj_values(r@) == seq![obj_id.0] + obj_values(parents@).take(i as int),
            decreases parents.len() - i,
        {
            let ghost old_r = r@;
            r.push(parents[i]);
            proof {
                assert(obj_values(r@) =~= obj_values(old_r).push(parents@[i as int].0));
                assert(obj_values(parents@).take(i + 1) =~= obj_values(parents@).take(i as int).push(parents@[i as int].0));
                assert(obj_values(r@) =~= seq![obj_id.0] + obj_values(parents@).take(i + 1));
            }
            i = i + 1;
        }
        proof {
            assert(obj_values(parents@).take(parents.len() as int) =~= obj_values(parents@));
        }
        r
    }

    pub fn is_same_location(&self, obj_id1: ObjId, obj_id2: ObjId) -> (r: bool)
        ensures
            r == (self@.get(obj_id1.0) == self@.get(obj_id2.0)),
    {
        let a = self.get(obj_id1);
        let b = self.get(obj_id2);
        match (a, b) {
            (Some(x), Some(y)) => x.0 == y.0,
            (None, None) => true,
            _ => false,
        }
    }
}

/// `cands` lists each object of `s` once.
pub open spec fn enumerates(cands: Seq<ObjId>, s: Set<u32>) -> bool {
    obj_values(cands).to_set() == s && obj_values(cands).no_duplicates()
}

/// `r` is what a search of `input` among the labels of the objects directly at `loc` gives.
pub open spec fn is_search_at(labels: &Labels, m: Map<u32, u32>, loc: u32, input: Seq<char>, r: Seq<u32>) -> bool {
    exists|cands: Seq<ObjId>|
        #![trigger labels.keys_of(cands)]
        enumerates(cands, children(m, loc)) && r == search_in(candidates(labels.keys_of(cands)), input)
}

/// Objects directly at the location whose candidate name matches the input (see
/// `label_search`); objects without a label are not found.
pub fn search_at(labels: &Labels, locations: &Locations, location_id: LocationId, input: &str) -> (r: Vec<ObjId>)
    requires
        labels.wf(),
    ensures
        is_search_at(labels, locations@, location_id.0, input@, id_values(r@)),
{
    let candidates = locations.list_at(location_id);
    let r = labels.search(&candidates, input);
    proof {
        assert(labels.keys_of(candidates@) == labels.keys_of(candidates@));
    }
    r
}

/// Law: an object set at a location is listed among the objects directly at it, and at no
/// other location any more.
pub proof fn set_moves_the_object(before: Map<u32, u32>, after: Map<u32, u32>, obj: u32, loc: u32)
    requires
        after == before.insert(obj, loc),
    ensures
        children(after, loc).contains(obj),
        forall|other: u32| other != loc ==> !(#[trigger] children(after, other)).contains(obj),
        forall|other: u32, k: u32| k != obj ==> (#[trigger] children(after, other).contains(k) <==> children(before, other).contains(k)),
{
}

} // verus!
