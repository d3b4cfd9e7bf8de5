use crate::game::loader::ValidationResult;
use vstd::prelude::*;

verus! {

/// What a look over the configuration tells: the ids to give next, the prefab ids below the
/// largest that no prefab uses, and the ids that failed validation.
pub struct ConfigReport {
    pub next_id: u64,
    pub next_prefab_id: u64,
    pub free_prefab_ids: Vec<u32>,
    pub broken_ids: Vec<u32>,
}

/// The largest id of the entries `(id, parent)`, or 0 where there are none.
pub open spec fn max_id(es: Seq<(u32, Option<u32>)>) -> nat
    decreases es.len(),
{
    if es.len() == 0 {
        0
    } else {
        let m = max_id(es.drop_last());
        if es.last().0 > m {
            es.last().0 as nat
        } else {
            m
        }
    }
}

/// Some entry has the id.
pub open spec fn uses_id(es: Seq<(u32, Option<u32>)>, id: u32) -> bool {
    exists|i: int| 0 <= i < es.len() && (#[trigger] es[i]).0 == id
}

/// An id that validation found given twice or different from its key.
pub open spec fn is_broken(v: ValidationResult, id: u32) -> bool {
    ||| exists|i: int| 0 <= i < v.duplicate_ids@.len() && (#[trigger] v.duplicate_ids@[i]).0 == id
    ||| exists|i: int|
        0 <= i < v.mismatch_ids@.len() && ((#[trigger] v.mismatch_ids@[i]).0.0 == id || v.mismatch_ids@[i].1.0 == id)
}

proof fn lemma_max_id(es: Seq<(u32, Option<u32>)>)
    ensures
        max_id(es) <= u32::MAX,
        forall|i: int| 0 <= i < es.len() ==> (#[trigger] es[i]).0 <= max_id(es),
        es.len() > 0 ==> uses_id(es, max_id(es) as u32),
    decreases es.len(),
{
    if es.len() > 0 {
        let d = es.drop_last();
        lemma_max_id(d);
        assert forall|i: int| 0 <= i < es.len() implies (#[trigger] es[i]).0 <= max_id(es) by {
            if i < d.len() {
                assert(es[i] == d[i]);
            }
        }
        if es.last().0 <= max_id(d) && d.len() > 0 {
            let i = choose|i: int| 0 <= i < d.len() && (#[trigger] d[i]).0 == max_id(d) as u32;
            assert(es[i] == d[i]);
        }
        if es.last().0 <= max_id(d) && d.len() == 0 {
            assert(es[0].0 == 0);
        }
        assert(es[es.len() - 1] == es.last());
    }
}

fn largest_id(es: &Vec<(u32, Option<u32>)>) -> (r: u32)
    ensures
        r == max_id(es@),
{
    let mut m: u32 = 0;
    let mut i: usize = 0;
    while i < es.len()
        invariant
            i <= es.len(),
            m == max_id(es@.take(i as int)),
        decreases es.len() - i,
    {
        proof {
            assert(es@.take(i + 1).drop_last() =~= es@.take(i as int));
            assert(es@.take(i + 1).last() == es@[i as int]);
        }
        if es[i].0 > m {
            m = es[i].0;
        }
        i = i + 1;
    }
    proof {
        assert(es@.take(i as int) =~= es@);
    }
    m
}

fn has_id(es: &Vec<(u32, Option<u32>)>, id: u32) -> (r: bool)
    ensures
        r == uses_id(es@, id),
{
    let mut i: usize = 0;
    while i < es.len()
        invariant
            i <= es.len(),
            forall|j: int| 0 <= j < i ==> (#[trigger] es@[j]).0 != id,
        decreases es.len() - i,
    {
        if es[i].0 == id {
            return true;
        }
        i = i + 1;
    }
    false
}

fn push_new(v: &mut Vec<u32>, id: u32)
    requires
        old(v)@.no_duplicates(),
    ensures
        final(v)@.no_duplicates(),
        forall|x: u32| final(v)@.contains(x) <==> old(v)@.contains(x) || x == id,
{
    let mut i: usize = 0;
    while i < v.len()
        invariant
            i <= v.len(),
            v@ == old(v)@,
            old(v)@.no_duplicates(),
            forall|j: int| 0 <= j < i ==> v@[j] != id,
        decreases v.len() - i,
    {
        if v[i] == id {
            return;
        }
        i = i + 1;
    }
    v.push(id);
    proof {
        assert forall|x: u32| v@.contains(x) <==> old(v)@.contains(x) || x == id by {
            if v@.contains(x) {
                let j = choose|j: int| 0 <= j < v@.len() && v@[j] == x;
                if j < old(v)@.len() {
                    assert(old(v)@[j] == x);
                }
            }
            if old(v)@.contains(x) {
                let j = choose|j: int| 0 <= j < old(v)@.len() && old(v)@[j] == x;
                assert(v@[j] == x);
            }
            if x == id {
                assert(v@[old(v)@.len() as int] == x);
            }
        }
    }
}

/// The report on the objects and prefabs `(id, parent)` of a configuration and on what its
/// validation found: the next ids are one past the largest ids, the free prefab ids are those
/// below the largest prefab id that no prefab uses, in increasing order, and the broken ids are
/// those validation found given twice or different from their key, each once.
pub fn config_report(
    objects: &Vec<(u32, Option<u32>)>,
    prefabs: &Vec<(u32, Option<u32>)>,
    v: &ValidationResult,
) -> (r: ConfigReport)
    ensures
        r.next_id == max_id(objects@) + 1,
        r.next_prefab_id == max_id(prefabs@) + 1,
        forall|i: int, j: int| 0 <= i < j < r.free_prefab_ids@.len() ==> r.free_prefab_ids@[i] < r.free_prefab_ids@[j],
        forall|x: u32| #[trigger] r.free_prefab_ids@.contains(x) <==> x < max_id(prefabs@) && !uses_id(prefabs@, x),
        r.broken_ids@.no_duplicates(),
        forall|x: u32| #[trigger] r.broken_ids@.contains(x) <==> is_broken(*v, x),
{
    let max_object = largest_id(objects);
    let max_prefab = largest_id(prefabs);
    let mut free: Vec<u32> = Vec::new();
    let mut id: u32 = 0;
    while id < max_prefab
        invariant
            max_prefab == max_id(prefabs@),
            id <= max_prefab,
            forall|i: int, j: int| 0 <= i < j < free@.len() ==> free@[i] < free@[j],
            forall|i: int| 0 <= i < free@.len() ==> free@[i] < id,
            forall|x: u32| #[trigger] free@.contains(x) <==> x < id && !uses_id(prefabs@, x),
        decreases max_prefab - id,
    {
        if !has_id(prefabs, id) {
            let ghost f0 = free@;
            free.push(id);
            proof {
                assert forall|x: u32| #[trigger] free@.contains(x) <==> x < id + 1 && !uses_id(prefabs@, x) by {
                    if free@.contains(x) {
                        let j = choose|j: int| 0 <= j < free@.len() && free@[j] == x;
                        if j < f0.len() {
                            assert(f0[j] == x);
                            assert(f0.contains(x));
                        }
                    }
                    if x < id && !uses_id(prefabs@, x) {
                        assert(f0.contains(x));
                        let j = choose|j: int| 0 <= j < f0.len() && f0[j] == x;
                        assert(free@[j] == x);
                    }
                    if x == id && !uses_id(prefabs@, x) {
                        assert(free@[f0.len() as int] == x);
                    }
                }
            }
        } else {
            proof {
                assert forall|x: u32| #[trigger] free@.contains(x) <==> x < id + 1 && !uses_id(prefabs@, x) by {
                    if free@.contains(x) {
                        let j = choose|j: int| 0 <= j < free@.len() && free@[j] == x;
                    }
                }
            }
        }
        id = id + 1;
    }
    let mut broken: Vec<u32> = Vec::new();
    let mut i: usize = 0;
    while i < v.mismatch_ids.len()
        invariant
            i <= v.mismatch_ids.len(),
            broken@.no_duplicates(),
            forall|x: u32| #[trigger] broken@.contains(x) <==> exists|k: int|
                0 <= k < i && ((#[trigger] v.mismatch_ids@[k]).0.0 == x || v.mismatch_ids@[k].1.0 == x),
        decreases v.mismatch_ids.len() - i,
    {
        let (a, b) = v.mismatch_ids[i];
        push_new(&mut broken, a.0);
        push_new(&mut broken, b.0);
        proof {
            assert forall|x: u32| #[trigger] broken@.contains(x) <==> exists|k: int|
                0 <= k < i + 1 && ((#[trigger] v.mismatch_ids@[k]).0.0 == x || v.mismatch_ids@[k].1.0 == x) by {
                if x == a.0 || x == b.0 {
                    assert(v.mismatch_ids@[i as int] == (a, b));
                }
            }
        }
        i = i + 1;
    }
    let mut i: usize = 0;
    while i < v.duplicate_ids.len()
        invariant
            i <= v.duplicate_ids.len(),
            broken@.no_duplicates(),
            forall|x: u32| #[trigger] broken@.contains(x) <==> (exists|k: int|
                0 <= k < v.mismatch_ids@.len() && ((#[trigger] v.mismatch_ids@[k]).0.0 == x || v.mismatch_ids@[k].1.0 == x))
                || exists|k: int| 0 <= k < i && (#[trigger] v.duplicate_ids@[k]).0 == x,
        decreases v.duplicate_ids.len() - i,
    {
        let d = v.duplicate_ids[i];
        push_new(&mut broken, d.0);
        proof {
            assert(v.duplicate_ids@[i as int] == d);
        }
        i = i + 1;
    }
    proof {
        lemma_max_id(objects@);
        lemma_max_id(prefabs@);
    }
    ConfigReport {
        next_id: max_object as u64 + 1,
        next_prefab_id: max_prefab as u64 + 1,
        free_prefab_ids: free,
        broken_ids: broken,
    }
}

} // verus!

verus! {

/// The ids of the entries `(id, parent)` whose parent is `p`.
pub open spec fn kid_set(es: Seq<(u32, Option<u32>)>, p: Option<u32>) -> Set<u32> {
    Set::new(|i: u32| exists|k: int| 0 <= k < es.len() && (#[trigger] es[k]) == (i, p))
}

/// The ids rise strictly.
pub open spec fn increasing(s: Seq<u32>) -> bool {
    forall|i: int, j: int| 0 <= i < j < s.len() ==> s[i] < s[j]
}

/// The ids of the entries whose parent is `p`, each once, in increasing order.
pub open spec fn sorted_kids(es: Seq<(u32, Option<u32>)>, p: Option<u32>) -> Seq<u32> {
    choose|q: Seq<u32>| increasing(q) && q.to_set() == kid_set(es, p)
}

/// The lines `(depth, id)` of the trees under each of `ids` in turn, `ids` at depth `d`: an id,
/// then the trees under its children (see `sorted_kids`) one deeper, down to `f` levels.
pub open spec fn tree_lines(es: Seq<(u32, Option<u32>)>, ids: Seq<u32>, d: nat, f: nat) -> Seq<(nat, u32)>
    decreases f, ids.len(),
{
    if ids.len() == 0 || f == 0 {
        Seq::empty()
    } else {
        seq![(d, ids[0])] + tree_lines(es, sorted_kids(es, Some(ids[0])), d + 1, (f - 1) as nat) + tree_lines(
            es,
            ids.drop_first(),
            d,
            f,
        )
    }
}

/// Two increasing sequences of the same ids are the same sequence.
proof fn lemma_increasing_unique(a: Seq<u32>, b: Seq<u32>)
    requires
        increasing(a),
        increasing(b),
        a.to_set() == b.to_set(),
    ensures
        a == b,
    decreases a.len(),
{
    if a.len() == 0 {
        if b.len() > 0 {
            assert(b.to_set().contains(b[0]));
        }
        assert(a =~= b);
    } else {
        assert(a.to_set().contains(a[0]));
        assert(b.to_set().contains(a[0]));
        let j = choose|j: int| 0 <= j < b.len() && b[j] == a[0];
        assert(b.to_set().contains(b[0]));
        assert(a.to_set().contains(b[0]));
        let i = choose|i: int| 0 <= i < a.len() && a[i] == b[0];
        assert(a[0] == b[0]) by {
            if j > 0 {
                assert(b[0] < b[j]);
                if i > 0 {
                    assert(a[0] < a[i]);
                }
            }
        }
        let a1 = a.drop_first();
        let b1 = b.drop_first();
        assert(a1.to_set() =~= b1.to_set()) by {
            assert forall|x: u32| a1.to_set().contains(x) implies b1.to_set().contains(x) by {
                let k = choose|k: int| 0 <= k < a1.len() && a1[k] == x;
                assert(a[k + 1] == x);
                assert(a.to_set().contains(x));
                let m = choose|m: int| 0 <= m < b.len() && b[m] == x;
                assert(a[0] < a[k + 1]);
                if m == 0 {
                    assert(false);
                }
                assert(b1[m - 1] == x);
            }
            assert forall|x: u32| b1.to_set().contains(x) implies a1.to_set().contains(x) by {
                let k = choose|k: int| 0 <= k < b1.len() && b1[k] == x;
                assert(b[k + 1] == x);
                assert(b.to_set().contains(x));
                let m = choose|m: int| 0 <= m < a.len() && a[m] == x;
                assert(b[0] < b[k + 1]);
                if m == 0 {
                    assert(false);
                }
                assert(a1[m - 1] == x);
            }
        }
        lemma_increasing_unique(a1, b1);
        assert(a =~= seq![a[0]] + a1);
        assert(b =~= seq![b[0]] + b1);
    }
}

/// The ids of the entries whose parent is `p`, each once, in increasing order.
fn kids_of(es: &Vec<(u32, Option<u32>)>, p: Option<u32>) -> (r: Vec<u32>)
    ensures
        r@ == sorted_kids(es@, p),
{
    let mut v: Vec<u32> = Vec::new();
    let mut k: usize = 0;
    while k < es.len()
        invariant
            k <= es.len(),
            increasing(v@),
            v@.to_set() == kid_set(es@.take(k as int), p),
        decreases es.len() - k,
    {
        let (id, parent) = es[k];
        let same = match (parent, p) {
            (Some(a), Some(b)) => a == b,
            (None, None) => true,
            _ => false,
        };
        let ghost v0 = v@;
        proof {
            assert forall|i: u32| #[trigger] kid_set(es@.take(k + 1), p).contains(i) == (kid_set(es@.take(k as int), p).contains(i)
                || (same && i == id)) by {
                if kid_set(es@.take(k + 1), p).contains(i) {
                    let m = choose|m: int| 0 <= m < k + 1 && (#[trigger] es@.take(k + 1)[m]) == (i, p);
                    if m < k {
                        assert(es@.take(k as int)[m] == es@.take(k + 1)[m]);
                    }
                }
                if kid_set(es@.take(k as int), p).contains(i) {
                    let m = choose|m: int| 0 <= m < k && (#[trigger] es@.take(k as int)[m]) == (i, p);
                    assert(es@.take(k + 1)[m] == es@.take(k as int)[m]);
                }
                if same && i == id {
                    assert(es@.take(k + 1)[k as int] == (i, p));
                }
            }
        }
        if same {
            let mut j: usize = 0;
            while j < v.len() && v[j] < id
                invariant
                    j <= v.len(),
                    v@ == v0,
                    forall|t: int| 0 <= t < j ==> v@[t] < id,
                decreases v.len() - j,
            {
                j = j + 1;
            }
            if j == v.len() || v[j] != id {
                v.insert(j, id);
                proof {
                    assert forall|a: int, b: int| 0 <= a < b < v@.len() implies v@[a] < v@[b] by {
                        if a < j as int && b < j as int {
                            assert(v@[a] == v0[a] && v@[b] == v0[b]);
                        } else if a < j as int && b == j as int {
                            assert(v@[a] == v0[a]);
                        } else if a < j as int {
                            assert(v@[a] == v0[a] && v@[b] == v0[b - 1]);
                        } else if a == j as int {
                            assert(v@[b] == v0[b - 1]);
                            assert(v0[j as int] > id);
                            if b - 1 > j {
                                assert(v0[j as int] < v0[b - 1]);
                            }
                        } else {
                            assert(v@[a] == v0[a - 1] && v@[b] == v0[b - 1]);
                        }
                    }
                    assert(v@.to_set() =~= v0.to_set().insert(id)) by {
                        assert forall|x: u32| v@.to_set().contains(x) implies v0.to_set().insert(id).contains(x) by {
                            let t = choose|t: int| 0 <= t < v@.len() && v@[t] == x;
                            if t < j {
                                assert(v0[t] == x);
                            } else if t > j {
                                assert(v0[t - 1] == x);
                            }
                        }
                        assert forall|x: u32| v0.to_set().insert(id).contains(x) implies v@.to_set().contains(x) by {
                            if x == id {
                                assert(v@[j as int] == x);
                            } else {
                                let t = choose|t: int| 0 <= t < v0.len() && v0[t] == x;
                                if t < j {
                                    assert(v@[t] == x);
                                } else {
                                    assert(v@[t + 1] == x);
                                }
                            }
                        }
                    }
                    assert(v@.to_set() =~= kid_set(es@.take(k + 1), p));
                }
            } else {
                proof {
                    assert(v0.to_set().contains(id));
                    assert(v@.to_set() =~= kid_set(es@.take(k + 1), p));
                }
            }
        } else {
            proof {
                assert(v@.to_set() =~= kid_set(es@.take(k + 1), p));
            }
        }
        k = k + 1;
    }
    proof {
        assert(es@.take(es@.len() as int) =~= es@);
        lemma_increasing_unique(v@, sorted_kids(es@, p));
    }
    v
}

/// Append the lines of the trees under each of `ids` at depth `d`, down to `f` levels (see
/// `tree_lines`).
fn push_tree_lines(es: &Vec<(u32, Option<u32>)>, ids: &Vec<u32>, d: usize, f: usize, out: &mut Vec<(usize, u32)>)
    requires
        d + f <= usize::MAX,
    ensures
        final(out)@.map_values(|l: (usize, u32)| (l.0 as nat, l.1)) == old(out)@.map_values(
            |l: (usize, u32)| (l.0 as nat, l.1),
        ) + tree_lines(es@, ids@, d as nat, f as nat),
    decreases f, 0usize,
{
    if f == 0 {
        proof {
            assert(tree_lines(es@, ids@, d as nat, f as nat) =~= Seq::empty());
            assert(out@.map_values(|l: (usize, u32)| (l.0 as nat, l.1)) + Seq::<(nat, u32)>::empty() =~= out@.map_values(
                |l: (usize, u32)| (l.0 as nat, l.1),
            ));
        }
        return;
    }
    let ghost o0 = out@.map_values(|l: (usize, u32)| (l.0 as nat, l.1));
    let mut i: usize = 0;
    proof {
        assert(ids@.skip(0) =~= ids@);
        assert(o0 + Seq::<(nat, u32)>::empty() =~= o0);
    }
    while i < ids.len()
        invariant
            0 < f,
            d + f <= usize::MAX,
            i <= ids.len(),
            o0 + tree_lines(es@, ids@, d as nat, f as nat) == out@.map_values(|l: (usize, u32)| (l.0 as nat, l.1))
                + tree_lines(es@, ids@.skip(i as int), d as nat, f as nat),
        decreases ids.len() - i,
    {
        let id = ids[i];
        let ghost before = out@.map_values(|l: (usize, u32)| (l.0 as nat, l.1));
        let ghost rest = ids@.skip(i as int);
        proof {
            assert(rest[0] == id);
            assert(rest.drop_first() =~= ids@.skip(i + 1));
        }
        out.push((d, id));
        let kids = kids_of(es, Some(id));
        proof {
            assert(out@.map_values(|l: (usize, u32)| (l.0 as nat, l.1)) =~= before.push((d as nat, id)));
        }
        push_tree_lines(es, &kids, d + 1, f - 1, out);
        proof {
            let sub = tree_lines(es@, sorted_kids(es@, Some(id)), (d + 1) as nat, (f - 1) as nat);
            assert(tree_lines(es@, rest, d as nat, f as nat) == seq![(d as nat, id)] + sub + tree_lines(
                es@,
                ids@.skip(i + 1),
                d as nat,
                f as nat,
            ));
            assert(before.push((d as nat, id)) + sub + tree_lines(es@, ids@.skip(i + 1), d as nat, f as nat) =~= before
                + (seq![(d as nat, id)] + sub + tree_lines(es@, ids@.skip(i + 1), d as nat, f as nat)));
        }
        i = i + 1;
    }
    proof {
        assert(ids@.skip(i as int) =~= Seq::<u32>::empty());
        assert(tree_lines(es@, ids@.skip(i as int), d as nat, f as nat) =~= Seq::empty());
        assert(out@.map_values(|l: (usize, u32)| (l.0 as nat, l.1)) + Seq::<(nat, u32)>::empty() =~= out@.map_values(
            |l: (usize, u32)| (l.0 as nat, l.1),
        ));
    }
}

/// The lines `(depth, id)` in which the entries `(id, parent)` are listed as trees: the
/// entries without parent, in increasing order, each followed by the trees under its children,
/// in increasing order, one level deeper; down to as many levels as there are entries, more
/// than a tree of distinct ids has.
pub fn tree_listing(es: &Vec<(u32, Option<u32>)>) -> (r: Vec<(usize, u32)>)
    ensures
        r@.map_values(|l: (usize, u32)| (l.0 as nat, l.1)) == tree_lines(es@, sorted_kids(es@, None), 0, es@.len()),
{
    let roots = kids_of(es, None);
    let mut out: Vec<(usize, u32)> = Vec::new();
    proof {
        assert(out@.map_values(|l: (usize, u32)| (l.0 as nat, l.1)) =~= Seq::<(nat, u32)>::empty());
    }
    push_tree_lines(es, &roots, 0, es.len(), &mut out);
    proof {
        assert(Seq::<(nat, u32)>::empty() + tree_lines(es@, roots@, 0, es@.len()) =~= tree_lines(es@, roots@, 0, es@.len()));
    }
    out
}

} // verus!
