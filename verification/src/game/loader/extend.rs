use vstd::prelude::*;

verus! {

/// Why two sets of game data can not be joined.
#[derive(Debug, Clone, Copy, PartialEq, Eq, Structural)]
pub enum ExtendConflict {
    VersionMismatch,
    CfgTwice,
    Prefab(u32),
    Object(u32),
}

/// The first of `b`, in order, that `a` holds too.
pub open spec fn first_common(a: Seq<u32>, b: Seq<u32>) -> Option<u32>
    decreases b.len(),
{
    if b.len() == 0 {
        None
    } else if a.contains(b[0]) {
        Some(b[0])
    } else {
        first_common(a, b.drop_first())
    }
}

/// What stops joining data `b` into data `a`, checked in this order: different versions, a
/// configuration in both, a prefab id of `b` that `a` has (the first in `b`'s order), an object
/// id of `b` that `a` has.
pub open spec fn extend_conflict_of(
    version_a: u32,
    version_b: u32,
    cfg_a: bool,
    cfg_b: bool,
    prefabs_a: Seq<u32>,
    prefabs_b: Seq<u32>,
    objects_a: Seq<u32>,
    objects_b: Seq<u32>,
) -> Option<ExtendConflict> {
    if version_a != version_b {
        Some(ExtendConflict::VersionMismatch)
    } else if cfg_a && cfg_b {
        Some(ExtendConflict::CfgTwice)
    } else if first_common(prefabs_a, prefabs_b) is Some {
        Some(ExtendConflict::Prefab(first_common(prefabs_a, prefabs_b)->0))
    } else if first_common(objects_a, objects_b) is Some {
        Some(ExtendConflict::Object(first_common(objects_a, objects_b)->0))
    } else {
        None
    }
}

fn contains(v: &Vec<u32>, x: u32) -> (r: bool)
    ensures
        r == v@.contains(x),
{
    let mut i: usize = 0;
    while i < v.len()
        invariant
            i <= v.len(),
            forall|j: int| 0 <= j < i ==> v@[j] != x,
        decreases v.len() - i,
    {
        if v[i] == x {
            return true;
        }
        i = i + 1;
    }
    false
}

fn first_common_of(a: &Vec<u32>, b: &Vec<u32>) -> (r: Option<u32>)
    ensures
        r == first_common(a@, b@),
{
    let mut i: usize = 0;
    proof {
        assert(b@.skip(0) =~= b@);
    }
    while i < b.len()
        invariant
            i <= b.len(),
            first_common(a@, b@) == first_common(a@, b@.skip(i as int)),
        decreases b.len() - i,
    {
        proof {
            assert(b@.skip(i as int).drop_first() =~= b@.skip(i + 1));
            assert(b@.skip(i as int)[0] == b@[i as int]);
        }
        if contains(a, b[i]) {
            return Some(b[i]);
        }
        i = i + 1;
    }
    proof {
        assert(b@.skip(i as int).len() == 0);
    }
    None
}

/// What stops joining one set of game data into another (see `extend_conflict_of`), given by
/// their versions, whether each has a configuration, and their prefab and object ids.
pub fn extend_conflict(
    version_a: u32,
    version_b: u32,
    cfg_a: bool,
    cfg_b: bool,
    prefabs_a: &Vec<u32>,
    prefabs_b: &Vec<u32>,
    objects_a: &Vec<u32>,
    objects_b: &Vec<u32>,
) -> (r: Option<ExtendConflict>)
    ensures
        r == extend_conflict_of(version_a, version_b, cfg_a, cfg_b, prefabs_a@, prefabs_b@, objects_a@, objects_b@),
{
    if version_a != version_b {
        return Some(ExtendConflict::VersionMismatch);
    }
    if cfg_a && cfg_b {
        return Some(ExtendConflict::CfgTwice);
    }
    match first_common_of(prefabs_a, prefabs_b) {
        Some(id) => {
            return Some(ExtendConflict::Prefab(id));
        },
        None => {},
    }
    match first_common_of(objects_a, objects_b) {
        Some(id) => Some(ExtendConflict::Object(id)),
        None => None,
    }
}

} // verus!
