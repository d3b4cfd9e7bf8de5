use crate::errors::{Error, Result};
use crate::game::actions_items::{private, same_but_outputs, to_others, told};
use crate::game::comm;
use crate::game::comm::{look_description_text, RoomMap, RoomMapCell};
use crate::game::container::Container;
use crate::game::domain::Dir;
use crate::game::labels::label_text;
use crate::game::location::{ancestors, children, obj_values};
use crate::game::mob::MobId;
use crate::game::room::{exit_of, Room, RoomId, RoomRepository};
use crate::ids::ObjId;
use std::collections::HashMap;
use vstd::prelude::*;
use vstd::std_specs::iter::IteratorSpec;

verus! {

broadcast use {vstd::std_specs::hash::group_hash_axioms, vstd::set::group_set_axioms};

/// Step of one room in a direction: north is up (y - 1), east is right (x + 1).
pub open spec fn step(dir: Dir, x: int, y: int) -> (int, int) {
    match dir {
        Dir::N => (x, y - 1),
        Dir::S => (x, y + 1),
        Dir::E => (x + 1, y),
        Dir::W => (x - 1, y),
    }
}

/// Law: a step in a direction moves to a neighbouring square, one unit along one axis, each
/// direction to a different square; a step north and a step south undo each other.
pub proof fn step_moves_one_square(d: Dir, e: Dir, x: int, y: int)
    ensures
        ({
            let p = step(d, x, y);
            (p.0 == x && (p.1 == y - 1 || p.1 == y + 1)) || (p.1 == y && (p.0 == x - 1 || p.0 == x + 1))
        }),
        d != e ==> step(d, x, y) != step(e, x, y),
        (d == Dir::N || d == Dir::S) ==> ({
            let p = step(d, x, y);
            step(d.spec_inv(), p.0, p.1) == (x, y)
        }),
        (d == Dir::E || d == Dir::W) ==> d.spec_inv() == d,
{
}

/// `t` is the target of an exit of room `v`.
pub open spec fn has_exit_to(rooms: Map<u32, Seq<(Dir, u32)>>, v: u32, t: u32) -> bool {
    rooms.contains_key(v) && exists|i: int| 0 <= i < rooms[v].len() && (#[trigger] rooms[v][i]).1 == t
}

/// The pairs of rooms joined by an exit of a visited room, both ways.
pub open spec fn portal_pairs(rooms: Map<u32, Seq<(Dir, u32)>>, visited: Set<u32>) -> Set<(u32, u32)> {
    Set::new(|p: (u32, u32)| (visited.contains(p.0) && has_exit_to(rooms, p.0, p.1)) || (visited.contains(p.1)
        && has_exit_to(rooms, p.1, p.0)))
}

pub open spec fn in_range(c: (i32, i32), max: int) -> bool {
    -max <= c.0 <= max && -max <= c.1 <= max
}

/// Every exit leads to a room that exists.
pub open spec fn exits_closed(rooms: Map<u32, Seq<(Dir, u32)>>) -> bool {
    forall|v: u32, t: u32| #[trigger] has_exit_to(rooms, v, t) ==> rooms.contains_key(t)
}

/// The walk from `start` can fail: the start is no room, or some room has an exit to a room
/// that does not exist.
pub open spec fn walk_may_fail(rooms: Map<u32, Seq<(Dir, u32)>>, start: u32) -> bool {
    !rooms.contains_key(start) || exists|v: u32, t: u32| #[trigger] has_exit_to(rooms, v, t) && !rooms.contains_key(t)
}

pub open spec fn in_square(c: (int, int), max: int) -> bool {
    -max <= c.0 <= max && -max <= c.1 <= max
}

/// The coordinates `(a, b)` are the point `p`.
pub open spec fn at(a: i32, b: i32, p: (int, int)) -> bool {
    a as int == p.0 && b as int == p.1
}

/// The queued entry `e` is the target of one of the exits `ex` of a room at `(x, y)`, one step
/// away in the exit's direction.
pub open spec fn queued_from(ex: Seq<(Dir, u32)>, x: int, y: int, e: (u32, i32, i32)) -> bool {
    exists|k: int| 0 <= k < ex.len() && (#[trigger] ex[k]).1 == e.0 && at(e.1, e.2, step(ex[k].0, x, y))
}

/// `pos` lays the rooms on a grid: each exit of a placed room leads to a placed room one step
/// away in the exit's direction.
pub open spec fn grid(rooms: Map<u32, Seq<(Dir, u32)>>, pos: Map<u32, (int, int)>) -> bool {
    forall|v: u32, i: int|
        pos.contains_key(v) && rooms.contains_key(v) && 0 <= i < rooms[v].len() ==> pos.contains_key(
            (#[trigger] rooms[v][i]).1,
        ) && pos[rooms[v][i].1] == step(rooms[v][i].0, pos[v].0, pos[v].1)
}

/// Where `k` lies on the grid `pos`, seen from `start`.
pub open spec fn rel(pos: Map<u32, (int, int)>, start: u32, k: u32) -> (int, int) {
    (pos[k].0 - pos[start].0, pos[k].1 - pos[start].1)
}

/// On every grid that places `start`, each visited room lies where the grid puts it, seen from
/// `start`, and each exit of a visited room that stays in the square of side `max` leads to a
/// visited room: every room reachable from `start` without leaving the square is visited.
pub open spec fn placed_on_grid(
    rooms: Map<u32, Seq<(Dir, u32)>>,
    start: u32,
    max: int,
    visited: Map<u32, (i32, i32)>,
) -> bool {
    forall|pos: Map<u32, (int, int)>|
        #[trigger] grid(rooms, pos) && pos.contains_key(start) ==> {
            &&& forall|k: u32| #[trigger] visited.contains_key(k) ==> pos.contains_key(k) && at(visited[k].0, visited[k].1, rel(pos, start, k))
            &&& forall|v: u32, i: int|
                visited.contains_key(v) && 0 <= i < rooms[v].len() && in_square(
                    rel(pos, start, (#[trigger] rooms[v][i]).1),
                    max,
                ) ==> visited.contains_key(rooms[v][i].1)
        }
}

/// `path` goes from `start` through exits, never leaving the square of side `max` around
/// `start` on the grid `pos`.
pub open spec fn square_path(
    rooms: Map<u32, Seq<(Dir, u32)>>,
    pos: Map<u32, (int, int)>,
    start: u32,
    max: int,
    path: Seq<u32>,
) -> bool {
    &&& path.len() > 0
    &&& path[0] == start
    &&& forall|i: int| 0 <= i < path.len() - 1 ==> #[trigger] has_exit_to(rooms, path[i], path[i + 1])
    &&& forall|i: int| 0 <= i < path.len() ==> in_square(rel(pos, start, #[trigger] path[i]), max)
}

/// Law: on a grid, a walk reaches every room that can be reached from its start without
/// leaving the square.
pub proof fn walk_reaches_the_square(
    rooms: Map<u32, Seq<(Dir, u32)>>,
    start: u32,
    max: int,
    visited: Map<u32, (i32, i32)>,
    pos: Map<u32, (int, int)>,
    path: Seq<u32>,
)
    requires
        grid(rooms, pos),
        pos.contains_key(start),
        visited.contains_key(start),
        placed_on_grid(rooms, start, max, visited),
        square_path(rooms, pos, start, max, path),
    ensures
        forall|i: int| 0 <= i < path.len() ==> visited.contains_key(#[trigger] path[i]),
    decreases path.len(),
{
    if path.len() > 1 {
        let prefix = path.drop_last();
        assert(square_path(rooms, pos, start, max, prefix)) by {
            assert forall|i: int| 0 <= i < prefix.len() - 1 implies #[trigger] has_exit_to(rooms, prefix[i], prefix[i + 1]) by {
                assert(prefix[i] == path[i] && prefix[i + 1] == path[i + 1]);
            }
            assert forall|i: int| 0 <= i < prefix.len() implies in_square(rel(pos, start, #[trigger] prefix[i]), max) by {
                assert(prefix[i] == path[i]);
            }
        }
        walk_reaches_the_square(rooms, start, max, visited, pos, prefix);
        let k = path.len() - 2;
        assert(prefix[k] == path[k]);
        assert(visited.contains_key(path[k]));
        assert(has_exit_to(rooms, path[k], path[k + 1]));
        let j = choose|j: int| 0 <= j < rooms[path[k]].len() && (#[trigger] rooms[path[k]][j]).1 == path[k + 1];
        assert(in_square(rel(pos, start, path[k + 1]), max));
        assert(visited.contains_key(rooms[path[k]][j].1));
        assert forall|i: int| 0 <= i < path.len() implies visited.contains_key(#[trigger] path[i]) by {
            if i < path.len() - 1 {
                assert(prefix[i] == path[i]);
            }
        }
    }
}

/// The entries that visiting a room at `(x, y)` with the exits `ex` queues, in order: the
/// target of each exit one step away in its direction, where that stays in the square of side
/// `max`.
pub open spec fn queued_exits(ex: Seq<(Dir, u32)>, x: int, y: int, max: int) -> Seq<(u32, i32, i32)>
    decreases ex.len(),
{
    if ex.len() == 0 {
        Seq::empty()
    } else {
        let rest = queued_exits(ex.drop_last(), x, y, max);
        let c = step(ex.last().0, x, y);
        if in_square(c, max) {
            rest.push((ex.last().1, c.0 as i32, c.1 as i32))
        } else {
            rest
        }
    }
}

/// The portals that visiting room `id` with the exits `ex` records, in order: each exit both
/// ways.
pub open spec fn exit_pairs(ex: Seq<(Dir, u32)>, id: u32) -> Seq<(u32, u32)>
    decreases ex.len(),
{
    if ex.len() == 0 {
        Seq::empty()
    } else {
        exit_pairs(ex.drop_last(), id).push((id, ex.last().1)).push((ex.last().1, id))
    }
}

/// The state of the walk of the rooms: the coordinates given so far, the stack of rooms to
/// visit with their coordinates, and the portals recorded so far.
pub open spec fn walk_start(start: u32) -> (Map<u32, (i32, i32)>, Seq<(u32, i32, i32)>, Seq<(u32, u32)>) {
    (Map::empty(), seq![(start, 0i32, 0i32)], Seq::empty())
}

/// One step of the walk, from a state with a non-empty stack: the last entry is taken; a room
/// already given coordinates takes these ones where their sum x + y is smaller; a room not met
/// yet is given them, and its exits are queued and recorded (see `queued_exits`,
/// `exit_pairs`); `None` where that is no room.
pub open spec fn walk_next(
    rooms: Map<u32, Seq<(Dir, u32)>>,
    max: int,
    s: (Map<u32, (i32, i32)>, Seq<(u32, i32, i32)>, Seq<(u32, u32)>),
) -> Option<(Map<u32, (i32, i32)>, Seq<(u32, i32, i32)>, Seq<(u32, u32)>)> {
    let e = s.1.last();
    let q = s.1.drop_last();
    if s.0.contains_key(e.0) {
        let c = s.0[e.0];
        Some((if c.0 + c.1 > e.1 + e.2 { s.0.insert(e.0, (e.1, e.2)) } else { s.0 }, q, s.2))
    } else if !rooms.contains_key(e.0) {
        None
    } else {
        Some((s.0.insert(e.0, (e.1, e.2)), q + queued_exits(rooms[e.0], e.1 as int, e.2 as int, max), s.2 + exit_pairs(rooms[e.0], e.0)))
    }
}

/// Law: a room met again keeps its coordinates unless the new ones have a strictly smaller sum
/// x + y, and then takes them; nothing else changes but the stack, which loses its last entry.
pub proof fn revisit_keeps_the_least_sum(
    rooms: Map<u32, Seq<(Dir, u32)>>,
    max: int,
    s: (Map<u32, (i32, i32)>, Seq<(u32, i32, i32)>, Seq<(u32, u32)>),
)
    requires
        s.1.len() > 0,
        s.0.contains_key(s.1.last().0),
    ensures
        walk_next(rooms, max, s) matches Some(t) && t.1 == s.1.drop_last() && t.2 == s.2
            && t.0.dom() == s.0.dom() && (forall|k: u32| k != s.1.last().0 && #[trigger] s.0.contains_key(k) ==> t.0[k] == s.0[k])
            && ({
            let e = s.1.last();
            let c = s.0[e.0];
            &&& c.0 + c.1 <= e.1 + e.2 ==> t.0[e.0] == c
            &&& c.0 + c.1 > e.1 + e.2 ==> t.0[e.0] == (e.1, e.2)
            &&& t.0[e.0].0 + t.0[e.0].1 <= c.0 + c.1 && t.0[e.0].0 + t.0[e.0].1 <= e.1 + e.2
        }),
{
    let e = s.1.last();
    if s.0[e.0].0 + s.0[e.0].1 > e.1 + e.2 {
        assert(s.0.insert(e.0, (e.1, e.2)).dom() =~= s.0.dom());
    }
}

/// `tr` is a run of the walk from `start`: it begins with the start and each state is the step
/// from the one before.
pub open spec fn walk_trace(
    rooms: Map<u32, Seq<(Dir, u32)>>,
    max: int,
    start: u32,
    tr: Seq<(Map<u32, (i32, i32)>, Seq<(u32, i32, i32)>, Seq<(u32, u32)>)>,
) -> bool {
    &&& tr.len() > 0
    &&& tr[0] == walk_start(start)
    &&& forall|i: int| 0 <= i < tr.len() - 1 ==> (#[trigger] tr[i]).1.len() > 0 && walk_next(rooms, max, tr[i]) == Some(tr[i + 1])
}

/// How the walk from `start` ends: with the coordinates and portals of `res`, its stack empty,
/// or, where `res` is `None`, on a step to something that is no room.
pub open spec fn walk_result(
    rooms: Map<u32, Seq<(Dir, u32)>>,
    max: int,
    start: u32,
    res: Option<(Map<u32, (i32, i32)>, Seq<(u32, u32)>)>,
) -> bool {
    exists|tr: Seq<(Map<u32, (i32, i32)>, Seq<(u32, i32, i32)>, Seq<(u32, u32)>)>|
        #[trigger] walk_trace(rooms, max, start, tr) && match res {
            Some(vp) => tr.last().1.len() == 0 && tr.last().0 == vp.0 && tr.last().2 == vp.1,
            None => tr.last().1.len() > 0 && walk_next(rooms, max, tr.last()) is None,
        }
}

proof fn lemma_traces_agree(
    rooms: Map<u32, Seq<(Dir, u32)>>,
    max: int,
    start: u32,
    a: Seq<(Map<u32, (i32, i32)>, Seq<(u32, i32, i32)>, Seq<(u32, u32)>)>,
    b: Seq<(Map<u32, (i32, i32)>, Seq<(u32, i32, i32)>, Seq<(u32, u32)>)>,
    k: int,
)
    requires
        walk_trace(rooms, max, start, a),
        walk_trace(rooms, max, start, b),
        0 <= k < a.len(),
        k < b.len(),
    ensures
        a[k] == b[k],
    decreases k,
{
    if k > 0 {
        lemma_traces_agree(rooms, max, start, a, b, k - 1);
        assert(walk_next(rooms, max, a[k - 1]) == Some(a[k]));
        assert(walk_next(rooms, max, b[k - 1]) == Some(b[k]));
    }
}

proof fn lemma_trace_push(
    rooms: Map<u32, Seq<(Dir, u32)>>,
    max: int,
    start: u32,
    tr: Seq<(Map<u32, (i32, i32)>, Seq<(u32, i32, i32)>, Seq<(u32, u32)>)>,
    s: (Map<u32, (i32, i32)>, Seq<(u32, i32, i32)>, Seq<(u32, u32)>),
)
    requires
        walk_trace(rooms, max, start, tr),
        tr.last().1.len() > 0,
        walk_next(rooms, max, tr.last()) == Some(s),
    ensures
        walk_trace(rooms, max, start, tr.push(s)),
{
    let t = tr.push(s);
    assert forall|i: int| 0 <= i < t.len() - 1 implies (#[trigger] t[i]).1.len() > 0 && walk_next(rooms, max, t[i]) == Some(t[i + 1]) by {
        if i < tr.len() - 1 {
            assert(t[i] == tr[i] && t[i + 1] == tr[i + 1]);
        } else {
            assert(t[i] == tr.last());
        }
    }
}

/// Law: the walk ends in one way only.
pub proof fn walk_result_is_unique(
    rooms: Map<u32, Seq<(Dir, u32)>>,
    max: int,
    start: u32,
    x: Option<(Map<u32, (i32, i32)>, Seq<(u32, u32)>)>,
    y: Option<(Map<u32, (i32, i32)>, Seq<(u32, u32)>)>,
)
    requires
        walk_result(rooms, max, start, x),
        walk_result(rooms, max, start, y),
    ensures
        x == y,
{
    let a = choose|tr: Seq<(Map<u32, (i32, i32)>, Seq<(u32, i32, i32)>, Seq<(u32, u32)>)>|
        #[trigger] walk_trace(rooms, max, start, tr) && match x {
            Some(vp) => tr.last().1.len() == 0 && tr.last().0 == vp.0 && tr.last().2 == vp.1,
            None => tr.last().1.len() > 0 && walk_next(rooms, max, tr.last()) is None,
        };
    let b = choose|tr: Seq<(Map<u32, (i32, i32)>, Seq<(u32, i32, i32)>, Seq<(u32, u32)>)>|
        #[trigger] walk_trace(rooms, max, start, tr) && match y {
            Some(vp) => tr.last().1.len() == 0 && tr.last().0 == vp.0 && tr.last().2 == vp.1,
            None => tr.last().1.len() > 0 && walk_next(rooms, max, tr.last()) is None,
        };
    if a.len() < b.len() {
        lemma_traces_agree(rooms, max, start, a, b, a.len() - 1);
        assert(b[a.len() - 1] == a.last());
        assert(walk_next(rooms, max, b[a.len() - 1]) == Some(b[a.len() as int]));
    } else if b.len() < a.len() {
        lemma_traces_agree(rooms, max, start, a, b, b.len() - 1);
        assert(a[b.len() - 1] == b.last());
        assert(walk_next(rooms, max, a[b.len() - 1]) == Some(a[b.len() as int]));
    } else {
        lemma_traces_agree(rooms, max, start, a, b, a.len() - 1);
    }
}

/// What a walk of the rooms from `start` guarantees of its coordinates and portals.
pub open spec fn walk_ok(
    rooms: Map<u32, Seq<(Dir, u32)>>,
    start: u32,
    max: int,
    visited: Map<u32, (i32, i32)>,
    portals: Set<(u32, u32)>,
) -> bool {
    &&& visited.contains_key(start)
    &&& visited.dom().subset_of(rooms.dom())
    &&& forall|k: u32| #[trigger] visited.contains_key(k) ==> in_range(visited[k], max)
    &&& forall|k: u32| #[trigger] visited.contains_key(k) && k != start ==> exists|v: u32|
        visited.contains_key(v) && #[trigger] has_exit_to(rooms, v, k)
    &&& portals == portal_pairs(rooms, visited.dom())
    &&& placed_on_grid(rooms, start, max, visited)
}

/// Both ways pairs of room `id` and the targets of the first `n` exits of `ex`.
pub open spec fn pairs_of(ex: Seq<(Dir, u32)>, id: u32, n: nat) -> Set<(u32, u32)>
    decreases n,
{
    if n == 0 {
        Set::empty()
    } else {
        pairs_of(ex, id, (n - 1) as nat).insert((id, ex[n - 1].1)).insert((ex[n - 1].1, id))
    }
}

proof fn lemma_pairs_of(ex: Seq<(Dir, u32)>, id: u32, n: nat, p: (u32, u32))
    requires
        n <= ex.len(),
    ensures
        pairs_of(ex, id, n).contains(p) <==> exists|j: int|
            0 <= j < n && (p == (id, #[trigger] ex[j].1) || p == (ex[j].1, id)),
    decreases n,
{
    if n > 0 {
        lemma_pairs_of(ex, id, (n - 1) as nat, p);
        if pairs_of(ex, id, n).contains(p) {
            if !pairs_of(ex, id, (n - 1) as nat).contains(p) {
                let j = n - 1;
                assert(p == (id, ex[j].1) || p == (ex[j].1, id));
            }
        }
    }
}

fn contains_pair(v: &Vec<(u32, u32)>, p: (u32, u32)) -> (r: bool)
    ensures
        r == v@.contains(p),
{
    let mut i: usize = 0;
    while i < v.len()
        invariant
            i <= v.len(),
            forall|j: int| 0 <= j < i ==> v@[j] != p,
        decreases v.len() - i,
    {
        if v[i].0 == p.0 && v[i].1 == p.1 {
            return true;
        }
        i = i + 1;
    }
    false
}

/// Visit room `id` at `(x, y)`: record its portals and queue its exits within reach.
fn expand(
    rooms: &RoomRepository,
    id: u32,
    x: i32,
    y: i32,
    max_distance: i32,
    portals: &mut Vec<(u32, u32)>,
    queue: &mut Vec<(u32, i32, i32)>,
) -> (r: Result<()>)
    requires
        0 <= max_distance < 0x4000_0000,
        in_range((x, y), max_distance as int),
    ensures
        r is Ok <==> rooms@.contains_key(id),
        r is Err ==> r matches Err(Error::NotFoundFailure),
        r is Ok ==> final(portals)@.to_set() == old(portals)@.to_set() + portal_pairs(rooms@, set![id]),
        r is Ok ==> final(queue)@.len() >= old(queue)@.len(),
        r is Ok ==> final(queue)@.take(old(queue)@.len() as int) == old(queue)@,
        r is Ok ==> forall|j: int| old(queue)@.len() <= j < final(queue)@.len() ==> in_range(
            ((#[trigger] final(queue)@[j]).1, final(queue)@[j].2),
            max_distance as int,
        ) && has_exit_to(rooms@, id, final(queue)@[j].0),
        r is Ok ==> forall|j: int| old(queue)@.len() <= j < final(queue)@.len() ==> queued_from(
            rooms@[id],
            x as int,
            y as int,
            #[trigger] final(queue)@[j],
        ),
        r is Ok ==> forall|i: int| 0 <= i < rooms@[id].len() && in_square(step((#[trigger] rooms@[id][i]).0, x as int, y as int), max_distance as int)
            ==> exists|j: int| old(queue)@.len() <= j < final(queue)@.len() && (#[trigger] final(queue)@[j]).0 == rooms@[id][i].1,
        r is Ok ==> final(queue)@ == old(queue)@ + queued_exits(rooms@[id], x as int, y as int, max_distance as int),
        r is Ok ==> final(portals)@ == old(portals)@ + exit_pairs(rooms@[id], id),
{
    let exits = rooms.get_portals(ObjId(id))?;
    let ghost ex = rooms@[id];
    let ghost p0 = portals@;
    let ghost q0 = queue@;
    let mut i: usize = 0;
    while i < exits.len()
        invariant
            ex == rooms@[id],
            rooms@.contains_key(id),
            exits@.map_values(|e: (Dir, ObjId)| (e.0, e.1.0)) == ex,
            0 <= max_distance < 0x4000_0000,
            in_range((x, y), max_distance as int),
            i <= exits.len(),
            portals@.to_set() == p0.to_set() + pairs_of(ex, id, i as nat),
            queue@.len() >= q0.len(),
            queue@.take(q0.len() as int) == q0,
            forall|j: int| q0.len() <= j < queue@.len() ==> in_range(((#[trigger] queue@[j]).1, queue@[j].2), max_distance as int)
                && has_exit_to(rooms@, id, queue@[j].0),
            forall|j: int| q0.len() <= j < queue@.len() ==> queued_from(ex, x as int, y as int, #[trigger] queue@[j]),
            forall|k: int| 0 <= k < i && in_square(step((#[trigger] rooms@[id][k]).0, x as int, y as int), max_distance as int)
                ==> exists|j: int| q0.len() <= j < queue@.len() && (#[trigger] queue@[j]).0 == rooms@[id][k].1,
            queue@ == q0 + queued_exits(ex.take(i as int), x as int, y as int, max_distance as int),
            portals@ == p0 + exit_pairs(ex.take(i as int), id),
        decreases exits.len() - i,
    {
        let (dir, target) = exits[i];
        let t = target.0;
        proof {
            assert(ex[i as int] == (dir, t));
        }
        let (tx, ty) = match dir {
            Dir::N => (x, y - 1),
            Dir::S => (x, y + 1),
            Dir::E => (x + 1, y),
            Dir::W => (x - 1, y),
        };
        let ghost pp = portals@;
        let ghost qq = queue@;
        proof {
            assert(ex.take(i + 1).drop_last() =~= ex.take(i as int));
            assert(ex.take(i + 1).last() == (dir, t));
        }
        portals.push((id, t));
        portals.push((t, id));
        proof {
            assert(portals@ =~= p0 + exit_pairs(ex.take(i + 1), id));
        }
        proof {
            assert(portals@ == pp.push((id, t)).push((t, id)));
            assert forall|p: (u32, u32)| portals@.to_set().contains(p) <==> (pp.to_set().contains(p) || p == (id, t) || p == (t, id)) by {
                if portals@.contains(p) {
                    let j = choose|j: int| 0 <= j < portals@.len() && portals@[j] == p;
                    if j < pp.len() {
                        assert(pp[j] == p);
                    }
                }
                if pp.contains(p) {
                    let j = choose|j: int| 0 <= j < pp.len() && pp[j] == p;
                    assert(portals@[j] == p);
                }
                if p == (id, t) {
                    assert(portals@[pp.len() as int] == p);
                }
                if p == (t, id) {
                    assert(portals@[pp.len() as int + 1] == p);
                }
            }
            assert(pairs_of(ex, id, (i + 1) as nat) == pairs_of(ex, id, i as nat).insert((id, t)).insert((t, id)));
            assert(pp.to_set() == p0.to_set() + pairs_of(ex, id, i as nat));
            assert forall|p: (u32, u32)| portals@.to_set().contains(p) <==> (p0.to_set() + pairs_of(ex, id, (i + 1) as nat)).contains(p) by {
                assert(portals@.to_set().contains(p) <==> (pp.to_set().contains(p) || p == (id, t) || p == (t, id)));
                assert(pp.to_set().contains(p) <==> (p0.to_set().contains(p) || pairs_of(ex, id, i as nat).contains(p)));
            }
            assert(portals@.to_set() =~= p0.to_set() + pairs_of(ex, id, (i + 1) as nat));
        }
        let ax: i32 = if tx < 0 { -tx } else { tx };
        let ay: i32 = if ty < 0 { -ty } else { ty };
        let ghost oq = queue@;
        proof {
            assert(at(tx, ty, step(dir, x as int, y as int)));
        }
        if !(ax > max_distance || ay > max_distance) {
            queue.push((t, tx, ty));
            proof {
                assert(has_exit_to(rooms@, id, t));
                assert(queue@.take(q0.len() as int) =~= oq.take(q0.len() as int));
                assert(queue@[oq.len() as int] == (t, tx, ty));
                assert(in_square(step(dir, x as int, y as int), max_distance as int));
                assert(queue@ =~= q0 + queued_exits(ex.take(i + 1), x as int, y as int, max_distance as int));
            }
        } else {
            proof {
                assert(!in_square(step(dir, x as int, y as int), max_distance as int));
                assert(queue@ =~= q0 + queued_exits(ex.take(i + 1), x as int, y as int, max_distance as int));
            }
        }
        proof {
            assert forall|j: int| q0.len() <= j < queue@.len() implies queued_from(ex, x as int, y as int, #[trigger] queue@[j]) by {
                if j < oq.len() {
                    assert(queue@[j] == oq[j]);
                } else {
                    assert(queue@[j] == (t, tx, ty));
                    assert(ex[i as int].1 == t);
                }
            }
            assert forall|k: int| 0 <= k < i + 1 && in_square(step((#[trigger] rooms@[id][k]).0, x as int, y as int), max_distance as int)
                implies exists|j: int| q0.len() <= j < queue@.len() && (#[trigger] queue@[j]).0 == rooms@[id][k].1 by {
                if k < i {
                    let j = choose|j: int| q0.len() <= j < oq.len() && (#[trigger] oq[j]).0 == rooms@[id][k].1;
                    assert(queue@[j] == oq[j]);
                } else {
                    assert(queue@[oq.len() as int].0 == rooms@[id][k].1);
                }
            }
        }
        i = i + 1;
    }
    proof {
        assert forall|p: (u32, u32)| #[trigger] portal_pairs(rooms@, set![id]).contains(p) <==> pairs_of(ex, id, ex.len()).contains(p) by {
            lemma_pairs_of(ex, id, ex.len(), p);
            if portal_pairs(rooms@, set![id]).contains(p) {
                if p.0 == id && has_exit_to(rooms@, id, p.1) {
                    let j = choose|j: int| 0 <= j < rooms@[id].len() && (#[trigger] rooms@[id][j]).1 == p.1;
                    assert(p == (id, ex[j].1));
                } else {
                    let j = choose|j: int| 0 <= j < rooms@[id].len() && (#[trigger] rooms@[id][j]).1 == p.0;
                    assert(p == (ex[j].1, id));
                }
            }
            if pairs_of(ex, id, ex.len()).contains(p) {
                let j = choose|j: int| 0 <= j < ex.len() && (p == (id, #[trigger] ex[j].1) || p == (ex[j].1, id));
                assert(has_exit_to(rooms@, id, ex[j].1));
            }
        }
        assert(exits.len() == ex.len());
        assert(ex.take(i as int) =~= ex);
        assert(portals@.to_set() =~= p0.to_set() + portal_pairs(rooms@, set![id]));
    }
    Ok(())
}

/// On the grid `pos`: visited rooms and queued entries lie where `pos` puts them, seen from
/// `start`, and each exit of a visited room that stays in the square leads to a visited or
/// queued room.
spec fn grid_walk(
    rooms: Map<u32, Seq<(Dir, u32)>>,
    start: u32,
    max: int,
    visited: Map<u32, (i32, i32)>,
    queue: Seq<(u32, i32, i32)>,
    pos: Map<u32, (int, int)>,
) -> bool {
    &&& forall|k: u32| #[trigger] visited.contains_key(k) ==> pos.contains_key(k) && at(visited[k].0, visited[k].1, rel(pos, start, k))
    &&& forall|j: int| 0 <= j < queue.len() ==> pos.contains_key((#[trigger] queue[j]).0) && at(queue[j].1, queue[j].2, rel(pos, start, queue[j].0))
    &&& forall|v: u32, i: int|
        visited.contains_key(v) && 0 <= i < rooms[v].len() && in_square(rel(pos, start, (#[trigger] rooms[v][i]).1), max)
            ==> visited.contains_key(rooms[v][i].1) || exists|j: int| 0 <= j < queue.len() && (#[trigger] queue[j]).0 == rooms[v][i].1
}

proof fn lemma_walk_revisit(
    rooms: Map<u32, Seq<(Dir, u32)>>,
    loc: u32,
    max: int,
    v0: Map<u32, (i32, i32)>,
    v1: Map<u32, (i32, i32)>,
    qb: Seq<(u32, i32, i32)>,
    q: Seq<(u32, i32, i32)>,
    pos: Map<u32, (int, int)>,
)
    requires
        grid(rooms, pos),
        pos.contains_key(loc),
        grid_walk(rooms, loc, max, v0, qb, pos),
        qb.len() > 0,
        q == qb.drop_last(),
        v0.contains_key(qb.last().0),
        v1 == v0 || v1 == v0.insert(qb.last().0, (qb.last().1, qb.last().2)),
    ensures
        grid_walk(rooms, loc, max, v1, q, pos),
{
    let p = q.len() as int;
    assert(qb[p] == qb.last());
    assert(pos.contains_key(qb[p].0));
    assert(v1.dom() =~= v0.dom());
    assert forall|j: int| 0 <= j < q.len() implies pos.contains_key((#[trigger] q[j]).0) && at(q[j].1, q[j].2, rel(
        pos,
        loc,
        q[j].0,
    )) by {
        assert(q[j] == qb[j]);
    }
    assert forall|v: u32, i: int|
        v1.contains_key(v) && 0 <= i < rooms[v].len() && in_square(rel(pos, loc, (#[trigger] rooms[v][i]).1), max) implies v1.contains_key(
        rooms[v][i].1,
    ) || exists|j: int| 0 <= j < q.len() && (#[trigger] q[j]).0 == rooms[v][i].1 by {
        if !v1.contains_key(rooms[v][i].1) {
            let j = choose|j: int| 0 <= j < qb.len() && (#[trigger] qb[j]).0 == rooms[v][i].1;
            assert(j != p);
            assert(q[j] == qb[j]);
        }
    }
}

proof fn lemma_walk_expand(
    rooms: Map<u32, Seq<(Dir, u32)>>,
    loc: u32,
    max: int,
    v0: Map<u32, (i32, i32)>,
    qb: Seq<(u32, i32, i32)>,
    q: Seq<(u32, i32, i32)>,
    pos: Map<u32, (int, int)>,
)
    requires
        grid(rooms, pos),
        pos.contains_key(loc),
        grid_walk(rooms, loc, max, v0, qb, pos),
        qb.len() > 0,
        rooms.contains_key(qb.last().0),
        q.len() >= qb.len() - 1,
        q.take(qb.len() - 1) == qb.drop_last(),
        forall|j: int| qb.len() - 1 <= j < q.len() ==> queued_from(
            rooms[qb.last().0],
            qb.last().1 as int,
            qb.last().2 as int,
            #[trigger] q[j],
        ),
        forall|i: int| 0 <= i < rooms[qb.last().0].len() && in_square(step((#[trigger] rooms[qb.last().0][i]).0, qb.last().1 as int, qb.last().2 as int), max)
            ==> exists|j: int| qb.len() - 1 <= j < q.len() && (#[trigger] q[j]).0 == rooms[qb.last().0][i].1,
    ensures
        grid_walk(rooms, loc, max, v0.insert(qb.last().0, (qb.last().1, qb.last().2)), q, pos),
{
    let p = qb.len() - 1;
    let (id, x, y) = qb.last();
    let v1 = v0.insert(id, (x, y));
    assert(qb[p] == qb.last());
    assert(pos.contains_key(id));
    assert forall|j: int| 0 <= j < q.len() implies pos.contains_key((#[trigger] q[j]).0) && at(q[j].1, q[j].2, rel(
        pos,
        loc,
        q[j].0,
    )) by {
        if j < p {
            assert(q[j] == q.take(p)[j]);
            assert(q.take(p)[j] == qb[j]);
        } else {
            assert(queued_from(rooms[id], x as int, y as int, q[j]));
            let i = choose|i: int| 0 <= i < rooms[id].len() && (#[trigger] rooms[id][i]).1 == q[j].0 && at(q[j].1, q[j].2, step(rooms[id][i].0, x as int, y as int));
            assert(pos.contains_key(rooms[id][i].1));
        }
    }
    assert forall|v: u32, i: int|
        v1.contains_key(v) && 0 <= i < rooms[v].len() && in_square(rel(pos, loc, (#[trigger] rooms[v][i]).1), max) implies v1.contains_key(
        rooms[v][i].1,
    ) || exists|j: int| 0 <= j < q.len() && (#[trigger] q[j]).0 == rooms[v][i].1 by {
        if v == id {
            assert(pos.contains_key(rooms[id][i].1));
            assert(in_square(step(rooms[id][i].0, x as int, y as int), max));
        } else if !v1.contains_key(rooms[v][i].1) {
            let j = choose|j: int| 0 <= j < qb.len() && (#[trigger] qb[j]).0 == rooms[v][i].1;
            assert(j != p);
            assert(q[j] == q.take(p)[j]);
            assert(q.take(p)[j] == qb[j]);
        }
    }
}

/// Walk the rooms from `location_id`, giving each reached room grid coordinates: a step north
/// is y - 1, south y + 1, east x + 1, west x - 1. Rooms are taken from a stack; a room reached
/// again with a smaller coordinate sum x + y takes those coordinates without being walked again.
/// Exits that would leave the square of side `max_distance` around the start are not followed.
/// Every exit of a walked room is recorded as a portal, both ways.
#[verifier::spinoff_prover]
#[verifier::rlimit(30)]
fn load_rooms_into_coords_map(
    location_id: ObjId,
    max_distance: u32,
    rooms: &RoomRepository,
    visited: &mut HashMap<u32, (i32, i32)>,
    portals: &mut Vec<(u32, u32)>,
) -> (r: Result<()>)
    requires
        max_distance < 0x4000_0000,
        old(visited)@ == Map::<u32, (i32, i32)>::empty(),
        old(portals)@ == Seq::<(u32, u32)>::empty(),
    ensures
        r is Ok ==> walk_ok(rooms@, location_id.0, max_distance as int, final(visited)@, final(portals)@.to_set()),
        r is Err ==> r matches Err(Error::NotFoundFailure),
        r is Err ==> walk_may_fail(rooms@, location_id.0),
        rooms@.contains_key(location_id.0) && exits_closed(rooms@) ==> r is Ok,
        r is Ok ==> walk_result(rooms@, max_distance as int, location_id.0, Some((final(visited)@, final(portals)@))),
        r is Err ==> walk_result(rooms@, max_distance as int, location_id.0, None),
{
    let md: i32 = max_distance as i32;
    let loc = location_id.0;
    let mut queue: Vec<(u32, i32, i32)> = Vec::new();
    queue.push((loc, 0, 0));
    let ghost total = rooms@.dom().len();
    let ghost mut tr = seq![walk_start(loc)];
    proof {
        assert(visited@ =~= Map::<u32, (i32, i32)>::empty());
        assert(portals@ =~= Seq::<(u32, u32)>::empty());
        assert(queue@ =~= seq![(loc, 0i32, 0i32)]);
        assert(tr.last() == (visited@, queue@, portals@));
        rooms.lemma_finite();
        assert(portals@.to_set() =~= portal_pairs(rooms@, visited@.dom()));
        assert forall|pos: Map<u32, (int, int)>| #[trigger] grid(rooms@, pos) && pos.contains_key(loc) implies grid_walk(
            rooms@,
            loc,
            md as int,
            visited@,
            queue@,
            pos,
        ) by {
            assert(queue@[0] == (loc, 0i32, 0i32));
        }
    }
    loop
        invariant
            md == max_distance as int,
            loc == location_id.0,
            0 <= md < 0x4000_0000,
            total == rooms@.dom().len(),
            rooms@.dom().finite(),
            visited@.dom().subset_of(rooms@.dom()),
            visited@.contains_key(loc) || (visited@.dom() == Set::<u32>::empty() && queue@ == seq![(loc, 0i32, 0i32)]),
            forall|k: u32| #[trigger] visited@.contains_key(k) ==> in_range(visited@[k], md as int),
            forall|k: u32| #[trigger] visited@.contains_key(k) && k != loc ==> exists|v: u32|
                visited@.contains_key(v) && #[trigger] has_exit_to(rooms@, v, k),
            forall|j: int| 0 <= j < queue@.len() ==> in_range(((#[trigger] queue@[j]).1, queue@[j].2), md as int)
                && (queue@[j].0 == loc || exists|v: u32| visited@.contains_key(v) && #[trigger] has_exit_to(rooms@, v, queue@[j].0)),
            portals@.to_set() == portal_pairs(rooms@, visited@.dom()),
            forall|pos: Map<u32, (int, int)>| #[trigger] grid(rooms@, pos) && pos.contains_key(loc) ==> grid_walk(
                rooms@,
                loc,
                md as int,
                visited@,
                queue@,
                pos,
            ),
            walk_trace(rooms@, md as int, loc, tr),
            tr.last() == (visited@, queue@, portals@),
        ensures
            walk_ok(rooms@, loc, md as int, visited@, portals@.to_set()),
            walk_result(rooms@, md as int, loc, Some((visited@, portals@))),
        decreases total - visited@.dom().len(), queue@.len(),
    {
        proof {
            vstd::set_lib::lemma_len_subset(visited@.dom(), rooms@.dom());
        }
        let ghost q_before = queue@;
        let (id, x, y) = match queue.pop() {
            Some(value) => value,
            None => {
                proof {
                    assert(visited@.contains_key(loc));
                    assert forall|pos: Map<u32, (int, int)>| #[trigger] grid(rooms@, pos) && pos.contains_key(loc) implies {
                        &&& forall|k: u32| #[trigger] visited@.contains_key(k) ==> pos.contains_key(k) && at(visited@[k].0, visited@[k].1, rel(pos, loc, k))
                        &&& forall|v: u32, i: int|
                            visited@.contains_key(v) && 0 <= i < rooms@[v].len() && in_square(
                                rel(pos, loc, (#[trigger] rooms@[v][i]).1),
                                md as int,
                            ) ==> visited@.contains_key(rooms@[v][i].1)
                    } by {
                        assert(grid_walk(rooms@, loc, md as int, visited@, queue@, pos));
                    }
                    assert(tr.last().1.len() == 0);
                    assert(walk_trace(rooms@, md as int, loc, tr));
                }
                break;
            },
        };
        let ghost popped = queue@.len();
        proof {
            assert(q_before[popped as int] == (id, x, y));
            if id != loc {
                let v = choose|v: u32| visited@.contains_key(v) && #[trigger] has_exit_to(rooms@, v, q_before[popped as int].0);
                assert(has_exit_to(rooms@, v, id));
            }
            if !rooms@.contains_key(id) {
                assert(walk_may_fail(rooms@, loc)) by {
                    if id != loc {
                        let v = choose|v: u32| visited@.contains_key(v) && #[trigger] has_exit_to(rooms@, v, q_before[popped as int].0);
                        assert(has_exit_to(rooms@, v, id));
                    }
                }
            }
            if rooms@.contains_key(loc) && exits_closed(rooms@) {
                assert(rooms@.contains_key(id)) by {
                    if id != loc {
                        let v = choose|v: u32| visited@.contains_key(v) && #[trigger] has_exit_to(rooms@, v, q_before[popped as int].0);
                        assert(has_exit_to(rooms@, v, id));
                    }
                }
            }
        }
        let ghost v0 = visited@;
        match visited.get(&id) {
            Some(c) => {
                let (x1, y1) = *c;
                if x1 + y1 > x + y {
                    let ghost d0 = visited@.dom();
                    visited.insert(id, (x, y));
                    proof {
                        assert(visited@.dom() =~= d0);
                    }
                }
                proof {
                    assert forall|pos: Map<u32, (int, int)>| #[trigger] grid(rooms@, pos) && pos.contains_key(loc) implies grid_walk(
                        rooms@,
                        loc,
                        md as int,
                        visited@,
                        queue@,
                        pos,
                    ) by {
                        assert(q_before.last() == (id, x, y));
                        assert(queue@ =~= q_before.drop_last());
                        lemma_walk_revisit(rooms@, loc, md as int, v0, visited@, q_before, queue@, pos);
                    }
                    assert(q_before.last() == (id, x, y));
                    assert(queue@ =~= q_before.drop_last());
                    assert(walk_next(rooms@, md as int, tr.last()) == Some((visited@, queue@, portals@)));
                    lemma_trace_push(rooms@, md as int, loc, tr, (visited@, queue@, portals@));
                    tr = tr.push((visited@, queue@, portals@));
                }
                continue;
            },
            None => {},
        }
        let ghost old_visited = visited@;
        visited.insert(id, (x, y));
        let ghost q1 = queue@;
        let ghost p1 = portals@;
        match expand(rooms, id, x, y, md, portals, &mut queue) {
            Ok(()) => {},
            Err(e) => {
                proof {
                    assert(q_before.last() == (id, x, y));
                    assert(walk_next(rooms@, md as int, tr.last()) is None);
                }
                return Err(e);
            },
        }
        proof {
            assert(q_before.last() == (id, x, y));
            assert(q1 =~= q_before.drop_last());
            assert(walk_next(rooms@, md as int, tr.last()) == Some((visited@, queue@, portals@)));
            lemma_trace_push(rooms@, md as int, loc, tr, (visited@, queue@, portals@));
            tr = tr.push((visited@, queue@, portals@));
        }
        proof {
            assert(visited@.dom() == old_visited.dom().insert(id));
            assert(visited@.dom().len() == old_visited.dom().len() + 1);
            vstd::set_lib::lemma_len_subset(visited@.dom(), rooms@.dom());
            assert(portal_pairs(rooms@, visited@.dom()) =~= portal_pairs(rooms@, old_visited.dom()) + portal_pairs(rooms@, set![id]));
            assert forall|j: int| 0 <= j < queue@.len() implies in_range(((#[trigger] queue@[j]).1, queue@[j].2), md as int)
                && (queue@[j].0 == loc || exists|v: u32| visited@.contains_key(v) && #[trigger] has_exit_to(rooms@, v, queue@[j].0)) by {
                if j < q1.len() {
                    assert(queue@[j] == q1[j]);
                    if queue@[j].0 != loc {
                        let v = choose|v: u32| old_visited.contains_key(v) && #[trigger] has_exit_to(rooms@, v, q1[j].0);
                        assert(visited@.contains_key(v));
                    }
                } else {
                    assert(visited@.contains_key(id));
                }
            }
            assert forall|k: u32| #[trigger] visited@.contains_key(k) && k != loc implies exists|v: u32|
                visited@.contains_key(v) && #[trigger] has_exit_to(rooms@, v, k) by {
                if k == id {
                    assert(q1.len() == popped);
                } else {
                    let v = choose|v: u32| old_visited.contains_key(v) && #[trigger] has_exit_to(rooms@, v, k);
                    assert(visited@.contains_key(v));
                }
            }
            assert forall|pos: Map<u32, (int, int)>| #[trigger] grid(rooms@, pos) && pos.contains_key(loc) implies grid_walk(
                rooms@,
                loc,
                md as int,
                visited@,
                queue@,
                pos,
            ) by {
                assert(q_before.last() == (id, x, y));
                assert(q1 =~= q_before.drop_last());
                lemma_walk_expand(rooms@, loc, md as int, old_visited, q_before, queue@, pos);
            }
        }
    }
    Ok(())
}

/// `v` is the smallest first (`axis == 0`) or second coordinate of the map, or 0 where that
/// is smaller.
pub open spec fn is_min(m: Map<u32, (i32, i32)>, axis: int, v: int) -> bool {
    &&& v <= 0
    &&& forall|k: u32| #[trigger] m.contains_key(k) ==> v <= if axis == 0 { m[k].0 as int } else { m[k].1 as int }
    &&& (v == 0 || exists|k: u32| #[trigger] m.contains_key(k) && v == if axis == 0 { m[k].0 as int } else { m[k].1 as int })
}

/// `v` is the largest first or second coordinate of the map, or 0 where that is larger.
pub open spec fn is_max(m: Map<u32, (i32, i32)>, axis: int, v: int) -> bool {
    &&& v >= 0
    &&& forall|k: u32| #[trigger] m.contains_key(k) ==> v >= if axis == 0 { m[k].0 as int } else { m[k].1 as int }
    &&& (v == 0 || exists|k: u32| #[trigger] m.contains_key(k) && v == if axis == 0 { m[k].0 as int } else { m[k].1 as int })
}

/// No two rooms share coordinates.
pub open spec fn unique_coords(m: Map<u32, (i32, i32)>) -> bool {
    forall|a: u32, b: u32| #[trigger] m.contains_key(a) && #[trigger] m.contains_key(b) && m[a] == m[b] ==> a == b
}

/// The room at grid position (x, y) once every coordinate is moved by (-mx, -my).
pub open spec fn room_at(m: Map<u32, (i32, i32)>, mx: int, my: int, x: int, y: int) -> Option<u32> {
    if exists|k: u32| #[trigger] m.contains_key(k) && m[k].0 - mx == x && m[k].1 - my == y {
        Some(choose|k: u32| #[trigger] m.contains_key(k) && m[k].0 - mx == x && m[k].1 - my == y)
    } else {
        None
    }
}

pub open spec fn is_portal_at(m: Map<u32, (i32, i32)>, portals: Set<(u32, u32)>, mx: int, my: int, x0: int, y0: int, x1: int, y1: int) -> bool {
    match (room_at(m, mx, my, x0, y0), room_at(m, mx, my, x1, y1)) {
        (Some(a), Some(b)) => portals.contains((a, b)),
        _ => false,
    }
}

/// Cell (cx, cy) of the map: rooms at even columns of even rows, a horizontal door between
/// two rooms joined by a portal at odd columns of even rows, a vertical door below a room joined
/// to the room above at even columns of odd rows, nothing elsewhere.
pub open spec fn expected_cell(m: Map<u32, (i32, i32)>, portals: Set<(u32, u32)>, mx: int, my: int, cx: int, cy: int) -> RoomMapCell {
    if cy % 2 == 0 {
        let y = cy / 2;
        if cx % 2 == 0 {
            match room_at(m, mx, my, cx / 2, y) {
                Some(id) => RoomMapCell::Room(ObjId(id)),
                None => RoomMapCell::Empty,
            }
        } else {
            let x = (cx + 1) / 2;
            if is_portal_at(m, portals, mx, my, x, y, x - 1, y) { RoomMapCell::DoorHor } else { RoomMapCell::Empty }
        }
    } else {
        let y = (cy + 1) / 2;
        if cx % 2 == 0 {
            let x = cx / 2;
            if is_portal_at(m, portals, mx, my, x, y, x, y - 1) { RoomMapCell::DoorVer } else { RoomMapCell::Empty }
        } else {
            RoomMapCell::Empty
        }
    }
}

pub open spec fn expected_row(m: Map<u32, (i32, i32)>, portals: Set<(u32, u32)>, mx: int, my: int, w: int, cy: int) -> Seq<RoomMapCell> {
    Seq::new(w as nat, |cx: int| expected_cell(m, portals, mx, my, cx, cy))
}

pub open spec fn expected_rows(m: Map<u32, (i32, i32)>, portals: Set<(u32, u32)>, mx: int, my: int, w: int, h: int) -> Seq<Seq<RoomMapCell>> {
    Seq::new(h as nat, |cy: int| expected_row(m, portals, mx, my, w, cy))
}

/// `map` is the grid of the coordinates and portals (see `expected_cell`), where no two rooms
/// share coordinates.
pub open spec fn is_room_map(m: Map<u32, (i32, i32)>, portals: Set<(u32, u32)>, map: RoomMap) -> bool {
    exists|mnx: int, mxx: int, mny: int, mxy: int|
        #![trigger is_min(m, 0, mnx), is_max(m, 0, mxx), is_min(m, 1, mny), is_max(m, 1, mxy)]
        is_min(m, 0, mnx) && is_max(m, 0, mxx) && is_min(m, 1, mny) && is_max(m, 1, mxy)
        && map.width == 2 * (mxx - mnx + 1) - 1 && map.height == 2 * (mxy - mny + 1) - 1
        && map.cells@.len() == map.width * map.height
        && (unique_coords(m) ==> map.cells@ == expected_rows(m, portals, mnx, mny, map.width as int, map.height as int).flatten())
}

pub open spec fn coords_bounded(m: Map<u32, (i32, i32)>) -> bool {
    forall|k: u32| #[trigger] m.contains_key(k) ==> in_range(m[k], 0x1000_0000)
}

struct Placed {
    id: u32,
    x: i32,
    y: i32,
}

/// The room placed at (x, y), if any.
fn find_room(placed: &Vec<Placed>, x: i32, y: i32, Ghost(m): Ghost<Map<u32, (i32, i32)>>, mx: i32, my: i32) -> (r: Option<u32>)
    requires
        forall|j: int| 0 <= j < placed@.len() ==> m.contains_key((#[trigger] placed@[j]).id)
            && placed@[j].x == m[placed@[j].id].0 - mx && placed@[j].y == m[placed@[j].id].1 - my,
        forall|k: u32| #[trigger] m.contains_key(k) ==> exists|j: int| 0 <= j < placed@.len() && (#[trigger] placed@[j]).id == k,
    ensures
        unique_coords(m) ==> r == room_at(m, mx as int, my as int, x as int, y as int),
        match r {
            Some(id) => m.contains_key(id) && m[id].0 - mx == x && m[id].1 - my == y,
            None => room_at(m, mx as int, my as int, x as int, y as int) is None,
        },
{
    let mut i: usize = 0;
    while i < placed.len()
        invariant
            i <= placed@.len(),
            forall|j: int| 0 <= j < i ==> !((#[trigger] placed@[j]).x == x && placed@[j].y == y),
            forall|j: int| 0 <= j < placed@.len() ==> m.contains_key((#[trigger] placed@[j]).id)
                && placed@[j].x == m[placed@[j].id].0 - mx && placed@[j].y == m[placed@[j].id].1 - my,
        decreases placed.len() - i,
    {
        if placed[i].x == x && placed[i].y == y {
            proof {
                let id = placed@[i as int].id;
                assert(placed@[i as int].x == x && placed@[i as int].y == y);
                assert(m.contains_key(id));
                assert(placed@[i as int].x == m[id].0 - mx);
                if unique_coords(m) {
                    let k = choose|k: u32| #[trigger] m.contains_key(k) && m[k].0 - mx == x && m[k].1 - my == y;
                    assert(m[k] == m[id]);
                }
            }
            return Some(placed[i].id);
        }
        i = i + 1;
    }
    proof {
        if exists|k: u32| #[trigger] m.contains_key(k) && m[k].0 - mx == x && m[k].1 - my == y {
            let k = choose|k: u32| #[trigger] m.contains_key(k) && m[k].0 - mx == x && m[k].1 - my == y;
            let j = choose|j: int| 0 <= j < placed@.len() && (#[trigger] placed@[j]).id == k;
            assert(placed@[j].x == x && placed@[j].y == y);
        }
    }
    None
}

fn portal_between(placed: &Vec<Placed>, portals: &Vec<(u32, u32)>, x0: i32, y0: i32, x1: i32, y1: i32, Ghost(m): Ghost<Map<u32, (i32, i32)>>, mx: i32, my: i32) -> (r: bool)
    requires
        forall|j: int| 0 <= j < placed@.len() ==> m.contains_key((#[trigger] placed@[j]).id)
            && placed@[j].x == m[placed@[j].id].0 - mx && placed@[j].y == m[placed@[j].id].1 - my,
        forall|k: u32| #[trigger] m.contains_key(k) ==> exists|j: int| 0 <= j < placed@.len() && (#[trigger] placed@[j]).id == k,
    ensures
        unique_coords(m) ==> r == is_portal_at(m, portals@.to_set(), mx as int, my as int, x0 as int, y0 as int, x1 as int, y1 as int),
{
    let a = find_room(placed, x0, y0, Ghost(m), mx, my);
    let b = find_room(placed, x1, y1, Ghost(m), mx, my);
    match (a, b) {
        (Some(a), Some(b)) => contains_pair(portals, (a, b)),
        _ => false,
    }
}

/// Lay the rooms out on a grid of cells: rooms on even rows and columns, doors between them
/// where a portal joins them. Coordinates are first moved so the smallest ones become 0.
pub fn room_map_from_rooms_coords(visited: HashMap<u32, (i32, i32)>, portals: Vec<(u32, u32)>) -> (r: Result<RoomMap>)
    requires
        coords_bounded(visited@),
    ensures
        r matches Ok(map) && is_room_map(visited@, portals@.to_set(), map),
{
    let ghost m = visited@;
    let ghost ps = portals@.to_set();
    // the rooms with their coordinates
    let mut entries: Vec<(u32, i32, i32)> = Vec::new();
    let ghost ks = vstd::std_specs::hash::spec_keys_iter(&visited).remaining();
    proof {
        assert(ks.unref().to_set() == m.dom());
    }
    for k in it: visited.keys()
        invariant
            it.seq() == ks,
            m == visited@,
            entries.len() == it.index(),
            forall|j: int| 0 <= j < entries.len() ==> (#[trigger] entries@[j]).0 == *ks[j] && m.contains_key(entries@[j].0)
                && m[entries@[j].0] == (entries@[j].1, entries@[j].2),
    {
        let c = *visited.get(k).unwrap();
        proof {
            assert(ks.unref().to_set().contains(*k));
        }
        entries.push((*k, c.0, c.1));
    }
    proof {
        assert forall|k: u32| #[trigger] m.contains_key(k) implies exists|j: int| 0 <= j < entries@.len() && (#[trigger] entries@[j]).0 == k by {
            assert(ks.unref().to_set().contains(k));
            let j = choose|j: int| 0 <= j < ks.len() && ks.unref()[j] == k;
            assert(entries@[j].0 == k);
        }
    }
    // normalize in the top left corner
    let mut min_x: i32 = 0;
    let mut min_y: i32 = 0;
    let mut max_x: i32 = 0;
    let mut max_y: i32 = 0;
    let mut i: usize = 0;
    while i < entries.len()
        invariant
            m == visited@,
            coords_bounded(m),
            i <= entries.len(),
            forall|j: int| 0 <= j < entries.len() ==> m.contains_key((#[trigger] entries@[j]).0)
                && m[entries@[j].0] == (entries@[j].1, entries@[j].2),
            min_x <= 0 && min_y <= 0 && max_x >= 0 && max_y >= 0,
            forall|j: int| 0 <= j < i ==> min_x <= (#[trigger] entries@[j]).1 <= max_x && min_y <= entries@[j].2 <= max_y,
            min_x == 0 || exists|j: int| 0 <= j < i && (#[trigger] entries@[j]).1 == min_x,
            max_x == 0 || exists|j: int| 0 <= j < i && (#[trigger] entries@[j]).1 == max_x,
            min_y == 0 || exists|j: int| 0 <= j < i && (#[trigger] entries@[j]).2 == min_y,
            max_y == 0 || exists|j: int| 0 <= j < i && (#[trigger] entries@[j]).2 == max_y,
            -0x1000_0000 <= min_x && max_x <= 0x1000_0000 && -0x1000_0000 <= min_y && max_y <= 0x1000_0000,
        decreases entries.len() - i,
    {
        let (_id, x, y) = entries[i];
        proof {
            assert(m.contains_key(entries@[i as int].0));
        }
        if x < min_x { min_x = x; }
        if y < min_y { min_y = y; }
        if x > max_x { max_x = x; }
        if y > max_y { max_y = y; }
        i = i + 1;
    }
    proof {
        assert(is_min(m, 0, min_x as int)) by {
            assert forall|k: u32| #[trigger] m.contains_key(k) implies min_x <= m[k].0 by {
                let j = choose|j: int| 0 <= j < entries@.len() && (#[trigger] entries@[j]).0 == k;
            }
            if min_x != 0 {
                let j = choose|j: int| 0 <= j < entries.len() && (#[trigger] entries@[j]).1 == min_x;
                assert(m.contains_key(entries@[j].0));
            }
        }
        assert(is_max(m, 0, max_x as int)) by {
            assert forall|k: u32| #[trigger] m.contains_key(k) implies max_x >= m[k].0 by {
                let j = choose|j: int| 0 <= j < entries@.len() && (#[trigger] entries@[j]).0 == k;
            }
            if max_x != 0 {
                let j = choose|j: int| 0 <= j < entries.len() && (#[trigger] entries@[j]).1 == max_x;
                assert(m.contains_key(entries@[j].0));
            }
        }
        assert(is_min(m, 1, min_y as int)) by {
            assert forall|k: u32| #[trigger] m.contains_key(k) implies min_y <= m[k].1 by {
                let j = choose|j: int| 0 <= j < entries@.len() && (#[trigger] entries@[j]).0 == k;
            }
            if min_y != 0 {
                let j = choose|j: int| 0 <= j < entries.len() && (#[trigger] entries@[j]).2 == min_y;
                assert(m.contains_key(entries@[j].0));
            }
        }
        assert(is_max(m, 1, max_y as int)) by {
            assert forall|k: u32| #[trigger] m.contains_key(k) implies max_y >= m[k].1 by {
                let j = choose|j: int| 0 <= j < entries@.len() && (#[trigger] entries@[j]).0 == k;
            }
            if max_y != 0 {
                let j = choose|j: int| 0 <= j < entries.len() && (#[trigger] entries@[j]).2 == max_y;
                assert(m.contains_key(entries@[j].0));
            }
        }
    }
    // the rooms at their normalized coordinates
    let mut placed: Vec<Placed> = Vec::new();
    let mut i: usize = 0;
    while i < entries.len()
        invariant
            i <= entries.len(),
            placed.len() == i,
            -0x1000_0000 <= min_x <= 0 && -0x1000_0000 <= min_y <= 0,
            coords_bounded(m),
            forall|j: int| 0 <= j < entries.len() ==> m.contains_key((#[trigger] entries@[j]).0)
                && m[entries@[j].0] == (entries@[j].1, entries@[j].2),
            forall|j: int| 0 <= j < i ==> (#[trigger] placed@[j]).id == entries@[j].0 && m.contains_key(placed@[j].id)
                && placed@[j].x == m[placed@[j].id].0 - min_x && placed@[j].y == m[placed@[j].id].1 - min_y,
        decreases entries.len() - i,
    {
        let (id, x, y) = entries[i];
        proof {
            assert(m.contains_key(id));
            assert(in_range(m[id], 0x1000_0000));
        }
        placed.push(Placed { id, x: x - min_x, y: y - min_y });
        i = i + 1;
    }
    proof {
        assert forall|k: u32| #[trigger] m.contains_key(k) implies exists|j: int| 0 <= j < placed@.len() && (#[trigger] placed@[j]).id == k by {
            let j = choose|j: int| 0 <= j < entries@.len() && (#[trigger] entries@[j]).0 == k;
            assert(placed@[j].id == k);
        }
    }
    // compute cells size
    let width: i32 = max_x - min_x + 1;
    let height: i32 = max_y - min_y + 1;
    let ghost cw = 2 * width - 1;
    let ghost ch = 2 * height - 1;
    let mut cells: Vec<RoomMapCell> = Vec::new();
    let ghost mut rows: Seq<Seq<RoomMapCell>> = Seq::empty();
    let mut y: i32 = 0;
    while y < height
        invariant
            1 <= width <= 0x2000_0001,
            1 <= height <= 0x2000_0001,
            cw == 2 * width - 1,
            ch == 2 * height - 1,
            0 <= y <= height,
            forall|j: int| 0 <= j < placed@.len() ==> m.contains_key((#[trigger] placed@[j]).id)
                && placed@[j].x == m[placed@[j].id].0 - min_x && placed@[j].y == m[placed@[j].id].1 - min_y,
            forall|k: u32| #[trigger] m.contains_key(k) ==> exists|j: int| 0 <= j < placed@.len() && (#[trigger] placed@[j]).id == k,
            ps == portals@.to_set(),
            rows.len() == if y == 0 { 0 } else { 2 * y - 1 },
            cells@ == rows.flatten(),
            unique_coords(m) ==> rows == expected_rows(m, ps, min_x as int, min_y as int, cw, ch).take(rows.len() as int),
            forall|r: int| 0 <= r < rows.len() ==> (#[trigger] rows[r]).len() == cw,
        decreases height - y,
    {
        if y != 0 {
            let mut row: Vec<RoomMapCell> = Vec::new();
            let mut x: i32 = 0;
            while x < width
                invariant
                    1 <= width <= 0x2000_0001,
                    1 <= y < height <= 0x2000_0001,
                    cw == 2 * width - 1,
                    0 <= x <= width,
                    forall|j: int| 0 <= j < placed@.len() ==> m.contains_key((#[trigger] placed@[j]).id)
                        && placed@[j].x == m[placed@[j].id].0 - min_x && placed@[j].y == m[placed@[j].id].1 - min_y,
                    forall|k: u32| #[trigger] m.contains_key(k) ==> exists|j: int| 0 <= j < placed@.len() && (#[trigger] placed@[j]).id == k,
                    ps == portals@.to_set(),
                    row@.len() == if x == width { 2 * x - 1 } else { 2 * x },
                    unique_coords(m) ==> row@ == expected_row(m, ps, min_x as int, min_y as int, cw, 2 * y - 1).take(row@.len() as int),
                decreases width - x,
            {
                let ghost r0 = row@;
                if portal_between(&placed, &portals, x, y, x, y - 1, Ghost(m), min_x, min_y) {
                    row.push(RoomMapCell::DoorVer);
                } else {
                    row.push(RoomMapCell::Empty);
                }
                if x != width - 1 {
                    row.push(RoomMapCell::Empty);
                }
                proof {
                    if unique_coords(m) {
                        let e = expected_row(m, ps, min_x as int, min_y as int, cw, 2 * y - 1);
                        assert((2 * x) % 2 == 0 && (2 * x) / 2 == x);
                        assert((2 * y - 1) % 2 != 0 && (2 * y - 1 + 1) / 2 == y);
                        assert(row@[2 * x] == e[2 * x]);
                        if x != width - 1 {
                            assert((2 * x + 1) % 2 != 0);
                            assert(row@[2 * x + 1] == e[2 * x + 1]);
                        }
                        assert(row@ =~= e.take(row@.len() as int));
                    }
                }
                x = x + 1;
            }
            proof {
                rows.lemma_flatten_push(row@);
                if unique_coords(m) {
                    assert(row@ =~= expected_row(m, ps, min_x as int, min_y as int, cw, 2 * y - 1));
                    assert(rows.push(row@) =~= expected_rows(m, ps, min_x as int, min_y as int, cw, ch).take(rows.len() as int + 1));
                }
                rows = rows.push(row@);
            }
            cells.append(&mut row);
        }
        let mut row: Vec<RoomMapCell> = Vec::new();
        let mut x: i32 = 0;
        while x < width
            invariant
                1 <= width <= 0x2000_0001,
                0 <= y < height <= 0x2000_0001,
                cw == 2 * width - 1,
                0 <= x <= width,
                forall|j: int| 0 <= j < placed@.len() ==> m.contains_key((#[trigger] placed@[j]).id)
                    && placed@[j].x == m[placed@[j].id].0 - min_x && placed@[j].y == m[placed@[j].id].1 - min_y,
                forall|k: u32| #[trigger] m.contains_key(k) ==> exists|j: int| 0 <= j < placed@.len() && (#[trigger] placed@[j]).id == k,
                ps == portals@.to_set(),
                row@.len() == if x == 0 { 0 } else { 2 * x - 1 },
                unique_coords(m) ==> row@ == expected_row(m, ps, min_x as int, min_y as int, cw, 2 * y).take(row@.len() as int),
            decreases width - x,
        {
            if x != 0 {
                if portal_between(&placed, &portals, x, y, x - 1, y, Ghost(m), min_x, min_y) {
                    row.push(RoomMapCell::DoorHor);
                } else {
                    row.push(RoomMapCell::Empty);
                }
            }
            match find_room(&placed, x, y, Ghost(m), min_x, min_y) {
                Some(room_id) => row.push(RoomMapCell::Room(ObjId(room_id))),
                None => row.push(RoomMapCell::Empty),
            }
            proof {
                if unique_coords(m) {
                    let e = expected_row(m, ps, min_x as int, min_y as int, cw, 2 * y);
                    assert((2 * y) % 2 == 0 && (2 * y) / 2 == y);
                    assert((2 * x) % 2 == 0 && (2 * x) / 2 == x);
                    assert(row@[2 * x] == e[2 * x]);
                    if x != 0 {
                        assert((2 * x - 1) % 2 != 0 && (2 * x - 1 + 1) / 2 == x);
                        assert(row@[2 * x - 1] == e[2 * x - 1]);
                    }
                    assert(row@ =~= e.take(row@.len() as int));
                }
            }
            x = x + 1;
        }
        proof {
            rows.lemma_flatten_push(row@);
            if unique_coords(m) {
                assert(row@ =~= expected_row(m, ps, min_x as int, min_y as int, cw, 2 * y));
                assert(rows.push(row@) =~= expected_rows(m, ps, min_x as int, min_y as int, cw, ch).take(rows.len() as int + 1));
            }
            rows = rows.push(row@);
        }
        cells.append(&mut row);
        y = y + 1;
    }
    proof {
        assert(rows.len() == ch);
        if unique_coords(m) {
            assert(rows =~= expected_rows(m, ps, min_x as int, min_y as int, cw, ch));
        }
        lemma_flatten_len(rows, cw);
        assert(cells@.len() == ch * cw) by (nonlinear_arith)
            requires cells@.len() == rows.len() * cw, rows.len() == ch;
    }
    let map = RoomMap { width: (width * 2 - 1) as u32, height: (height * 2 - 1) as u32, cells };
    proof {
        assert(map.cells@.len() == map.width * map.height) by (nonlinear_arith)
            requires map.cells@.len() == ch * cw, map.width == cw, map.height == ch;
        assert(is_min(m, 0, min_x as int) && is_max(m, 0, max_x as int) && is_min(m, 1, min_y as int) && is_max(m, 1, max_y as int));
    }
    Ok(map)
}

/// The flattening of rows of equal length is as long as their number times that length.
proof fn lemma_flatten_len(rows: Seq<Seq<RoomMapCell>>, w: int)
    requires
        forall|r: int| 0 <= r < rows.len() ==> (#[trigger] rows[r]).len() == w,
    ensures
        rows.flatten().len() == rows.len() * w,
    decreases rows.len(),
{
    if rows.len() > 0 {
        lemma_flatten_len(rows.drop_first(), w);
        assert(rows.drop_first().len() * w + w == rows.len() * w) by (nonlinear_arith)
            requires rows.drop_first().len() == rows.len() - 1;
    }
}

/// Map of the rooms around `location_id` up to `max_distance` rooms away on each axis: the
/// rooms are placed by the walk from `location_id` (see `walk_result`, which fixes the walk
/// step by step, and `walk_ok`) and drawn by `room_map_from_rooms_coords`; `NotFoundFailure`
/// where the walk meets an exit to a room that does not exist, which can not be where the start
/// is a room and every exit leads to a room.
pub fn generate_room_maps(location_id: ObjId, max_distance: u32, rooms: &RoomRepository) -> (r: Result<RoomMap>)
    requires
        max_distance < 0x1000_0000,
    ensures
        match r {
            Ok(map) => exists|visited: Map<u32, (i32, i32)>, portals: Seq<(u32, u32)>|
                #![trigger walk_result(rooms@, max_distance as int, location_id.0, Some((visited, portals)))]
                walk_result(rooms@, max_distance as int, location_id.0, Some((visited, portals))) && walk_ok(
                    rooms@,
                    location_id.0,
                    max_distance as int,
                    visited,
                    portals.to_set(),
                ) && is_room_map(visited, portals.to_set(), map),
            Err(e) => e is NotFoundFailure && walk_may_fail(rooms@, location_id.0) && walk_result(
                rooms@,
                max_distance as int,
                location_id.0,
                None,
            ),
        },
        rooms@.contains_key(location_id.0) && exits_closed(rooms@) ==> r is Ok,
{
    let mut visited: HashMap<u32, (i32, i32)> = HashMap::new();
    let mut portals: Vec<(u32, u32)> = Vec::new();
    load_rooms_into_coords_map(location_id, max_distance, rooms, &mut visited, &mut portals)?;
    let ghost v = visited@;
    let ghost p = portals@;
    let r = room_map_from_rooms_coords(visited, portals);
    proof {
        assert(walk_ok(rooms@, location_id.0, max_distance as int, v, p.to_set()));
        assert(walk_result(rooms@, max_distance as int, location_id.0, Some((v, p))));
    }
    r
}

/// An object that a mob can see: a mob, an item or an extractable.
pub open spec fn visible(c: &Container, id: u32) -> bool {
    c.mobs@.contains_key(id) || c.items@.contains_key(id) || c.extractables@.contains_key(id)
}

pub fn is_visible(container: &Container, obj_id: ObjId) -> (r: bool)
    ensures
        r == visible(container, obj_id.0),
{
    container.mobs.exist(obj_id) || container.items.exist(obj_id) || container.extractables.exist(obj_id)
}

/// The objects the mob sees in the room: every visible object there but itself.
pub open spec fn visible_set(c: &Container, mob_id: u32, room_id: u32) -> Set<u32> {
    visible_set_in(c, c.locations@, mob_id, room_id)
}

/// The objects the mob sees in the room, where the objects are at `locs`.
pub open spec fn visible_set_in(c: &Container, locs: Map<u32, u32>, mob_id: u32, room_id: u32) -> Set<u32> {
    children(locs, room_id).filter(|k: u32| k != mob_id && visible(c, k))
}

/// Law: what a mob sees in a room is exactly the other mobs, the items and the extractables
/// located there.
pub proof fn sees_the_mobs_items_and_extractables_there(c: &Container, mob_id: u32, room_id: u32, k: u32)
    ensures
        visible_set(c, mob_id, room_id).contains(k) <==> k != mob_id && c.locations@.contains_key(k)
            && c.locations@[k] == room_id && (c.mobs@.contains_key(k) || c.items@.contains_key(k)
            || c.extractables@.contains_key(k)),
{
}

/// The objects the mob sees in the room, each once, in no given order.
pub fn get_visible_objects(container: &Container, mob_id: MobId, room_id: ObjId) -> (r: Vec<ObjId>)
    ensures
        obj_values(r@).no_duplicates(),
        obj_values(r@).to_set() == visible_set(container, mob_id.0, room_id.0),
{
    let ids = container.locations.list_at(room_id);
    let ghost f = obj_values(ids@);
    let ghost pred = |k: u32| k != mob_id.0 && visible(container, k);
    let mut r: Vec<ObjId> = Vec::new();
    let mut i: usize = 0;
    proof {
        assert(f.take(0) =~= Seq::<u32>::empty());
        assert(obj_values(r@) =~= f.take(0).filter(pred));
    }
    while i < ids.len()
        invariant
            f == obj_values(ids@),
            pred == (|k: u32| k != mob_id.0 && visible(container, k)),
            i <= ids.len(),
            obj_values(r@) == f.take(i as int).filter(pred),
        decreases ids.len() - i,
    {
        let id = ids[i];
        proof {
            assert(f.take(i + 1) =~= f.take(i as int).push(id.0));
            f.take(i as int).lemma_filter_push(id.0, pred);
        }
        let ghost before = r@;
        if id != mob_id && is_visible(container, id) {
            r.push(id);
            proof {
                assert(obj_values(r@) =~= obj_values(before).push(id.0));
            }
        }
        i = i + 1;
    }
    proof {
        assert(f.take(ids.len() as int) =~= f);
        crate::game::location::lemma_filter_no_dup(f, pred);
        let g = f.filter(pred);
        assert forall|k: u32| g.to_set().contains(k) <==> visible_set(container, mob_id.0, room_id.0).contains(k) by {
            if g.contains(k) {
                f.lemma_filter_contains_rev(pred, k);
                let j = choose|j: int| 0 <= j < g.len() && g[j] == k;
                f.lemma_filter_pred(pred, j);
                assert(f.to_set().contains(k));
            }
            if visible_set(container, mob_id.0, room_id.0).contains(k) {
                assert(f.to_set().contains(k));
                let j = choose|j: int| 0 <= j < f.len() && f[j] == k;
                f.lemma_filter_contains(pred, j);
            }
        }
        assert(g.to_set() =~= visible_set(container, mob_id.0, room_id.0));
    }
    r
}

/// The description a mob gets of the room it is in, with the visible objects in that order.
pub open spec fn look_text(c: &Container, mob_id: u32, visible: Seq<ObjId>) -> Seq<char> {
    look_text_in(c, c.locations@, mob_id, visible)
}

/// The description a mob gets of the room it is in, where the objects are at `locs`.
pub open spec fn look_text_in(c: &Container, locs: Map<u32, u32>, mob_id: u32, visible: Seq<ObjId>) -> Seq<char> {
    let room_id = locs[mob_id];
    let room = c.rooms.rooms()[room_id];
    look_description_text(
        c.labels@[room_id].label@,
        c.labels@[room_id].desc@,
        room.exits@.map_values(|e: (Dir, ObjId)| e.0),
        room.can_exit,
        visible.map_values(|o: ObjId| label_text(c.labels@, o.0)),
    )
}

/// The mob is in a room that has a label.
pub open spec fn in_labelled_room(c: &Container, mob_id: u32) -> bool {
    &&& c.locations@.contains_key(mob_id)
    &&& c.rooms@.contains_key(c.locations@[mob_id])
    &&& c.labels@.contains_key(c.locations@[mob_id])
}

/// What the mob sees of the room it is in. `NotFoundFailure` where the mob is not in a room
/// that has a label.
pub fn look_description_of(container: &Container, mob_id: MobId) -> (r: Result<String>)
    ensures
        !in_labelled_room(container, mob_id.0) ==> (r matches Err(Error::NotFoundFailure)),
        in_labelled_room(container, mob_id.0) ==> exists|v: Seq<ObjId>|
            #![trigger obj_values(v)]
            obj_values(v).no_duplicates() && obj_values(v).to_set() == visible_set(
                container,
                mob_id.0,
                container.locations@[mob_id.0],
            ) && (r matches Ok(t) && t@ == look_text(container, mob_id.0, v)),
{
    let room_id = match container.locations.get(mob_id) {
        Some(id) => id,
        None => {
            return Err(Error::NotFoundFailure);
        },
    };
    let room = match container.rooms.get(room_id) {
        Some(room) => room,
        None => {
            return Err(Error::NotFoundFailure);
        },
    };
    let label = match container.labels.get(room_id) {
        Some(label) => label,
        None => {
            return Err(Error::NotFoundFailure);
        },
    };
    let mut exits: Vec<Dir> = Vec::new();
    let mut i: usize = 0;
    while i < room.exits.len()
        invariant
            i <= room.exits.len(),
            exits@ == room.exits@.take(i as int).map_values(|e: (Dir, ObjId)| e.0),
        decreases room.exits.len() - i,
    {
        exits.push(room.exits[i].0);
        proof {
            assert(room.exits@.take(i + 1) =~= room.exits@.take(i as int).push(room.exits@[i as int]));
            assert(exits@ =~= room.exits@.take(i + 1).map_values(|e: (Dir, ObjId)| e.0));
        }
        i = i + 1;
    }
    proof {
        assert(room.exits@.take(room.exits.len() as int) =~= room.exits@);
    }
    let visible = get_visible_objects(container, mob_id, room_id);
    let mut names: Vec<&str> = Vec::new();
    let mut j: usize = 0;
    while j < visible.len()
        invariant
            j <= visible.len(),
            crate::utils::strinput::views(names@) == visible@.take(j as int).map_values(
                |o: ObjId| label_text(container.labels@, o.0),
            ),
        decreases visible.len() - j,
    {
        let ghost before = names@;
        names.push(container.labels.get_label_f(visible[j]));
        proof {
            assert(visible@.take(j + 1) =~= visible@.take(j as int).push(visible@[j as int]));
            assert(crate::utils::strinput::views(names@) =~= crate::utils::strinput::views(before).push(
                label_text(container.labels@, visible@[j as int].0),
            ));
        }
        j = j + 1;
    }
    proof {
        assert(visible@.take(visible.len() as int) =~= visible@);
    }
    let text = comm::look_description(label.label.as_str(), label.desc.as_str(), exits, room.can_exit, names);
    proof {
        assert(obj_values(visible@) == obj_values(visible@));
    }
    text
}

/// What looking around does (see `look`).
pub open spec fn look_done(c: &Container, f: &Container, mob_id: MobId, r: Result<()>) -> bool {
    &&& !in_labelled_room(c, mob_id.0) ==> (r matches Err(Error::NotFoundFailure)) && *f
        == *c
    &&& in_labelled_room(c, mob_id.0) ==> r is Ok && same_but_outputs(c, f)
        && exists|v: Seq<ObjId>|
        #![trigger obj_values(v)]
        obj_values(v).no_duplicates() && obj_values(v).to_set() == visible_set(
            c,
            mob_id.0,
            c.locations@[mob_id.0],
        ) && told(c, f, mob_id, look_text(c, mob_id.0, v))
}

/// The mob looks around: it is told what it sees of its room. `NotFoundFailure` where it is not
/// in a room that has a label.
pub fn look(container: &mut Container, mob_id: MobId) -> (r: Result<()>)
    requires
        old(container).wf(),
    ensures
        final(container).wf(),
        look_done(old(container), final(container), mob_id, r),
{
    let msg = look_description_of(container, mob_id)?;
    container.outputs.private(mob_id, msg);
    proof {
        assert(container.outputs@.take(old(container).outputs@.len() as int) =~= old(container).outputs@);
    }
    Ok(())
}

/// What showing the map does (see `show_map`).
pub open spec fn show_map_done(c: &Container, f: &Container, mob_id: MobId, r: Result<()>) -> bool {
    &&& r is Err ==> (r matches Err(Error::NotFoundFailure)) && *f == *c
    &&& !c.locations@.contains_key(mob_id.0) ==> r is Err
    &&& r is Err ==> !c.locations@.contains_key(mob_id.0) || (walk_may_fail(c.rooms@, c.locations@[mob_id.0])
        && walk_result(c.rooms@, 3, c.locations@[mob_id.0], None))
    &&& c.locations@.contains_key(mob_id.0) && c.rooms@.contains_key(c.locations@[mob_id.0]) && exits_closed(c.rooms@)
        ==> r is Ok
    &&& r is Ok ==> c.locations@.contains_key(mob_id.0) && same_but_outputs(c, f)
        && exists|map: RoomMap, visited: Map<u32, (i32, i32)>, portals: Seq<(u32, u32)>|
        #![trigger is_room_map(visited, portals.to_set(), map)]
        walk_result(c.rooms@, 3, c.locations@[mob_id.0], Some((visited, portals))) && walk_ok(
            c.rooms@,
            c.locations@[mob_id.0],
            3,
            visited,
            portals.to_set(),
        ) && is_room_map(visited, portals.to_set(), map) && told(
            c,
            f,
            mob_id,
            comm::print_room_map_text(ObjId(c.locations@[mob_id.0]), map, c.labels@),
        )
}

/// The mob is told the map of the rooms around its location, as far as three rooms away.
/// `NotFoundFailure` where it is nowhere, or where the map can not be made.
pub fn show_map(container: &mut Container, mob_id: MobId) -> (r: Result<()>)
    requires
        old(container).wf(),
    ensures
        final(container).wf(),
        show_map_done(old(container), final(container), mob_id, r),
{
    let location_id = match container.locations.get(mob_id) {
        Some(id) => id,
        None => {
            return Err(Error::NotFoundFailure);
        },
    };
    let room_map = generate_room_maps(location_id, 3, &container.rooms)?;
    let ghost map = room_map;
    let msg = comm::print_room_map(location_id, room_map, &container.labels);
    container.outputs.private(mob_id, msg);
    proof {
        assert(container.outputs@.take(old(container).outputs@.len() as int) =~= old(container).outputs@);
    }
    Ok(())
}

/// The first of `ps` that is a room.
pub open spec fn first_room(rooms: Map<u32, Seq<(Dir, u32)>>, ps: Seq<u32>) -> Option<u32>
    decreases ps.len(),
{
    if ps.len() == 0 {
        None
    } else if rooms.contains_key(ps[0]) {
        Some(ps[0])
    } else {
        first_room(rooms, ps.drop_first())
    }
}

proof fn lemma_first_room(rooms: Map<u32, Seq<(Dir, u32)>>, ps: Seq<u32>)
    ensures
        first_room(rooms, ps) matches Some(t) ==> rooms.contains_key(t),
    decreases ps.len(),
{
    if ps.len() > 0 && !rooms.contains_key(ps[0]) {
        lemma_first_room(rooms, ps.drop_first());
    }
}

/// The locations above the location of the mob, nearest first.
pub open spec fn outside_of(c: &Container, mob_id: u32) -> Seq<u32> {
    let loc = c.locations@[mob_id];
    ancestors(c.locations@, loc, c.locations@.dom().len())
}

/// The room the mob would go out to is not the mob, and has a label, as the look that follows
/// needs one.
pub open spec fn out_allowed(c: &Container, mob_id: MobId) -> bool {
    c.locations@.contains_key(mob_id.0) ==> match first_room(c.rooms@, outside_of(c, mob_id.0)) {
        Some(t) => t != mob_id.0 && c.labels@.contains_key(t),
        None => true,
    }
}

/// Whether going out is allowed for the mob (see `out_allowed`).
pub fn out_is_allowed(container: &Container, mob_id: MobId) -> (r: bool)
    requires
        container.wf(),
    ensures
        r == out_allowed(container, mob_id),
{
    let location_id = match container.locations.get(mob_id) {
        Some(id) => id,
        None => {
            return true;
        },
    };
    let parents = container.locations.list_parents(location_id);
    let ghost ps = obj_values(parents@);
    let mut i: usize = 0;
    proof {
        assert(ps.skip(0) =~= ps);
        assert(ps == outside_of(container, mob_id.0));
    }
    while i < parents.len()
        invariant
            ps == obj_values(parents@),
            ps == outside_of(container, mob_id.0),
            container.locations@.contains_key(mob_id.0),
            i <= parents.len(),
            first_room(container.rooms@, ps) == first_room(container.rooms@, ps.skip(i as int)),
        decreases parents.len() - i,
    {
        proof {
            assert(ps.skip(i as int).drop_first() =~= ps.skip(i + 1));
            assert(ps.skip(i as int)[0] == parents@[i as int].0);
        }
        if container.rooms.exist(parents[i]) {
            let t = parents[i];
            return t != mob_id && container.labels.get(t).is_some();
        }
        i = i + 1;
    }
    true
}

/// What going out does (see `out`).
pub open spec fn out_done(c: &Container, f: &Container, mob_id: MobId, r: Result<()>) -> bool {
    &&& {
        if !c.locations@.contains_key(mob_id.0) || !c.rooms@.contains_key(c.locations@[mob_id.0]) {
            (r matches Err(Error::NotFoundFailure)) && *f == *c
        } else if !c.rooms.rooms()[c.locations@[mob_id.0]].can_exit {
            (r matches Err(Error::InvalidArgumentFailure)) && same_but_outputs(c, f) && told(
                c,
                f,
                mob_id,
                comm::out_fail_text(),
            )
        } else if outside_of(c, mob_id.0).len() == 0 {
            (r matches Err(Error::NotFoundFailure)) && *f == *c
        } else {
            match first_room(c.rooms@, outside_of(c, mob_id.0)) {
                None => (r matches Err(Error::InvalidArgumentFailure)) && same_but_outputs(c, f) && told(
                    c,
                    f,
                    mob_id,
                    comm::out_fail_bad_outside_text(),
                ),
                Some(t) => {
                    let n = c.outputs@.len() as int;
                    let loc = c.locations@[mob_id.0];
                    let ml = label_text(c.labels@, mob_id.0);
                    let fl = label_text(c.labels@, outside_of(c, mob_id.0)[0]);
                    &&& r is Ok
                    &&& f.locations@ == c.locations@.insert(mob_id.0, t)
                    &&& f.objects@ == c.objects@ && f.objects.next_id() == c.objects.next_id()
                    &&& f.labels@ == c.labels@ && f.items@ == c.items@ && f.mobs@ == c.mobs@
                    &&& f.equips@ == c.equips@ && f.rooms@ == c.rooms@ && f.players@ == c.players@
                    &&& f.outputs@.len() == n + 4 && f.outputs@.take(n) == c.outputs@
                    &&& private(mob_id, comm::out_player_text(), f.outputs@[n])
                    &&& exists|v: Seq<ObjId>|
                        #![trigger obj_values(v)]
                        obj_values(v).no_duplicates() && obj_values(v).to_set() == visible_set(f, mob_id.0, t)
                            && private(mob_id, look_text(f, mob_id.0, v), f.outputs@[n + 1])
                    &&& to_others(mob_id, loc, comm::out_others_text(ml), f.outputs@[n + 2])
                    &&& to_others(mob_id, t, comm::out_others_other_side_text(ml, fl), f.outputs@[n + 3])
                },
            }
        }
    }
}

/// The mob leaves the room it is in for the nearest room around it. `NotFoundFailure` where
/// the mob is nowhere, not in a room, or the room is nowhere; `InvalidArgumentFailure` where the
/// room can not be left, or there is no room around it (both told).
pub fn out(container: &mut Container, mob_id: MobId) -> (r: Result<()>)
    requires
        old(container).wf(),
        out_allowed(old(container), mob_id),
    ensures
        final(container).wf(),
        out_done(old(container), final(container), mob_id, r),
{
    let location_id = match container.locations.get(mob_id) {
        Some(id) => id,
        None => {
            return Err(Error::NotFoundFailure);
        },
    };
    let can_exit = match container.rooms.get(location_id) {
        Some(room) => room.can_exit,
        None => {
            return Err(Error::NotFoundFailure);
        },
    };
    if !can_exit {
        container.outputs.private(mob_id, comm::out_fail());
        proof {
            assert(container.outputs@.take(old(container).outputs@.len() as int) =~= old(container).outputs@);
        }
        return Err(Error::InvalidArgumentFailure);
    }
    let parents = container.locations.list_parents(location_id);
    if parents.len() == 0 {
        return Err(Error::NotFoundFailure);
    }
    let from_id = parents[0];
    let ghost ps = obj_values(parents@);
    let mut target: Option<ObjId> = None;
    let mut i: usize = 0;
    proof {
        assert(ps.skip(0) =~= ps);
    }
    while i < parents.len()
        invariant_except_break
            target is None,
        invariant
            ps == obj_values(parents@),
            i <= parents.len(),
            first_room(container.rooms@, ps) == first_room(container.rooms@, ps.skip(i as int)),
        ensures
            target matches Some(t) ==> first_room(container.rooms@, ps) == Some(t.0),
            target is None ==> first_room(container.rooms@, ps) is None,
        decreases parents.len() - i,
    {
        proof {
            assert(ps.skip(i as int).drop_first() =~= ps.skip(i + 1));
            assert(ps.skip(i as int)[0] == parents@[i as int].0);
        }
        if container.rooms.exist(parents[i]) {
            target = Some(parents[i]);
            break;
        }
        i = i + 1;
    }
    match target {
        Some(target_id) => {
            let ghost c0 = *container;
            proof {
                lemma_first_room(container.rooms@, ps);
            }
            let from_label = container.labels.get_label_f(from_id);
            let mob_label = container.labels.get_label_f(mob_id);
            let others = comm::out_others(mob_label);
            let other_side = comm::out_others_other_side(mob_label, from_label);
            container.locations.set(mob_id, target_id);
            container.outputs.private(mob_id, comm::out_player());
            let look = match look_description_of(container, mob_id) {
                Ok(text) => text,
                Err(_) => {
                    proof {
                        assert(false);
                    }
                    return Err(Error::NotFoundFailure);
                },
            };
            let ghost mid = *container;
            container.outputs.private(mob_id, look);
            container.outputs.broadcast(Some(mob_id), location_id, others);
            container.outputs.broadcast(Some(mob_id), target_id, other_side);
            proof {
                let n = old(container).outputs@.len() as int;
                assert(container.outputs@.take(n) =~= old(container).outputs@);
                assert(visible_set(container, mob_id.0, target_id.0) =~= visible_set(&mid, mob_id.0, target_id.0));
            }
            Ok(())
        },
        None => {
            container.outputs.private(mob_id, comm::out_fail_bad_outside());
            proof {
                assert(container.outputs@.take(old(container).outputs@.len() as int) =~= old(container).outputs@);
            }
            Err(Error::InvalidArgumentFailure)
        },
    }
}

/// The locations with every object of `ms` moved to `to`.
pub open spec fn moved_locs(base: Map<u32, u32>, ms: Seq<ObjId>, to: u32) -> Map<u32, u32> {
    Map::new(
        |k: u32| base.contains_key(k) || obj_values(ms).contains(k),
        |k: u32| if obj_values(ms).contains(k) {
            to
        } else {
            base[k]
        },
    )
}

pub open spec fn exists_in(c: &Container) -> spec_fn(ObjId) -> bool {
    |m: ObjId| c.objects@.contains(m.0)
}

/// Who moves with the mob: the mob, then its followers, those that exist.
pub open spec fn movers(c: &Container, mob_id: MobId) -> Seq<ObjId> {
    (seq![mob_id] + c.mobs@[mob_id.0].followers@).filter(exists_in(c))
}

/// The room the mob would move to.
pub open spec fn move_exit(c: &Container, mob_id: MobId, dir: Dir) -> Option<RoomId> {
    exit_of(c.rooms.rooms()[c.locations@[mob_id.0]].exits@, dir)
}

/// The mob is somewhere, is a mob, and is in a room.
pub open spec fn can_try_move(c: &Container, mob_id: MobId) -> bool {
    &&& c.locations@.contains_key(mob_id.0)
    &&& c.mobs@.contains_key(mob_id.0)
    &&& c.rooms@.contains_key(c.locations@[mob_id.0])
}

/// The room moved to is a room with a label, as the look that follows the move needs one, and
/// who moves is not that room.
pub open spec fn move_allowed(c: &Container, mob_id: MobId, dir: Dir) -> bool {
    can_try_move(c, mob_id) ==> match move_exit(c, mob_id, dir) {
        Some(e) => c.rooms@.contains_key(e.0) && c.labels@.contains_key(e.0) && forall|m: ObjId|
            #[trigger] movers(c, mob_id).contains(m) ==> m.0 != e.0,
        None => true,
    }
}

/// The three messages of a move: what the mover sees, to those left, to those joined.
pub open spec fn move_messages(c: &Container, f: &Container, ms: Seq<ObjId>, j: int, from: u32, to: u32, dir: Dir) -> bool {
    let n = c.outputs@.len() as int;
    let m = ms[j];
    let locs = moved_locs(c.locations@, ms.take(j + 1), to);
    let ml = label_text(c.labels@, m.0);
    &&& exists|v: Seq<ObjId>|
        #![trigger obj_values(v)]
        obj_values(v).no_duplicates() && obj_values(v).to_set() == visible_set_in(c, locs, m.0, to) && private(
            m,
            comm::move_you_move_text(dir) + "\n\n"@ + look_text_in(c, locs, m.0, v),
            f.outputs@[n + 3 * j],
        )
    &&& to_others(m, from, comm::move_goes_text(ml, dir), f.outputs@[n + 3 * j + 1])
    &&& to_others(m, to, comm::move_come_text(ml, dir.spec_inv()), f.outputs@[n + 3 * j + 2])
}

/// What moving does (see `mv`).
pub open spec fn mv_done(c: &Container, f: &Container, mob_id: MobId, dir: Dir, r: Result<()>) -> bool {
    if !can_try_move(c, mob_id) {
        (r matches Err(Error::NotFoundFailure)) && *f == *c
    } else {
        match move_exit(c, mob_id, dir) {
            None => (r matches Err(Error::InvalidArgumentFailure)) && same_but_outputs(c, f) && told(
                c,
                f,
                mob_id,
                comm::move_not_possible_text(dir),
            ),
            Some(e) => {
                let ms = movers(c, mob_id);
                let n = c.outputs@.len() as int;
                &&& r is Ok
                &&& f.locations@ == moved_locs(c.locations@, ms, e.0)
                &&& f.objects@ == c.objects@ && f.objects.next_id() == c.objects.next_id()
                &&& f.labels@ == c.labels@ && f.items@ == c.items@ && f.mobs@ == c.mobs@
                &&& f.equips@ == c.equips@ && f.rooms@ == c.rooms@ && f.players@ == c.players@
                &&& f.outputs@.len() == n + 3 * ms.len()
                &&& f.outputs@.take(n) == c.outputs@
                &&& forall|j: int|
                    0 <= j < ms.len() ==> #[trigger] move_messages(c, f, ms, j, c.locations@[mob_id.0], e.0, dir)
            },
        }
    }
}

proof fn lemma_filter_prefix(l: Seq<ObjId>, p: spec_fn(ObjId) -> bool, i: int)
    requires
        0 <= i <= l.len(),
    ensures
        l.take(i).filter(p) == l.filter(p).take(l.take(i).filter(p).len() as int),
        l.take(i).filter(p).len() <= l.filter(p).len(),
{
    assert(l =~= l.take(i) + l.skip(i));
    vstd::seq::Seq::filter_distributes_over_add(l.take(i), l.skip(i), p);
    assert(l.filter(p) == l.take(i).filter(p) + l.skip(i).filter(p));
    assert((l.take(i).filter(p) + l.skip(i).filter(p)).take(l.take(i).filter(p).len() as int) =~= l.take(i).filter(p));
}

/// Whether moving the mob in the direction is allowed (see `move_allowed`).
pub fn move_is_allowed(container: &Container, mob_id: MobId, dir: Dir) -> (r: bool)
    requires
        container.wf(),
    ensures
        r == move_allowed(container, mob_id, dir),
{
    let location_id = match container.locations.get(mob_id) {
        Some(id) => id,
        None => {
            return true;
        },
    };
    let mob = match container.mobs.get(mob_id) {
        Some(mob) => mob,
        None => {
            return true;
        },
    };
    let exit = match container.rooms.get(location_id) {
        Some(room) => room.get_exit(&dir),
        None => {
            return true;
        },
    };
    let e = match exit {
        Some(e) => e,
        None => {
            return true;
        },
    };
    if container.rooms.get(e).is_none() || container.labels.get(e).is_none() {
        return false;
    }
    let ghost l = seq![mob_id] + mob.followers@;
    let ghost p = exists_in(container);
    let ghost ms = movers(container, mob_id);
    proof {
        assert(ms == l.filter(p));
        assert(can_try_move(container, mob_id));
        assert(move_exit(container, mob_id, dir) == Some(e));
    }
    if container.objects.exist(mob_id) && mob_id == e {
        proof {
            assert(l[0] == mob_id);
            l.lemma_filter_contains(p, 0);
        }
        return false;
    }
    let mut i: usize = 0;
    while i < mob.followers.len()
        invariant
            i <= mob.followers.len(),
            l == seq![mob_id] + mob.followers@,
            p == exists_in(container),
            ms == l.filter(p),
            ms == movers(container, mob_id),
            can_try_move(container, mob_id),
            move_exit(container, mob_id, dir) == Some(e),
            forall|j: int| 0 <= j < i + 1 ==> #[trigger] p(l[j]) ==> l[j] != e,
        decreases mob.followers.len() - i,
    {
        let x = mob.followers[i];
        proof {
            assert(x == l[i + 1]);
        }
        if container.objects.exist(x) && x == e {
            proof {
                l.lemma_filter_contains(p, i + 1);
                assert(ms.contains(x));
            }
            return false;
        }
        i = i + 1;
    }
    proof {
        assert forall|m: ObjId| #[trigger] ms.contains(m) implies m.0 != e.0 by {
            l.lemma_filter_contains_rev(p, m);
            let k = choose|k: int| 0 <= k < ms.len() && ms[k] == m;
            l.lemma_filter_pred(p, k);
            let j = choose|j: int| 0 <= j < l.len() && l[j] == m;
            assert(p(l[j]));
        }
    }
    true
}

/// The mob moves through the exit of its room in the direction, with its followers that exist:
/// each is told the move and what it sees, and those left and joined are told. `NotFoundFailure`
/// where the mob is nowhere, not a mob or not in a room; `InvalidArgumentFailure`, told, where
/// there is no such exit.
pub fn mv(container: &mut Container, mob_id: MobId, dir: Dir) -> (r: Result<()>)
    requires
        old(container).wf(),
        move_allowed(old(container), mob_id, dir),
    ensures
        final(container).wf(),
        mv_done(old(container), final(container), mob_id, dir, r),
{
    let location_id = match container.locations.get(mob_id) {
        Some(id) => id,
        None => {
            return Err(Error::NotFoundFailure);
        },
    };
    let mut mobs_to_move: Vec<MobId> = Vec::new();
    match container.mobs.get(mob_id) {
        Some(mob) => {
            mobs_to_move.push(mob_id);
            let mut i: usize = 0;
            while i < mob.followers.len()
                invariant
                    i <= mob.followers.len(),
                    mobs_to_move@ == seq![mob_id] + mob.followers@.take(i as int),
                decreases mob.followers.len() - i,
            {
                mobs_to_move.push(mob.followers[i]);
                proof {
                    assert(mobs_to_move@ =~= seq![mob_id] + mob.followers@.take(i + 1));
                }
                i = i + 1;
            }
            proof {
                assert(mob.followers@.take(mob.followers.len() as int) =~= mob.followers@);
            }
        },
        None => {
            return Err(Error::NotFoundFailure);
        },
    };
    let exit = match container.rooms.get(location_id) {
        Some(room) => room.get_exit(&dir),
        None => {
            return Err(Error::NotFoundFailure);
        },
    };
    let exit_room_id = match exit {
        Some(id) => id,
        None => {
            container.outputs.private(mob_id, comm::move_not_possible(&dir));
            proof {
                assert(container.outputs@.take(old(container).outputs@.len() as int) =~= old(container).outputs@);
            }
            return Err(Error::InvalidArgumentFailure);
        },
    };
    let ghost c = *old(container);
    let ghost l = mobs_to_move@;
    let ghost p = exists_in(&c);
    let ghost ms = movers(&c, mob_id);
    let ghost n = c.outputs@.len() as int;
    let mut i: usize = 0;
    proof {
        assert(l.take(0).filter(p) =~= Seq::<ObjId>::empty());
        assert(container.locations@ =~= moved_locs(c.locations@, l.take(0).filter(p), exit_room_id.0));
        assert(container.outputs@.take(n) =~= c.outputs@);
    }
    while i < mobs_to_move.len()
        invariant
            c == *old(container),
            l == mobs_to_move@,
            p == exists_in(&c),
            ms == l.filter(p),
            ms == movers(&c, mob_id),
            n == c.outputs@.len(),
            i <= l.len(),
            c.wf(),
            container.wf(),
            move_allowed(&c, mob_id, dir),
            can_try_move(&c, mob_id),
            move_exit(&c, mob_id, dir) == Some(exit_room_id),
            location_id.0 == c.locations@[mob_id.0],
            container.locations@ == moved_locs(c.locations@, l.take(i as int).filter(p), exit_room_id.0),
            container.objects@ == c.objects@ && container.objects.next_id() == c.objects.next_id(),
            container.labels@ == c.labels@ && container.items@ == c.items@ && container.mobs@ == c.mobs@ && container.extractables@ == c.extractables@,
            container.equips@ == c.equips@ && container.rooms@ == c.rooms@ && container.players@ == c.players@,
            container.rooms.rooms() == c.rooms.rooms(),
            container.outputs@.len() == n + 3 * l.take(i as int).filter(p).len(),
            container.outputs@.take(n) == c.outputs@,
            forall|j: int|
                0 <= j < l.take(i as int).filter(p).len() ==> #[trigger] move_messages(
                    &c,
                    container,
                    ms,
                    j,
                    location_id.0,
                    exit_room_id.0,
                    dir,
                ),
        decreases l.len() - i,
    {
        let m = mobs_to_move[i];
        let ghost before = *container;
        let ghost mi = l.take(i as int).filter(p);
        proof {
            assert(l.take(i + 1) =~= l.take(i as int).push(m));
            l.take(i as int).lemma_filter_push(m, p);
            lemma_filter_prefix(l, p, i as int);
            lemma_filter_prefix(l, p, i + 1);
        }
        if container.objects.exist(m) {
            proof {
                assert(l.take(i + 1).filter(p) == mi.push(m));
                assert(ms.take(mi.len() as int + 1) == mi.push(m));
                assert(ms.take(mi.len() as int + 1)[mi.len() as int] == m);
                assert(ms.contains(m)) by {
                    assert(ms[mi.len() as int] == m);
                }
            }
            proof {
                container.objects.lemma_below(m.0);
            }
            container.locations.set(m, exit_room_id);
            let ml = container.labels.get_label_f(m);
            let look = match look_description_of(container, m) {
                Ok(text) => text,
                Err(_) => {
                    proof {
                        assert(false);
                    }
                    return Err(Error::NotFoundFailure);
                },
            };
            let mut private_msg = comm::move_you_move(&dir);
            private_msg.append("\n\n");
            private_msg.append(look.as_str());
            let enter_room_msg = comm::move_come(ml, &dir.inv());
            let exit_room_msg = comm::move_goes(ml, &dir);
            let ghost mid = *container;
            container.outputs.private(m, private_msg);
            container.outputs.broadcast(Some(m), location_id, exit_room_msg);
            container.outputs.broadcast(Some(m), exit_room_id, enter_room_msg);
            proof {
                let mi2 = mi.push(m);
                assert(container.locations@ =~= moved_locs(c.locations@, mi2, exit_room_id.0)) by {
                    assert forall|k: u32| obj_values(mi2).contains(k) == (obj_values(mi).contains(k) || k == m.0) by {
                        assert(obj_values(mi2) =~= obj_values(mi).push(m.0));
                        if obj_values(mi2).contains(k) && k != m.0 {
                            let x = choose|x: int| 0 <= x < obj_values(mi2).len() && obj_values(mi2)[x] == k;
                            assert(obj_values(mi)[x] == k);
                        }
                        if obj_values(mi).contains(k) {
                            let x = choose|x: int| 0 <= x < obj_values(mi).len() && obj_values(mi)[x] == k;
                            assert(obj_values(mi2)[x] == k);
                        }
                        if k == m.0 {
                            assert(obj_values(mi2)[mi.len() as int] == k);
                        }
                    }
                }
                assert(mid.locations@ == moved_locs(c.locations@, ms.take(mi.len() as int + 1), exit_room_id.0));
                assert(visible_set(&mid, m.0, exit_room_id.0) =~= visible_set_in(&c, mid.locations@, m.0, exit_room_id.0));
                assert forall|j: int| 0 <= j < mi2.len() implies #[trigger] move_messages(
                    &c,
                    container,
                    ms,
                    j,
                    location_id.0,
                    exit_room_id.0,
                    dir,
                ) by {
                    if j < mi.len() {
                        assert(move_messages(&c, &before, ms, j, location_id.0, exit_room_id.0, dir));
                        assert(container.outputs@[n + 3 * j] == before.outputs@[n + 3 * j]);
                        assert(container.outputs@[n + 3 * j + 1] == before.outputs@[n + 3 * j + 1]);
                        assert(container.outputs@[n + 3 * j + 2] == before.outputs@[n + 3 * j + 2]);
                    } else {
                        assert(j == mi.len());
                        assert(ms.take(mi.len() as int + 1)[j] == m);
                        assert(ms[j] == m);
                    }
                }
                assert(container.outputs@.take(n) =~= c.outputs@);
            }
        } else {
            proof {
                assert(l.take(i + 1).filter(p) == mi);
            }
        }
        i = i + 1;
    }
    proof {
        assert(l.take(l.len() as int) =~= l);
    }
    Ok(())
}

} // verus!
