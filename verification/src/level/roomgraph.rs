use vstd::prelude::*;

use super::rooms::{Room, MAX_ROOMS};
use crate::geom::IVec2;
use crate::rnd::{rnd, Dice};

verus! {

/// Whether rooms `a` and `b` are neighbours in the 3x3 room grid.
pub open spec fn grid_adjacent(a: int, b: int) -> bool {
    &&& 0 <= a < 9
    &&& 0 <= b < 9
    &&& {
        ||| (a / 3 == b / 3 && (a % 3 - b % 3 == 1 || b % 3 - a % 3 == 1))
        ||| (a % 3 == b % 3 && (a / 3 - b / 3 == 1 || b / 3 - a / 3 == 1))
    }
}

/// Whether `m` is the 9x9 adjacency matrix of the 3x3 room grid.
pub open spec fn is_base_adjacency(m: Seq<Vec<u8>>) -> bool {
    &&& m.len() == 9
    &&& forall|i: int| 0 <= i < 9 ==> (#[trigger] m[i])@.len() == 9
    &&& forall|i: int, j: int| 0 <= i < 9 && 0 <= j < 9 ==> (#[trigger] m[i]@[j] == 1 <==> grid_adjacent(i, j))
    &&& forall|i: int, j: int| 0 <= i < 9 && 0 <= j < 9 ==> (#[trigger] m[i]@[j] == 0 || m[i]@[j] == 1)
}

fn zero_matrix() -> (m: Vec<Vec<u8>>)
    ensures
        m@.len() == 9,
        forall|i: int| 0 <= i < 9 ==> (#[trigger] m@[i])@.len() == 9,
        forall|i: int, j: int| 0 <= i < 9 && 0 <= j < 9 ==> #[trigger] m@[i]@[j] == 0,
{
    let mut m: Vec<Vec<u8>> = Vec::new();
    let mut i: usize = 0;
    while i < 9
        invariant
            i <= 9,
            m@.len() == i,
            forall|k: int| 0 <= k < i ==> (#[trigger] m@[k])@.len() == 9,
            forall|k: int, j: int| 0 <= k < i && 0 <= j < 9 ==> #[trigger] m@[k]@[j] == 0,
        decreases 9 - i,
    {
        m.push(zero_row());
        i = i + 1;
    }
    m
}

fn zero_row() -> (r: Vec<u8>)
    ensures
        r@.len() == 9,
        forall|j: int| 0 <= j < 9 ==> #[trigger] r@[j] == 0,
{
    let mut r: Vec<u8> = Vec::new();
    let mut j: usize = 0;
    while j < 9
        invariant
            j <= 9,
            r@.len() == j,
            forall|k: int| 0 <= k < j ==> #[trigger] r@[k] == 0,
        decreases 9 - j,
    {
        r.push(0);
        j = j + 1;
    }
    r
}

/// The fixed adjacency of the 3x3 room grid: `1` where two rooms share a
/// grid edge, `0` elsewhere.
pub fn build_base_adjacency() -> (m: Vec<Vec<u8>>)
    ensures
        is_base_adjacency(m@),
{
    let mut adjacent = zero_matrix();
    let mut idx: usize = 0;
    while idx < 9
        invariant
            idx <= 9,
            adjacent@.len() == 9,
            forall|i: int| 0 <= i < 9 ==> (#[trigger] adjacent@[i])@.len() == 9,
            forall|i: int, j: int| 0 <= i < 9 && 0 <= j < 9 ==>
                (#[trigger] adjacent@[i]@[j] == (if i < idx && grid_adjacent(i, j) { 1u8 } else { 0u8 })),
        decreases 9 - idx,
    {
        let row = idx / 3;
        let col = idx % 3;
        if col > 0 {
            adjacent[idx][idx - 1] = 1;
        }
        if col < 2 {
            adjacent[idx][idx + 1] = 1;
        }
        if row > 0 {
            adjacent[idx][idx - 3] = 1;
        }
        if row < 2 {
            adjacent[idx][idx + 3] = 1;
        }
        proof {
            assert forall|i: int, j: int| 0 <= i < 9 && 0 <= j < 9 implies
                (#[trigger] adjacent@[i]@[j] == (if i < idx + 1 && grid_adjacent(i, j) { 1u8 } else { 0u8 })) by {
                if i == idx {
                    assert(grid_adjacent(i, j) <==> (
                        (col > 0 && j == i - 1) || (col < 2 && j == i + 1) || (row > 0 && j == i - 3) || (row < 2 && j == i + 3)));
                }
            }
        }
        idx = idx + 1;
    }
    adjacent
}

} // verus!

verus! {

/// Number of indices `i` in `[0, n)` satisfying `f`.
pub open spec fn count_if(n: int, f: spec_fn(int) -> bool) -> nat
    decreases n,
{
    if n <= 0 {
        0
    } else {
        count_if(n - 1, f) + (if f(n - 1) { 1nat } else { 0nat })
    }
}

proof fn lemma_count_if_bound(n: int, f: spec_fn(int) -> bool)
    requires
        n >= 0,
    ensures
        count_if(n, f) <= n,
    decreases n,
{
    if n > 0 {
        lemma_count_if_bound(n - 1, f);
    }
}

proof fn lemma_count_if_positive(n: int, f: spec_fn(int) -> bool)
    ensures
        count_if(n, f) > 0 <==> exists|i: int| 0 <= i < n && #[trigger] f(i),
    decreases n,
{
    if n > 0 {
        lemma_count_if_positive(n - 1, f);
        if f(n - 1) {
            assert(0 <= n - 1 < n && f(n - 1));
        } else if count_if(n, f) > 0 {
            let i = choose|i: int| 0 <= i < n - 1 && #[trigger] f(i);
            assert(0 <= i < n && f(i));
        } else {
            assert forall|i: int| 0 <= i < n implies !#[trigger] f(i) by {
                if i < n - 1 {
                } 
            }
        }
    }
}

/// Counts agree when the predicates agree below `n`.
proof fn lemma_count_if_ext(n: int, f: spec_fn(int) -> bool, g: spec_fn(int) -> bool)
    requires
        forall|i: int| 0 <= i < n ==> #[trigger] f(i) == g(i),
    ensures
        count_if(n, f) == count_if(n, g),
    decreases n,
{
    if n > 0 {
        lemma_count_if_ext(n - 1, f, g);
    }
}

/// `g` holds exactly where `f` does, plus at `k`, where `f` fails.
proof fn lemma_count_if_one_more(n: int, f: spec_fn(int) -> bool, g: spec_fn(int) -> bool, k: int)
    requires
        0 <= k < n,
        !f(k),
        g(k),
        forall|i: int| 0 <= i < n && i != k ==> #[trigger] f(i) == g(i),
    ensures
        count_if(n, g) == count_if(n, f) + 1,
    decreases n,
{
    if n - 1 == k {
        lemma_count_if_ext(n - 1, f, g);
    } else {
        lemma_count_if_one_more(n - 1, f, g, k);
    }
}

/// If `f` implies `g` everywhere and `g` counts more, some index has `g`
/// without `f`.
proof fn lemma_count_if_witness(n: int, f: spec_fn(int) -> bool, g: spec_fn(int) -> bool)
    requires
        forall|i: int| 0 <= i < n && #[trigger] f(i) ==> g(i),
        count_if(n, f) < count_if(n, g),
    ensures
        exists|i: int| 0 <= i < n && #[trigger] g(i) && !f(i),
    decreases n,
{
    if n > 0 {
        if g(n - 1) && !f(n - 1) {
            assert(0 <= n - 1 < n && g(n - 1) && !f(n - 1));
        } else {
            lemma_count_if_witness(n - 1, f, g);
            let i = choose|i: int| 0 <= i < n - 1 && #[trigger] g(i) && !f(i);
            assert(0 <= i < n && g(i) && !f(i));
        }
    }
}

/// Pick one of the indices whose flag is set, each with the same chance.
fn pick_candidate(dice: &mut Dice, candidates: &Vec<bool>) -> (picked: usize)
    requires
        candidates@.len() == 9,
        exists|i: int| 0 <= i < 9 && candidates@[i],
    ensures
        picked < 9,
        candidates@[picked as int],
{
    let ghost f = |i: int| 0 <= i < 9 && candidates@[i];
    let mut total: i32 = 0;
    let mut i: usize = 0;
    while i < 9
        invariant
            i <= 9,
            candidates@.len() == 9,
            f == (|i: int| 0 <= i < 9 && candidates@[i]),
            total == count_if(i as int, f),
        decreases 9 - i,
    {
        proof { lemma_count_if_bound(i as int, f); }
        if candidates[i] {
            total = total + 1;
        }
        i = i + 1;
    }
    proof {
        let w = choose|i: int| 0 <= i < 9 && candidates@[i];
        assert(f(w));
        lemma_count_if_positive(9, f);
    }
    let k = rnd(dice, total);
    let mut seen: i32 = 0;
    let mut j: usize = 0;
    while j < 9
        invariant
            j <= 9,
            candidates@.len() == 9,
            f == (|i: int| 0 <= i < 9 && candidates@[i]),
            total == count_if(9, f),
            0 <= k < total,
            seen == count_if(j as int, f),
            seen <= k,
        decreases 9 - j,
    {
        if candidates[j] {
            if seen == k {
                return j;
            }
            seen = seen + 1;
        }
        j = j + 1;
    }
    proof { assert(false); }
    0
}

/// Pick a uniformly random index where `available` is nonzero and `blocked`
/// is zero, or `None` when no such index exists.
fn pick_unconnected_adjacent(dice: &mut Dice, available: &Vec<u8>, blocked: &Vec<u8>) -> (pick: Option<usize>)
    requires
        available@.len() == 9,
        blocked@.len() == 9,
    ensures
        pick is None <==> forall|i: int| 0 <= i < 9 ==> !(available@[i] != 0 && blocked@[i] == 0),
        pick matches Some(i) ==> i < 9 && available@[i as int] != 0 && blocked@[i as int] == 0,
{
    let mut count: i32 = 0;
    let mut pick: Option<usize> = None;
    let mut i: usize = 0;
    while i < 9
        invariant
            i <= 9,
            available@.len() == 9,
            blocked@.len() == 9,
            0 <= count <= i,
            pick is None <==> forall|k: int| 0 <= k < i ==> !(available@[k] != 0 && blocked@[k] == 0),
            pick matches Some(k) ==> k < 9 && available@[k as int] != 0 && blocked@[k as int] == 0,
            pick is None ==> count == 0,
        decreases 9 - i,
    {
        if available[i] != 0 && blocked[i] == 0 {
            count = count + 1;
            if rnd(dice, count) == 0 {
                pick = Some(i);
            }
        }
        i = i + 1;
    }
    pick
}

} // verus!

verus! {

/// Whether room `r` is joined to room `start` through the connections in
/// `conns`, each connection being a two-way passage.
pub open spec fn reach(conns: Seq<(usize, usize)>, start: int, r: int) -> bool
    decreases conns.len(),
{
    if conns.len() == 0 {
        r == start
    } else {
        let e = conns.last();
        let rest = conns.drop_last();
        ||| reach(rest, start, r)
        ||| (e.1 == r && reach(rest, start, e.0 as int))
        ||| (e.0 == r && reach(rest, start, e.1 as int))
    }
}

proof fn lemma_reach_push(conns: Seq<(usize, usize)>, e: (usize, usize), start: int, r: int)
    requires
        reach(conns, start, r),
    ensures
        reach(conns.push(e), start, r),
{
    assert(conns.push(e).drop_last() =~= conns);
}

proof fn lemma_reach_extend(conns: Seq<(usize, usize)>, a: usize, b: usize, start: int)
    requires
        reach(conns, start, a as int),
    ensures
        reach(conns.push((a, b)), start, b as int),
{
    assert(conns.push((a, b)).drop_last() =~= conns);
}

spec fn grid_dist(a: int, b: int) -> int {
    (if a / 3 <= b / 3 { b / 3 - a / 3 } else { a / 3 - b / 3 }) + (if a % 3 <= b % 3 { b % 3 - a % 3 } else { a % 3 - b % 3 })
}

/// The 3x3 grid is connected: any set holding one room but not another has
/// a grid edge leaving it.
proof fn lemma_grid_cut(in_s: spec_fn(int) -> bool, a: int, b: int)
    requires
        0 <= a < 9,
        0 <= b < 9,
        in_s(a),
        !in_s(b),
    ensures
        exists|u: int, v: int| #[trigger] grid_adjacent(u, v) && in_s(u) && !in_s(v),
    decreases grid_dist(a, b),
{
    let next = if a / 3 < b / 3 {
        a + 3
    } else if a / 3 > b / 3 {
        a - 3
    } else if a % 3 < b % 3 {
        a + 1
    } else {
        a - 1
    };
    assert(a != b);
    assert(grid_adjacent(a, next));
    assert(0 <= next < 9);
    if in_s(next) {
        assert(grid_dist(next, b) < grid_dist(a, b));
        lemma_grid_cut(in_s, next, b);
    } else {
        assert(grid_adjacent(a, next) && in_s(a) && !in_s(next));
    }
}

/// Whether every connection joins two neighbouring rooms of the grid.
pub open spec fn all_adjacent(conns: Seq<(usize, usize)>) -> bool {
    forall|k: int| 0 <= k < conns.len() ==> grid_adjacent((#[trigger] conns[k]).0 as int, conns[k].1 as int)
}

/// Whether the connections join every active room of `rooms` to one active
/// room, and so to each other.
pub open spec fn spans_active_rooms(rooms: Seq<Room>, conns: Seq<(usize, usize)>) -> bool {
    exists|start: int| 0 <= start < rooms.len() && !rooms[start].gone
        && forall|r: int| 0 <= r < rooms.len() && !(#[trigger] rooms[r]).gone ==> reach(conns, start, r)
}

/// Whether connection `c` joins rooms `a` and `b`, in either direction.
pub open spec fn joins(c: (usize, usize), a: int, b: int) -> bool {
    (c.0 == a && c.1 == b) || (c.0 == b && c.1 == a)
}

/// Whether no two connections join the same pair of rooms.
pub open spec fn no_repeated_pair(conns: Seq<(usize, usize)>) -> bool {
    forall|i: int, j: int| 0 <= i < j < conns.len() ==> !joins(#[trigger] conns[j], (#[trigger] conns[i]).0 as int, conns[i].1 as int)
}

/// Whether the matrix `isconn` marks both directions of every connection.
spec fn marks_all(isconn: Seq<Vec<u8>>, conns: Seq<(usize, usize)>) -> bool {
    forall|k: int| 0 <= k < conns.len() ==> isconn[(#[trigger] conns[k]).0 as int]@[conns[k].1 as int] != 0
        && isconn[conns[k].1 as int]@[conns[k].0 as int] != 0
}

pub open spec fn active(rooms: Seq<Room>) -> spec_fn(int) -> bool {
    |i: int| 0 <= i < rooms.len() && !rooms[i].gone
}

/// Number of rooms that are not gone.
fn non_gone_count(rooms: &Vec<Room>) -> (n: usize)
    requires
        rooms@.len() == 9,
    ensures
        n == count_if(9, active(rooms@)),
        n <= 9,
{
    let ghost f = active(rooms@);
    let mut n: usize = 0;
    let mut i: usize = 0;
    while i < 9
        invariant
            i <= 9,
            rooms@.len() == 9,
            f == active(rooms@),
            n == count_if(i as int, f),
        decreases 9 - i,
    {
        proof { lemma_count_if_bound(i as int, f); }
        if !rooms[i].is_gone() {
            n = n + 1;
        }
        i = i + 1;
    }
    proof { lemma_count_if_bound(9, f); }
    n
}

/// Pick a room that is not gone, each with the same chance.
fn pick_non_gone(dice: &mut Dice, rooms: &Vec<Room>) -> (picked: usize)
    requires
        rooms@.len() == 9,
        exists|i: int| 0 <= i < 9 && !(#[trigger] rooms@[i]).gone,
    ensures
        picked < 9,
        !rooms@[picked as int].gone,
{
    let mut candidates: Vec<bool> = Vec::new();
    let mut i: usize = 0;
    while i < 9
        invariant
            i <= 9,
            rooms@.len() == 9,
            candidates@.len() == i,
            forall|k: int| 0 <= k < i ==> candidates@[k] == !(#[trigger] rooms@[k]).gone,
        decreases 9 - i,
    {
        candidates.push(!rooms[i].is_gone());
        i = i + 1;
    }
    let w = Ghost(choose|i: int| 0 <= i < 9 && !(#[trigger] rooms@[i]).gone);
    assert(candidates@[w@]);
    pick_candidate(dice, &candidates)
}

} // verus!

verus! {

pub open spec fn in_graph(ing: Seq<u8>) -> spec_fn(int) -> bool {
    |i: int| 0 <= i < 9 && ing[i] != 0
}

pub open spec fn active_in_graph(rooms: Seq<Room>, ing: Seq<u8>) -> spec_fn(int) -> bool {
    |i: int| 0 <= i < rooms.len() && !rooms[i].gone && 0 <= i < 9 && ing[i] != 0
}

/// If `f` implies `g` and some index has `g` without `f`, `f` counts fewer.
proof fn lemma_count_if_strict(n: int, f: spec_fn(int) -> bool, g: spec_fn(int) -> bool, k: int)
    requires
        forall|i: int| 0 <= i < n && #[trigger] f(i) ==> g(i),
        0 <= k < n,
        g(k),
        !f(k),
    ensures
        count_if(n, f) < count_if(n, g),
    decreases n,
{
    lemma_count_if_mono(n - 1, f, g);
    if k < n - 1 {
        lemma_count_if_strict(n - 1, f, g, k);
    }
}

proof fn lemma_count_if_mono(n: int, f: spec_fn(int) -> bool, g: spec_fn(int) -> bool)
    requires
        forall|i: int| 0 <= i < n + 1 && #[trigger] f(i) ==> g(i),
    ensures
        count_if(n, f) <= count_if(n, g),
    decreases n,
{
    if n > 0 {
        lemma_count_if_mono(n - 1, f, g);
    }
}

/// Whether room `i` is in the graph and has a neighbour that is not.
fn has_unreached_neighbour(adjacent: &Vec<Vec<u8>>, ingraph: &Vec<u8>, i: usize) -> (b: bool)
    requires
        is_base_adjacency(adjacent@),
        ingraph@.len() == 9,
        i < 9,
    ensures
        b <==> (ingraph@[i as int] != 0 && exists|j: int| 0 <= j < 9 && #[trigger] adjacent@[i as int]@[j] != 0 && ingraph@[j] == 0),
{
    if ingraph[i] == 0 {
        return false;
    }
    let mut j: usize = 0;
    while j < 9
        invariant
            j <= 9,
            is_base_adjacency(adjacent@),
            ingraph@.len() == 9,
            i < 9,
            ingraph@[i as int] != 0,
            forall|k: int| 0 <= k < j ==> !(#[trigger] adjacent@[i as int]@[k] != 0 && ingraph@[k] == 0),
        decreases 9 - j,
    {
        if adjacent[i][j] != 0 && ingraph[j] == 0 {
            assert(adjacent@[i as int]@[j as int] != 0 && ingraph@[j as int] == 0);
            assert(exists|jj: int| 0 <= jj < 9 && #[trigger] adjacent@[i as int]@[jj] != 0 && ingraph@[jj] == 0);
            return true;
        }
        j = j + 1;
    }
    false
}

/// Decide which room pairs get connected.
///
/// "Gone" rooms are pass-through cells of the 3x3 grid: a passage may run
/// into one so that the rooms around it can still be joined, but only the
/// rooms that are not gone must all be reached. A random spanning walk joins
/// them, then up to four extra passages add loops.
pub fn plan_connections(dice: &mut Dice, rooms: &Vec<Room>, adjacent: &Vec<Vec<u8>>) -> (conns: Vec<(usize, usize)>)
    requires
        rooms@.len() == 9,
        is_base_adjacency(adjacent@),
    ensures
        all_adjacent(conns@),
        no_repeated_pair(conns@),
        count_if(9, active(rooms@)) <= 1 ==> conns@.len() == 0,
        count_if(9, active(rooms@)) >= 1 ==> spans_active_rooms(rooms@, conns@),
{
    let mut connections: Vec<(usize, usize)> = Vec::new();
    let total = non_gone_count(rooms);
    if total == 0 {
        return connections;
    }
    proof { lemma_count_if_positive(9, active(rooms@)); }
    let start = pick_non_gone(dice, rooms);
    if total == 1 {
        proof {
            assert forall|r: int| 0 <= r < rooms@.len() && !(#[trigger] rooms@[r]).gone implies reach(connections@, start as int, r) by {
                if r != start {
                    let g = |i: int| active(rooms@)(i) && i != r;
                    assert forall|i: int| 0 <= i < 9 && #[trigger] g(i) implies active(rooms@)(i) by {}
                    lemma_count_if_strict(9, g, active(rooms@), r);
                    assert(g(start as int));
                    lemma_count_if_positive(9, g);
                }
            }
        }
        return connections;
    }
    let mut ingraph: Vec<u8> = zero_row();
    let mut isconn: Vec<Vec<u8>> = zero_matrix();
    ingraph.set(start, 1);
    let mut reached: usize = 1;
    let mut r1 = start;
    proof {
        lemma_count_if_ext(9, active_in_graph(rooms@, ingraph@), |i: int| i == start);
        assert(count_if(8, |i: int| i == start as int) == (if start < 8 { 1nat } else { 0nat })) by {
            lemma_count_single(8, start as int);
        }
        lemma_count_single(9, start as int);
    }
    while reached < total
        invariant
            rooms@.len() == 9,
            is_base_adjacency(adjacent@),
            ingraph@.len() == 9,
            isconn@.len() == 9,
            forall|i: int| 0 <= i < 9 ==> (#[trigger] isconn@[i])@.len() == 9,
            start < 9,
            !rooms@[start as int].gone,
            ingraph@[start as int] != 0,
            r1 < 9,
            ingraph@[r1 as int] != 0,
            total == count_if(9, active(rooms@)),
            reached == count_if(9, active_in_graph(rooms@, ingraph@)),
            forall|i: int| 0 <= i < 9 && #[trigger] ingraph@[i] != 0 ==> reach(connections@, start as int, i),
            all_adjacent(connections@),
            no_repeated_pair(connections@),
            marks_all(isconn@, connections@),
            forall|k: int| 0 <= k < connections@.len() ==> ingraph@[(#[trigger] connections@[k]).0 as int] != 0
                && ingraph@[connections@[k].1 as int] != 0,
        decreases 9 - count_if(9, in_graph(ingraph@)),
    {
        proof { lemma_count_if_bound(9, in_graph(ingraph@)); }
        let step = pick_unconnected_adjacent(dice, &adjacent[r1], &ingraph);
        let mut from = r1;
        let mut idx: usize = 0;
        match step {
            Some(i) => {
                idx = i;
            },
            None => {
                proof {
                    assert forall|i: int| 0 <= i < 9 && #[trigger] active_in_graph(rooms@, ingraph@)(i) implies active(rooms@)(i) by {}
                    lemma_count_if_witness(9, active_in_graph(rooms@, ingraph@), active(rooms@));
                    let b = choose|i: int| 0 <= i < 9 && #[trigger] active(rooms@)(i) && !active_in_graph(rooms@, ingraph@)(i);
                    lemma_grid_cut(in_graph(ingraph@), start as int, b);
                }
                let mut candidates: Vec<bool> = Vec::new();
                let mut c: usize = 0;
                while c < 9
                    invariant
                        c <= 9,
                        is_base_adjacency(adjacent@),
                        ingraph@.len() == 9,
                        candidates@.len() == c,
                        forall|k: int| 0 <= k < c ==> (#[trigger] candidates@[k] <==> (ingraph@[k] != 0
                            && exists|j: int| 0 <= j < 9 && #[trigger] adjacent@[k]@[j] != 0 && ingraph@[j] == 0)),
                    decreases 9 - c,
                {
                    let h = has_unreached_neighbour(adjacent, &ingraph, c);
                    candidates.push(h);
                    c = c + 1;
                }
                proof {
                    let (u, v) = choose|u: int, v: int| #[trigger] grid_adjacent(u, v) && in_graph(ingraph@)(u) && !in_graph(ingraph@)(v);
                    assert(adjacent@[u]@[v] != 0 && ingraph@[v] == 0);
                    assert(candidates@[u]);
                }
                from = pick_candidate(dice, &candidates);
                match pick_unconnected_adjacent(dice, &adjacent[from], &ingraph) {
                    Some(i) => {
                        idx = i;
                    },
                    None => {
                        proof {
                            let j = choose|j: int| 0 <= j < 9 && #[trigger] adjacent@[from as int]@[j] != 0 && ingraph@[j] == 0;
                        }
                    },
                }
            },
        }
        assert(adjacent@[from as int]@[idx as int] != 0 && ingraph@[idx as int] == 0);
        let ghost old_ing = ingraph@;
        let ghost old_conns = connections@;
        ingraph.set(idx, 1);
        if !rooms[idx].is_gone() {
            reached = reached + 1;
        }
        connections.push((from, idx));
        isconn[from][idx] = 1;
        isconn[idx][from] = 1;
        r1 = idx;
        proof {
            lemma_count_if_one_more(9, in_graph(old_ing), in_graph(ingraph@), idx as int);
            lemma_count_if_bound(9, in_graph(ingraph@));
            if !rooms@[idx as int].gone {
                lemma_count_if_one_more(9, active_in_graph(rooms@, old_ing), active_in_graph(rooms@, ingraph@), idx as int);
            } else {
                lemma_count_if_ext(9, active_in_graph(rooms@, old_ing), active_in_graph(rooms@, ingraph@));
            }
            assert forall|i: int| 0 <= i < 9 && #[trigger] ingraph@[i] != 0 implies reach(connections@, start as int, i) by {
                if i == idx {
                    lemma_reach_extend(old_conns, from, idx, start as int);
                } else {
                    assert(old_ing[i] != 0);
                    lemma_reach_push(old_conns, (from, idx), start as int, i);
                }
            }
            assert(all_adjacent(connections@)) by {
                assert forall|k: int| 0 <= k < connections@.len() implies grid_adjacent((#[trigger] connections@[k]).0 as int, connections@[k].1 as int) by {
                    if k < old_conns.len() {
                        assert(connections@[k] == old_conns[k]);
                    }
                }
            }
            assert forall|i: int, j: int| 0 <= i < j < connections@.len() implies !joins(#[trigger] connections@[j], (#[trigger] connections@[i]).0 as int, connections@[i].1 as int) by {
                if j < old_conns.len() {
                    assert(connections@[j] == old_conns[j]);
                }
                assert(connections@[i] == old_conns[i]);
                assert(old_ing[old_conns[i].0 as int] != 0 && old_ing[old_conns[i].1 as int] != 0);
            }
            assert forall|k: int| 0 <= k < connections@.len() implies ingraph@[(#[trigger] connections@[k]).0 as int] != 0
                && ingraph@[connections@[k].1 as int] != 0 by {
                if k < old_conns.len() {
                    assert(connections@[k] == old_conns[k]);
                }
            }
            assert forall|k: int| 0 <= k < connections@.len() implies isconn@[(#[trigger] connections@[k]).0 as int]@[connections@[k].1 as int] != 0
                && isconn@[connections@[k].1 as int]@[connections@[k].0 as int] != 0 by {
                if k < old_conns.len() {
                    assert(connections@[k] == old_conns[k]);
                }
            }
        }
    }
    proof {
        assert forall|r: int| 0 <= r < rooms@.len() && !(#[trigger] rooms@[r]).gone implies reach(connections@, start as int, r) by {
            if ingraph@[r] == 0 {
                assert forall|i: int| 0 <= i < 9 && #[trigger] active_in_graph(rooms@, ingraph@)(i) implies active(rooms@)(i) by {}
                lemma_count_if_strict(9, active_in_graph(rooms@, ingraph@), active(rooms@), r);
            }
        }
    }
    // Add a few extra connecting passages for loopiness.
    let mut extra = rnd(dice, 5);
    while extra > 0
        invariant
            rooms@.len() == 9,
            is_base_adjacency(adjacent@),
            isconn@.len() == 9,
            forall|i: int| 0 <= i < 9 ==> (#[trigger] isconn@[i])@.len() == 9,
            start < 9,
            !rooms@[start as int].gone,
            forall|r: int| 0 <= r < rooms@.len() && !(#[trigger] rooms@[r]).gone ==> reach(connections@, start as int, r),
            all_adjacent(connections@),
            no_repeated_pair(connections@),
            marks_all(isconn@, connections@),
        decreases extra,
    {
        let r = pick_non_gone(dice, rooms);
        let ghost old_conns = connections@;
        let ghost old_isconn = isconn@;
        if let Some(idx) = pick_unconnected_adjacent(dice, &adjacent[r], &isconn[r]) {
            connections.push((r, idx));
            isconn[r][idx] = 1;
            isconn[idx][r] = 1;
            proof {
                assert forall|q: int| 0 <= q < rooms@.len() && !(#[trigger] rooms@[q]).gone implies reach(connections@, start as int, q) by {
                    lemma_reach_push(old_conns, (r, idx), start as int, q);
                }
                assert forall|k: int| 0 <= k < connections@.len() implies grid_adjacent((#[trigger] connections@[k]).0 as int, connections@[k].1 as int) by {
                    if k < old_conns.len() {
                        assert(connections@[k] == old_conns[k]);
                    }
                }
                assert forall|i: int, j: int| 0 <= i < j < connections@.len() implies !joins(#[trigger] connections@[j], (#[trigger] connections@[i]).0 as int, connections@[i].1 as int) by {
                    if j < old_conns.len() {
                        assert(connections@[j] == old_conns[j]);
                    }
                    assert(connections@[i] == old_conns[i]);
                    assert(old_isconn[old_conns[i].0 as int]@[old_conns[i].1 as int] != 0);
                    assert(old_isconn[old_conns[i].1 as int]@[old_conns[i].0 as int] != 0);
                }
                assert forall|k: int| 0 <= k < connections@.len() implies isconn@[(#[trigger] connections@[k]).0 as int]@[connections@[k].1 as int] != 0
                    && isconn@[connections@[k].1 as int]@[connections@[k].0 as int] != 0 by {
                    if k < old_conns.len() {
                        assert(connections@[k] == old_conns[k]);
                        assert(old_isconn[old_conns[k].0 as int]@[old_conns[k].1 as int] != 0);
                        assert(old_isconn[old_conns[k].1 as int]@[old_conns[k].0 as int] != 0);
                    }
                }
            }
        }
        extra = extra - 1;
    }
    connections
}

proof fn lemma_count_single(n: int, s: int)
    requires
        n >= 0,
    ensures
        count_if(n, |i: int| i == s) == (if 0 <= s < n { 1nat } else { 0nat }),
    decreases n,
{
    if n > 0 {
        lemma_count_single(n - 1, s);
    }
}

} // verus!

verus! {

/// Screen width in columns.
pub const NUMCOLS: i32 = 80;
/// Screen height in rows.
pub const NUMLINES: i32 = 24;
const MAX_ROOM_TRIES: usize = 100;

/// Top-left corner of the 3x3 grid cell that room `i` belongs to.
pub open spec fn cell_top(i: int, bsze: IVec2) -> IVec2 {
    IVec2 { x: ((i % 3) * bsze.x + 1) as i32, y: ((i / 3) * bsze.y) as i32 }
}

/// Grid cell sizes that keep every room computation in range and for which
/// a removed room can always be parked on a visible row.
pub open spec fn valid_cell_size(bsze: IVec2) -> bool {
    &&& 1 <= bsze.x <= 0x0100_0000
    &&& 1 <= bsze.y <= 10
}

fn grid_top_left(i: usize, bsze: IVec2) -> (top: IVec2)
    requires
        i < 9,
        valid_cell_size(bsze),
    ensures
        top == cell_top(i as int, bsze),
        top.x == (i as int % 3) * bsze.x + 1,
        top.y == (i as int / 3) * bsze.y,
        0 <= top.x <= 0x0300_0000,
        0 <= top.y <= 2 * bsze.y,
{
    assert(0 <= (i as int % 3) * bsze.x <= 2 * 0x0100_0000) by (nonlinear_arith)
        requires 0 <= i % 3 <= 2, 1 <= bsze.x <= 0x0100_0000;
    assert(0 <= (i as int / 3) * bsze.y <= 2 * bsze.y) by (nonlinear_arith)
        requires 0 <= i / 3 <= 2, 1 <= bsze.y <= 10;
    IVec2::new((i as i32 % 3) * bsze.x + 1, (i as i32 / 3) * bsze.y)
}

/// Where a removed room may be parked: size `(-80, -24)` and a corner drawn
/// from its grid cell, on a row strictly inside the visible screen.
pub open spec fn off_map_placement(r: Room, top: IVec2, bsze: IVec2) -> bool {
    &&& r.size.x == -NUMCOLS
    &&& r.size.y == -NUMLINES
    &&& crate::rnd::rnd_result(bsze.x - 2, r.position.x - top.x - 1)
    &&& crate::rnd::rnd_result(bsze.y - 2, r.position.y - top.y - 1)
    &&& 0 < r.position.y < NUMLINES - 1
}

/// Where a maze room goes: it fills its grid cell, moved off the top row and
/// the left column of the screen.
pub open spec fn maze_placement(r: Room, top: IVec2, bsze: IVec2) -> bool {
    &&& r.size.x == bsze.x - 1
    &&& r.position.x == (if top.x == 1 { 0 } else { top.x as int })
    &&& r.position.y == (if top.y == 0 { 1 } else { top.y as int })
    &&& r.size.y == (if top.y == 0 { bsze.y - 2 } else { bsze.y - 1 })
}

/// One try at placing a plain room: a random size of at least four cells
/// and a random corner inside its grid cell.
pub open spec fn regular_try(r: Room, top: IVec2, bsze: IVec2) -> bool {
    &&& crate::rnd::rnd_result(bsze.x - 4, r.size.x - 4)
    &&& crate::rnd::rnd_result(bsze.y - 4, r.size.y - 4)
    &&& crate::rnd::rnd_result(bsze.x - r.size.x, r.position.x - top.x)
    &&& crate::rnd::rnd_result(bsze.y - r.size.y, r.position.y - top.y)
}

/// Where a plain room goes: a try that is not on the top row.
pub open spec fn regular_placement(r: Room, top: IVec2, bsze: IVec2) -> bool {
    &&& regular_try(r, top, bsze)
    &&& r.position.y != 0
}

/// Whether room slot `i` of `rooms` was removed by the level's draw and
/// parked off the map (its width is negative), as opposed to a plain room
/// that found no place.
pub open spec fn parked(rooms: Seq<Room>) -> spec_fn(int) -> bool {
    |i: int| 0 <= i < rooms.len() && rooms[i].gone && rooms[i].size.x < 0
}

/// Whether `after` is the layout that `determine_room_layouts` may give
/// room slot `i`, whose record before was `before`.
pub open spec fn laid_out(before: Room, after: Room, i: int, bsze: IVec2, depth: int) -> bool {
    let top = cell_top(i, bsze);
    &&& after == (Room {
            position: after.position,
            size: after.size,
            gone: after.gone,
            dark: after.dark,
            maze: after.maze,
            goldval: 0,
            entry_point_count: 0,
            ..before
        })
    &&& (after.maze ==> !after.gone && !after.dark)
    &&& (depth <= 1 ==> !after.dark && !after.maze)
    &&& (after.maze ==> maze_placement(after, top, bsze))
    &&& (!after.gone && !after.maze ==> regular_placement(after, top, bsze))
    &&& (after.gone ==> off_map_placement(after, top, bsze) || (!after.maze && regular_try(after, top, bsze)
        && after.position.y == 0))
}

/// First map column of grid column `c` (0, 1 or 2) that a room may use.
pub open spec fn col_start(c: int, bx: int) -> int {
    if c == 0 { 0 } else if c == 1 { bx + 1 } else { 2 * bx + 1 }
}

/// One past the last map column of grid column `c` that a room may use.
pub open spec fn col_end(c: int, bx: int) -> int {
    if c == 0 { bx + 1 } else if c == 1 { 2 * bx + 1 } else { 3 * bx + 1 }
}

/// First map row of grid row `r` (0, 1 or 2).
pub open spec fn row_start(r: int, by: int) -> int {
    if r == 0 { 0 } else if r == 1 { by } else { 2 * by }
}

/// One past the last map row of grid row `r`.
pub open spec fn row_end(r: int, by: int) -> int {
    if r == 0 { by } else if r == 1 { 2 * by } else { 3 * by }
}

/// A room that is laid out and not removed lies inside its own grid cell
/// and has a positive size, as long as a cell is at least four by four.
pub proof fn lemma_room_in_cell(before: Room, after: Room, i: int, bsze: IVec2, depth: int)
    requires
        0 <= i < 9,
        valid_cell_size(bsze),
        bsze.x >= 4,
        bsze.y >= 4,
        laid_out(before, after, i, bsze, depth),
        !after.gone,
    ensures
        after.size.x > 0,
        after.size.y > 0,
        col_start(i % 3, bsze.x as int) <= after.position.x,
        after.position.x + after.size.x <= col_end(i % 3, bsze.x as int),
        row_start(i / 3, bsze.y as int) <= after.position.y,
        after.position.y + after.size.y <= row_end(i / 3, bsze.y as int),
{
    let top = cell_top(i, bsze);
    lemma_small_product(i % 3, bsze.x as int);
    lemma_small_product(i / 3, bsze.y as int);
    if i == 0 {
        assert(top.x == 1 && top.y == 0);
    } else if i == 1 {
        assert(top.x == bsze.x + 1 && top.y == 0);
    } else if i == 2 {
        assert(top.x == 2 * bsze.x + 1 && top.y == 0);
    } else if i == 3 {
        assert(top.x == 1 && top.y == bsze.y);
    } else if i == 4 {
        assert(top.x == bsze.x + 1 && top.y == bsze.y);
    } else if i == 5 {
        assert(top.x == 2 * bsze.x + 1 && top.y == bsze.y);
    } else if i == 6 {
        assert(top.x == 1 && top.y == 2 * bsze.y);
    } else if i == 7 {
        assert(top.x == bsze.x + 1 && top.y == 2 * bsze.y);
    } else {
        assert(top.x == 2 * bsze.x + 1 && top.y == 2 * bsze.y);
    }
}

proof fn lemma_small_product(c: int, b: int)
    requires
        0 <= c <= 2,
        0 <= b <= 0x0100_0000,
    ensures
        c * b == (if c == 0 { 0 } else if c == 1 { b } else { 2 * b }),
        0 <= c * b <= 2 * b,
{
    assert(c * b == (if c == 0 { 0 } else if c == 1 { b } else { 2 * b })) by (nonlinear_arith)
        requires 0 <= c <= 2;
}

/// Two rooms laid out in different grid cells, neither removed, do not
/// overlap.
pub proof fn lemma_rooms_apart(b1: Room, r1: Room, i: int, b2: Room, r2: Room, j: int, bsze: IVec2, depth: int)
    requires
        0 <= i < 9,
        0 <= j < 9,
        i != j,
        valid_cell_size(bsze),
        bsze.x >= 4,
        bsze.y >= 4,
        laid_out(b1, r1, i, bsze, depth),
        laid_out(b2, r2, j, bsze, depth),
        !r1.gone,
        !r2.gone,
    ensures
        r1.position.x + r1.size.x <= r2.position.x || r2.position.x + r2.size.x <= r1.position.x
            || r1.position.y + r1.size.y <= r2.position.y || r2.position.y + r2.size.y <= r1.position.y,
{
    lemma_room_in_cell(b1, r1, i, bsze, depth);
    lemma_room_in_cell(b2, r2, j, bsze, depth);
    assert(i % 3 != j % 3 || i / 3 != j / 3);
}

fn place_off_map_room(dice: &mut Dice, room: &mut Room, top: IVec2, bsze: IVec2)
    requires
        valid_cell_size(bsze),
        0 <= top.x <= 0x0300_0000,
        0 <= top.y <= 2 * bsze.y,
    ensures
        off_map_placement(*final(room), top, bsze),
        *final(room) == (Room { position: final(room).position, size: final(room).size, ..*old(room) }),
{
    // Reroll both coordinates until the corner lands strictly inside the
    // visible screen. A corner one row below the cell's top always does,
    // so the counter only bounds a run of misses that cannot happen in
    // practice; past it that row is taken.
    let mut tries: u64 = 0;
    loop
        invariant
            valid_cell_size(bsze),
            0 <= top.x <= 0x0300_0000,
            0 <= top.y <= 2 * bsze.y,
            *room == (Room { position: room.position, size: room.size, ..*old(room) }),
        decreases u64::MAX - tries,
    {
        let dx = rnd(dice, bsze.x - 2);
        let dy = rnd(dice, bsze.y - 2);
        room.position.x = top.x + dx + 1;
        room.position.y = top.y + dy + 1;
        room.size = IVec2::new(-NUMCOLS, -NUMLINES);
        if room.position.y > 0 && room.position.y < NUMLINES - 1 {
            return;
        }
        if tries == u64::MAX {
            room.position.y = top.y + 1;
            return;
        }
        tries = tries + 1;
    }
}

/// Size a maze room to fill its 3x3 grid cell.
fn place_maze_room(room: &mut Room, top: IVec2, bsze: IVec2)
    requires
        valid_cell_size(bsze),
        0 <= top.x <= 0x0300_0000,
        0 <= top.y <= 20,
    ensures
        maze_placement(*final(room), top, bsze),
        *final(room) == (Room { position: final(room).position, size: final(room).size, ..*old(room) }),
{
    room.size.x = bsze.x - 1;
    room.size.y = bsze.y - 1;
    room.position.x = top.x;
    if room.position.x == 1 {
        room.position.x = 0;
    }
    room.position.y = top.y;
    if room.position.y == 0 {
        room.position.y = room.position.y + 1;
        room.size.y = room.size.y - 1;
    }
}

/// Try to fit a plain room in its grid cell, marking it `gone` if it never
/// lands on a valid (non-top-row) position.
fn place_regular_room(dice: &mut Dice, room: &mut Room, top: IVec2, bsze: IVec2)
    requires
        valid_cell_size(bsze),
        0 <= top.x <= 0x0300_0000,
        0 <= top.y <= 20,
        !old(room).gone,
    ensures
        !final(room).gone ==> regular_placement(*final(room), top, bsze),
        final(room).gone ==> regular_try(*final(room), top, bsze) && final(room).position.y == 0,
        *final(room) == (Room { position: final(room).position, size: final(room).size, gone: final(room).gone, ..*old(room) }),
{
    let mut tries: usize = 0;
    while tries < MAX_ROOM_TRIES
        invariant
            valid_cell_size(bsze),
            0 <= top.x <= 0x0300_0000,
            0 <= top.y <= 20,
            !room.gone,
            *room == (Room { position: room.position, size: room.size, ..*old(room) }),
            tries > 0 ==> regular_try(*room, top, bsze) && room.position.y == 0,
        decreases MAX_ROOM_TRIES - tries,
    {
        let sx = rnd(dice, bsze.x - 4) + 4;
        let sy = rnd(dice, bsze.y - 4) + 4;
        room.size.x = sx;
        room.size.y = sy;
        let px = top.x + rnd(dice, bsze.x - sx);
        let py = top.y + rnd(dice, bsze.y - sy);
        room.position.x = px;
        room.position.y = py;
        if room.position.y != 0 {
            return;
        }
        tries = tries + 1;
    }
    room.mark_gone();
}

} // verus!

verus! {

/// Room grid plus adjacency and the planned room connections for one
/// generation pass.
pub struct RoomGraph {
    rooms: Vec<Room>,
    adjacent: Vec<Vec<u8>>,
    connections: Vec<(usize, usize)>,
}

/// The room slots of a level: nine well-formed rooms.
pub open spec fn room_slots(rooms: Seq<Room>) -> bool {
    &&& rooms.len() == MAX_ROOMS
    &&& forall|i: int| 0 <= i < rooms.len() ==> (#[trigger] rooms[i]).wf()
}

fn empty_rooms() -> (rooms: Vec<Room>)
    ensures
        room_slots(rooms@),
        forall|i: int| 0 <= i < 9 ==> {
            let r = #[trigger] rooms@[i];
            &&& r.is_fresh()
            &&& r.position == IVec2 { x: 0, y: 0 }
            &&& r.size == IVec2 { x: 0, y: 0 }
        },
{
    let mut rooms: Vec<Room> = Vec::new();
    let mut i: usize = 0;
    while i < MAX_ROOMS
        invariant
            i <= MAX_ROOMS,
            rooms@.len() == i,
            forall|k: int| 0 <= k < i ==> (#[trigger] rooms@[k]).wf(),
            forall|k: int| 0 <= k < i ==> {
                let r = #[trigger] rooms@[k];
                &&& r.is_fresh()
                &&& r.position == IVec2 { x: 0, y: 0 }
                &&& r.size == IVec2 { x: 0, y: 0 }
            },
        decreases MAX_ROOMS - i,
    {
        rooms.push(Room::new(IVec2::zero(), IVec2::zero()));
        i = i + 1;
    }
    rooms
}

impl RoomGraph {
    /// Nine well-formed room slots and the grid adjacency.
    pub open spec fn wf(&self) -> bool {
        &&& room_slots(self.spec_rooms())
        &&& self.adjacency_ok()
    }

    pub closed spec fn adjacency_ok(&self) -> bool {
        is_base_adjacency(self.adjacent@)
    }

    /// The nine room slots.
    pub closed spec fn spec_rooms(&self) -> Seq<Room> {
        self.rooms@
    }

    /// The planned room connections, in planning order.
    pub closed spec fn spec_connections(&self) -> Seq<(usize, usize)> {
        self.connections@
    }

    /// Build an empty graph with default room slots.
    pub fn new() -> (g: RoomGraph)
        ensures
            g.wf(),
            g.spec_connections().len() == 0,
            forall|i: int| 0 <= i < 9 ==> {
                let r = #[trigger] g.spec_rooms()[i];
                &&& r.is_fresh()
                &&& r.position == IVec2 { x: 0, y: 0 }
                &&& r.size == IVec2 { x: 0, y: 0 }
            },
    {
        Self::with_rooms_and_adjacency(empty_rooms(), build_base_adjacency())
    }

    /// Create a graph around pre-existing room slots and adjacency.
    fn with_rooms_and_adjacency(rooms: Vec<Room>, adjacent: Vec<Vec<u8>>) -> (g: RoomGraph)
        ensures
            g.rooms == rooms,
            g.adjacent == adjacent,
            g.connections@.len() == 0,
    {
        RoomGraph { rooms, adjacent, connections: Vec::new() }
    }

    /// Build and populate room layout/flags for one level generation pass.
    pub fn for_level(dice: &mut Dice, rooms: Vec<Room>, bsze: IVec2, depth: i32) -> (g: RoomGraph)
        requires
            room_slots(rooms@),
            valid_cell_size(bsze),
        ensures
            g.wf(),
            g.spec_connections().len() == 0,
            forall|i: int| 0 <= i < 9 ==> laid_out(#[trigger] rooms@[i], g.spec_rooms()[i], i, bsze, depth as int),
            count_if(9, parked(g.spec_rooms())) < 4,
    {
        let mut graph = Self::with_rooms_and_adjacency(rooms, build_base_adjacency());
        graph.determine_room_layouts(dice, bsze, depth);
        graph
    }

    /// Hand the room slots back.
    pub fn into_rooms(self) -> (rooms: Vec<Room>)
        ensures
            rooms@ == self.spec_rooms(),
    {
        self.rooms
    }

    /// The room slots.
    pub fn rooms(&self) -> (r: &[Room])
        ensures
            r@ == self.spec_rooms(),
    {
        self.rooms.as_slice()
    }

    /// The planned room connections.
    pub fn connections(&self) -> (c: &[(usize, usize)])
        ensures
            c@ == self.spec_connections(),
    {
        self.connections.as_slice()
    }

    /// Plan this level's connections and keep them.
    pub fn generate_connections_for_rooms(&mut self, dice: &mut Dice)
        requires
            old(self).wf(),
        ensures
            final(self).wf(),
            final(self).spec_rooms() == old(self).spec_rooms(),
            all_adjacent(final(self).spec_connections()),
            no_repeated_pair(final(self).spec_connections()),
            count_if(9, active(final(self).spec_rooms())) <= 1 ==> final(self).spec_connections().len() == 0,
            count_if(9, active(final(self).spec_rooms())) >= 1 ==> spans_active_rooms(final(self).spec_rooms(), final(self).spec_connections()),
    {
        self.connections = self.generate_for_rooms(dice);
    }

    /// Reset per-level connection state, keeping the fixed adjacency.
    pub fn reset(&mut self)
        ensures
            final(self).spec_connections().len() == 0,
            final(self).spec_rooms() == old(self).spec_rooms(),
            old(self).wf() ==> final(self).wf(),
    {
        self.connections.clear();
    }

    /// Decide which room pairs get connected, using this graph's room layout.
    ///
    /// This treats "gone" rooms as pass-through cells in the 3x3 grid so
    /// remaining rooms can still be connected through them, but only requires
    /// non-gone rooms to be fully reachable.
    pub fn generate_for_rooms(&self, dice: &mut Dice) -> (conns: Vec<(usize, usize)>)
        requires
            self.wf(),
        ensures
            all_adjacent(conns@),
            no_repeated_pair(conns@),
            count_if(9, active(self.spec_rooms())) <= 1 ==> conns@.len() == 0,
            count_if(9, active(self.spec_rooms())) >= 1 ==> spans_active_rooms(self.spec_rooms(), conns@),
    {
        plan_connections(dice, &self.rooms, &self.adjacent)
    }

    /// Lay out every room slot: a few slots are removed, the rest become
    /// maze, dark or plain rooms placed inside their cell of the 3x3 grid.
    fn determine_room_layouts(&mut self, dice: &mut Dice, bsze: IVec2, depth: i32)
        requires
            old(self).wf(),
            valid_cell_size(bsze),
        ensures
            final(self).wf(),
            final(self).connections == old(self).connections,
            forall|i: int| 0 <= i < 9 ==> laid_out(#[trigger] old(self).rooms@[i], final(self).rooms@[i], i, bsze, depth as int),
            count_if(9, parked(final(self).rooms@)) < 4,
    {
        let ghost before = self.rooms@;
        // Reset per-room state before generating the level layout.
        let mut i: usize = 0;
        while i < MAX_ROOMS
            invariant
                i <= MAX_ROOMS,
                room_slots(self.rooms@),
                is_base_adjacency(self.adjacent@),
                self.connections == old(self).connections,
                before == old(self).rooms@,
                forall|k: int| 0 <= k < 9 ==> #[trigger] self.rooms@[k] == (if k < i {
                    Room { goldval: 0, entry_point_count: 0, gone: false, dark: false, maze: false, ..before[k] }
                } else {
                    before[k]
                }),
            decreases MAX_ROOMS - i,
        {
            self.rooms[i].goldval = 0;
            self.rooms[i].entry_point_count = 0;
            self.rooms[i].clear_flags();
            i = i + 1;
        }
        // Randomly mark a few rooms as removed for this level.
        proof {
            let g = |j: int| 0 <= j < self.rooms@.len() && self.rooms@[j].gone;
            assert forall|j: int| 0 <= j < 9 implies !#[trigger] g(j) by {}
            lemma_count_if_positive(9, g);
        }
        let left_out = rnd(dice, 4);
        let mut k: i32 = 0;
        while k < left_out
            invariant
                0 <= left_out < 4,
                0 <= k <= left_out,
                room_slots(self.rooms@),
                is_base_adjacency(self.adjacent@),
                self.connections == old(self).connections,
                count_if(9, |j: int| 0 <= j < self.rooms@.len() && self.rooms@[j].gone) <= k,
                forall|j: int| 0 <= j < 9 ==> #[trigger] self.rooms@[j] == (Room { gone: self.rooms@[j].gone, ..Room { goldval: 0, entry_point_count: 0, gone: false, dark: false, maze: false, ..before[j] } }),
            decreases left_out - k,
        {
            proof {
                let g = |j: int| 0 <= j < self.rooms@.len() && self.rooms@[j].gone;
                if forall|j: int| 0 <= j < 9 ==> (#[trigger] self.rooms@[j]).gone {
                    assert forall|j: int| 0 <= j < 9 implies #[trigger] g(j) == (0 <= j < 9) by {}
                    lemma_count_if_ext(9, g, |j: int| 0 <= j < 9);
                    lemma_count_all(9);
                }
            }
            let idx = pick_non_gone(dice, &self.rooms);
            let ghost prev = self.rooms@;
            self.rooms[idx].mark_gone();
            proof {
                lemma_count_if_one_more(9, |j: int| 0 <= j < prev.len() && prev[j].gone, |j: int| 0 <= j < self.rooms@.len() && self.rooms@[j].gone, idx as int);
            }
            k = k + 1;
        }
        let ghost mid = self.rooms@;
        proof {
            assert(count_if(9, |j: int| 0 <= j < mid.len() && mid[j].gone) < 4);
        }
        // Compute geometry, sizes, and flags for every room slot.
        let mut i: usize = 0;
        while i < MAX_ROOMS
            invariant
                i <= MAX_ROOMS,
                mid.len() == 9,
                count_if(9, |j: int| 0 <= j < mid.len() && mid[j].gone) < 4,
                forall|j: int| 0 <= j < 9 && (#[trigger] self.rooms@[j]).gone && self.rooms@[j].size.x < 0 ==> mid[j].gone,
                forall|j: int| i <= j < 9 ==> (#[trigger] self.rooms@[j]).gone == mid[j].gone,
                valid_cell_size(bsze),
                room_slots(self.rooms@),
                is_base_adjacency(self.adjacent@),
                self.connections == old(self).connections,
                forall|j: int| 0 <= j < i ==> laid_out(#[trigger] before[j], self.rooms@[j], j, bsze, depth as int),
                forall|j: int| i <= j < 9 ==> #[trigger] self.rooms@[j] == (Room { gone: self.rooms@[j].gone, ..Room { goldval: 0, entry_point_count: 0, gone: false, dark: false, maze: false, ..before[j] } }),
            decreases MAX_ROOMS - i,
        {
            let top = grid_top_left(i, bsze);
            if self.rooms[i].is_gone() {
                place_off_map_room(dice, &mut self.rooms[i], top, bsze);
            } else {
                if rnd(dice, 10) + 1 < depth {
                    self.rooms[i].mark_dark();
                    if rnd(dice, 15) == 0 {
                        self.rooms[i].set_maze();
                    }
                }
                if self.rooms[i].is_maze() {
                    place_maze_room(&mut self.rooms[i], top, bsze);
                } else {
                    place_regular_room(dice, &mut self.rooms[i], top, bsze);
                }
            }
            i = i + 1;
        }
        proof {
            let f = parked(self.rooms@);
            let g = |j: int| 0 <= j < mid.len() && mid[j].gone;
            assert forall|j: int| 0 <= j < 10 && #[trigger] f(j) implies g(j) by {
                assert(self.rooms@[j].gone && self.rooms@[j].size.x < 0);
            }
            lemma_count_if_mono(9, f, g);
        }
    }
}

proof fn lemma_count_all(n: int)
    requires
        n >= 0,
    ensures
        count_if(n, |j: int| 0 <= j < n) == n,
{
    lemma_count_all_below(n, n);
}

proof fn lemma_count_all_below(m: int, n: int)
    requires
        0 <= m <= n,
    ensures
        count_if(m, |j: int| 0 <= j < n) == m,
    decreases m,
{
    if m > 0 {
        lemma_count_all_below(m - 1, n);
    }
}

} // verus!
