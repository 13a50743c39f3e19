//! The A* search behind `Pathfinder::find_path`, with the invariants that
//! make its result a cheapest walk.
//!
//! The search keeps, for every cell, the cost of the cheapest walk found so
//! far (`g`) and the cell from which that walk enters it (`parent`). The open
//! list holds the cells whose neighbours still have to be examined; it is
//! served by ascending `f = g + h`, the oldest entry first among equals.

use crate::pathfinding::{
    adjacent,
    connects,
    is_shortest,
    is_walk,
    manhattan,
    neighbor,
    reachable,
    step_ok,
    step_target,
    walk_cost,
    Pathfinder,
};
use crate::types::{Direction, Position};
use crate::world::{lemma_cell_index, WorldMap};
use vstd::prelude::*;
use vstd::set_lib::*;

verus! {

/// The cost recorded for a cell that the search has not reached.
pub const UNSEEN: u32 = 0xFFFF_FFFF;

/// An entry of the open list: a cell, the cost of the walk that led to it
/// when the entry was made, and that cost plus the distance left to the goal.
#[derive(Clone, Copy, Debug)]
pub struct OpenNode {
    pub position: Position,
    pub g_cost: u32,
    pub f_cost: u32,
}

pub open spec fn cells(map: &WorldMap) -> int {
    map.width * map.height
}

pub open spec fn on_grid(map: &WorldMap, p: Position) -> bool {
    map.in_bounds(p.0 as int, p.1 as int)
}

/// The index of a cell in `g` and `parent`.
pub open spec fn at(map: &WorldMap, p: Position) -> int {
    map.index_of(p.0 as int, p.1 as int)
}

pub open spec fn enter_cost(map: &WorldMap, p: Position) -> nat {
    map.terrain_at(p.0 as int, p.1 as int).cost()
}

pub open spec fn seen(g: Seq<u32>, k: int) -> bool {
    g[k] != UNSEEN
}

pub open spec fn seen_set(g: Seq<u32>) -> Set<int> {
    Set::new(|k: int| 0 <= k < g.len() && g[k] != UNSEEN)
}

/// The walk recorded for `p` enters it from a reached neighbour, and costs
/// no more than what is recorded for `p`.
pub open spec fn link_ok(map: &WorldMap, g: Seq<u32>, parent: Seq<Position>, p: Position) -> bool {
    let q = parent[at(map, p)];
    &&& on_grid(map, q)
    &&& seen(g, at(map, q))
    &&& step_ok(map, q, p)
    &&& g[at(map, q)] + enter_cost(map, p) <= g[at(map, p)]
}

pub open spec fn tree_ok(map: &WorldMap, start: Position, g: Seq<u32>, parent: Seq<Position>) -> bool {
    &&& g.len() == cells(map)
    &&& parent.len() == cells(map)
    &&& g[at(map, start)] == 0
    &&& forall|p: Position|
        on_grid(map, p) && seen(g, at(map, p)) && p != start ==> #[trigger] link_ok(
            map,
            g,
            parent,
            p,
        )
}

/// No recorded cost exceeds twice the number of reached cells.
pub open spec fn bound_ok(g: Seq<u32>) -> bool {
    forall|k: int| 0 <= k < g.len() && seen(g, k) ==> #[trigger] g[k] + 2 <= 2 * seen_set(g).len()
}

pub open spec fn entry_ok(map: &WorldMap, goal: Position, g: Seq<u32>, e: OpenNode) -> bool {
    &&& on_grid(map, e.position)
    &&& seen(g, at(map, e.position))
    &&& g[at(map, e.position)] <= e.g_cost
    &&& e.g_cost <= 2 * cells(map)
    &&& e.f_cost == e.g_cost + manhattan(e.position, goal)
}

pub open spec fn entries_ok(map: &WorldMap, goal: Position, g: Seq<u32>, open: Seq<OpenNode>) -> bool {
    forall|i: int| 0 <= i < open.len() ==> entry_ok(map, goal, g, #[trigger] open[i])
}

/// The open list holds an entry for `p` that was made at its current cost.
pub open spec fn fresh(map: &WorldMap, g: Seq<u32>, open: Seq<OpenNode>, p: Position) -> bool {
    exists|i: int|
        0 <= i < open.len() && (#[trigger] open[i]).position == p && open[i].g_cost == g[at(
            map,
            p,
        )]
}

/// The neighbour of `p` in direction `d`, if a robot can stand on it, is
/// recorded at no more than the cost of `p` plus the cost of entering it.
pub open spec fn edge_relaxed(map: &WorldMap, g: Seq<u32>, p: Position, d: Direction) -> bool {
    let t = step_target(p, d);
    map.passable(t.0, t.1) ==> g[map.index_of(t.0, t.1)] <= g[at(map, p)] + map.terrain_at(
        t.0,
        t.1,
    ).cost()
}

pub open spec fn settled(map: &WorldMap, g: Seq<u32>, p: Position) -> bool {
    &&& edge_relaxed(map, g, p, Direction::North)
    &&& edge_relaxed(map, g, p, Direction::South)
    &&& edge_relaxed(map, g, p, Direction::East)
    &&& edge_relaxed(map, g, p, Direction::West)
}

/// What holds of the search between any two of its steps. `hole` is the cell
/// whose neighbours are being examined, `done` the number of its directions
/// already dealt with.
pub open spec fn search_inv(
    map: &WorldMap,
    start: Position,
    goal: Position,
    g: Seq<u32>,
    parent: Seq<Position>,
    open: Seq<OpenNode>,
    hole: Option<Position>,
    done: int,
) -> bool {
    &&& map.wf()
    &&& on_grid(map, start)
    &&& on_grid(map, goal)
    &&& tree_ok(map, start, g, parent)
    &&& bound_ok(g)
    &&& entries_ok(map, goal, g, open)
    &&& forall|p: Position|
        on_grid(map, p) && seen(g, at(map, p)) && !fresh(map, g, open, p) && Some(p) != hole
            ==> #[trigger] settled(map, g, p)
    &&& match hole {
        Some(u) => {
            &&& on_grid(map, u)
            &&& seen(g, at(map, u))
            &&& forall|j: int|
                0 <= j < done ==> edge_relaxed(map, g, u, #[trigger] Direction::all_spec()[j])
        },
        None => true,
    }
    &&& seen(g, at(map, goal)) ==> fresh(map, g, open, goal)
}

pub open spec fn weight(v: u32, cap: nat) -> nat {
    if v == UNSEEN {
        cap
    } else {
        v as nat
    }
}

/// The sum of all recorded costs, an unreached cell counting as `cap`. Every
/// improvement of a cost lowers it, which bounds the length of the search.
pub open spec fn potential(g: Seq<u32>, cap: nat) -> nat
    decreases g.len(),
{
    if g.len() == 0 {
        0
    } else {
        potential(g.drop_last(), cap) + weight(g.last(), cap)
    }
}

pub proof fn lemma_potential_update(g: Seq<u32>, k: int, v: u32, cap: nat)
    requires
        0 <= k < g.len(),
        weight(v, cap) < weight(g[k], cap),
    ensures
        potential(g.update(k, v), cap) < potential(g, cap),
    decreases g.len(),
{
    let g2 = g.update(k, v);
    if k == g.len() - 1 {
        assert(g2.drop_last() =~= g.drop_last());
    } else {
        lemma_potential_update(g.drop_last(), k, v, cap);
        assert(g2.drop_last() =~= g.drop_last().update(k, v));
    }
}

pub proof fn lemma_at(map: &WorldMap, p: Position)
    requires
        map.wf(),
        on_grid(map, p),
    ensures
        0 <= at(map, p) < cells(map),
        at(map, p) / (map.width as int) == p.1,
        at(map, p) % (map.width as int) == p.0,
{
    lemma_cell_index(map.width as int, map.height as int, p.0 as int, p.1 as int);
}

pub proof fn lemma_at_distinct(map: &WorldMap, p: Position, q: Position)
    requires
        map.wf(),
        on_grid(map, p),
        on_grid(map, q),
        p != q,
    ensures
        at(map, p) != at(map, q),
{
    lemma_at(map, p);
    lemma_at(map, q);
}

pub proof fn lemma_seen_count(g: Seq<u32>)
    ensures
        seen_set(g).finite(),
        seen_set(g).len() <= g.len(),
{
    lemma_int_range(0, g.len() as int);
    lemma_len_subset(seen_set(g), set_int_range(0, g.len() as int));
}

/// One step changes the distance to any cell by at most one.
pub proof fn lemma_heuristic_step(a: Position, b: Position, goal: Position)
    requires
        adjacent(a, b),
    ensures
        manhattan(a, goal) <= manhattan(b, goal) + 1,
{
}

/// Along a walk, cost so far plus distance left never decreases.
pub proof fn lemma_prefix_bound(map: &WorldMap, p: Seq<Position>, j: int, goal: Position)
    requires
        is_walk(map, p),
        0 <= j < p.len(),
    ensures
        walk_cost(map, p.take(j + 1)) + manhattan(p[j], goal) <= walk_cost(map, p) + manhattan(
            p.last(),
            goal,
        ),
    decreases p.len(),
{
    if j == p.len() - 1 {
        assert(p.take(j + 1) =~= p);
    } else {
        let q = p.drop_last();
        assert(is_walk(map, q)) by {
            assert forall|i: int| 0 <= i < q.len() - 1 implies step_ok(
                map,
                #[trigger] q[i],
                q[i + 1],
            ) by {
                assert(step_ok(map, p[i], p[i + 1]));
            }
        }
        lemma_prefix_bound(map, q, j, goal);
        assert(q.take(j + 1) =~= p.take(j + 1));
        let last = p.len() - 1;
        assert(step_ok(map, p[last - 1], p[last - 1 + 1]));
        lemma_heuristic_step(p[last - 1], p[last], goal);
    }
}

pub proof fn lemma_cost_prepend(map: &WorldMap, q: Position, walk: Seq<Position>)
    requires
        walk.len() > 0,
    ensures
        walk_cost(map, seq![q] + walk) == walk_cost(map, walk) + enter_cost(map, walk[0]),
    decreases walk.len(),
{
    let whole = seq![q] + walk;
    if walk.len() == 1 {
        assert(whole.drop_last() =~= seq![q]);
        assert(walk_cost(map, whole.drop_last()) == 0);
        assert(whole.last() == walk[0]);
    } else {
        lemma_cost_prepend(map, q, walk.drop_last());
        assert(whole.drop_last() =~= seq![q] + walk.drop_last());
        assert(whole.last() == walk.last());
        assert(walk.drop_last()[0] == walk[0]);
    }
}

/// The direction that leads from a cell to a given neighbour.
pub proof fn lemma_direction_of_step(a: Position, b: Position) -> (d: Direction)
    requires
        adjacent(a, b),
    ensures
        step_target(a, d) == (b.0 as int, b.1 as int),
{
    if a.0 == b.0 && b.1 + 1 == a.1 {
        Direction::North
    } else if a.0 == b.0 && a.1 + 1 == b.1 {
        Direction::South
    } else if a.1 == b.1 && a.0 + 1 == b.0 {
        Direction::East
    } else {
        Direction::West
    }
}

/// Every cell of a walk from the start is recorded at no more than the cost
/// of the walk up to it, unless an earlier cell of the walk still waits in
/// the open list at no more than the cost of the walk up to that cell.
pub proof fn lemma_walk_bound(
    map: &WorldMap,
    start: Position,
    goal: Position,
    g: Seq<u32>,
    parent: Seq<Position>,
    open: Seq<OpenNode>,
    p: Seq<Position>,
    k: int,
)
    requires
        search_inv(map, start, goal, g, parent, open, None, 0),
        is_walk(map, p),
        p[0] == start,
        0 <= k < p.len(),
    ensures
        on_grid(map, p[k]),
        (seen(g, at(map, p[k])) && g[at(map, p[k])] <= walk_cost(map, p.take(k + 1))) || (exists|
            j: int,
        |
            0 <= j <= k && on_grid(map, p[j]) && #[trigger] fresh(map, g, open, p[j]) && g[at(
                map,
                p[j],
            )] <= walk_cost(map, p.take(j + 1))),
    decreases k,
{
    if k == 0 {
        assert(p.take(1).len() == 1);
    } else {
        lemma_walk_bound(map, start, goal, g, parent, open, p, k - 1);
        assert(step_ok(map, p[k - 1], p[k - 1 + 1]));
        let a = p[k - 1];
        let b = p[k];
        assert(p.take(k + 1).drop_last() =~= p.take(k));
        assert(p.take(k + 1).last() == b);
        assert(walk_cost(map, p.take(k + 1)) == walk_cost(map, p.take(k)) + enter_cost(map, b));
        if exists|j: int|
            0 <= j <= k - 1 && on_grid(map, p[j]) && #[trigger] fresh(map, g, open, p[j]) && g[at(
                map,
                p[j],
            )] <= walk_cost(map, p.take(j + 1)) {
            let j = choose|j: int|
                0 <= j <= k - 1 && on_grid(map, p[j]) && #[trigger] fresh(map, g, open, p[j])
                    && g[at(map, p[j])] <= walk_cost(map, p.take(j + 1));
            assert(0 <= j <= k && on_grid(map, p[j]) && fresh(map, g, open, p[j]) && g[at(
                map,
                p[j],
            )] <= walk_cost(map, p.take(j + 1)));
        } else if fresh(map, g, open, a) {
            assert(0 <= k - 1 <= k && on_grid(map, p[k - 1]) && fresh(map, g, open, p[k - 1])
                && g[at(map, p[k - 1])] <= walk_cost(map, p.take(k - 1 + 1)));
        } else {
            assert(settled(map, g, a));
            let d = lemma_direction_of_step(a, b);
            assert(edge_relaxed(map, g, a, d));
            lemma_at(map, a);
            lemma_at(map, b);
            lemma_seen_count(g);
            assert(g[at(map, a)] + 2 <= 2 * seen_set(g).len());
        }
    }
}

/// The index of the entry to serve next: the first among those of least `f`.
pub(crate) fn first_min_index(open: &Vec<OpenNode>) -> (best: usize)
    requires
        open.len() > 0,
    ensures
        best < open.len(),
        forall|j: int| 0 <= j < open.len() ==> open[best as int].f_cost <= (#[trigger] open[j]).f_cost,
        forall|j: int| 0 <= j < best ==> open[best as int].f_cost < (#[trigger] open[j]).f_cost,
{
    let mut best: usize = 0;
    let mut i: usize = 1;
    while i < open.len()
        invariant
            1 <= i <= open.len(),
            best < i,
            forall|j: int| 0 <= j < i ==> open[best as int].f_cost <= (#[trigger] open[j]).f_cost,
            forall|j: int| 0 <= j < best ==> open[best as int].f_cost < (#[trigger] open[j]).f_cost,
        decreases open.len() - i,
    {
        if open[i].f_cost < open[best].f_cost {
            best = i;
        }
        i += 1;
    }
    best
}

/// Examines one neighbour of the cell being expanded: where the walk through
/// `cur` is cheaper than what is recorded for the neighbour, records it and
/// puts the neighbour on the open list.
pub(crate) fn relax(
    map: &WorldMap,
    goal: Position,
    cur: Position,
    dir: Direction,
    g: &mut Vec<u32>,
    parent: &mut Vec<Position>,
    open: &mut Vec<OpenNode>,
    Ghost(start): Ghost<Position>,
    Ghost(done): Ghost<int>,
)
    requires
        search_inv(map, start, goal, old(g)@, old(parent)@, old(open)@, Some(cur), done),
        0 <= done < 4,
        dir == Direction::all_spec()[done],
    ensures
        search_inv(map, start, goal, final(g)@, final(parent)@, final(open)@, Some(cur), done + 1),
        potential(final(g)@, (2 * cells(map) + 1) as nat) < potential(
            old(g)@,
            (2 * cells(map) + 1) as nat,
        ) || (final(g)@ == old(g)@ && final(open)@ == old(open)@),
{
    let ghost cap = (2 * cells(map) + 1) as nat;
    let ghost g0 = g@;
    let ghost parent0 = parent@;
    let ghost open0 = open@;
    proof {
        lemma_at(map, cur);
        lemma_seen_count(g0);
        assert(g0[at(map, cur)] + 2 <= 2 * seen_set(g0).len());
    }
    let next = neighbor(map, cur, dir);
    match next {
        None => {
            assert(edge_relaxed(map, g0, cur, dir));
        },
        Some(v) => {
            proof {
                lemma_at(map, v);
                lemma_at_distinct(map, cur, v);
            }
            let terrain = map.get_terrain(v.0, v.1);
            if terrain.is_traversable() {
                let cost = terrain.movement_cost();
                let cur_k = map.cell_index(cur.0, cur.1);
                let v_k = map.cell_index(v.0, v.1);
                let tentative: u32 = g[cur_k] + cost;
                if tentative < g[v_k] {
                    let h = Pathfinder::manhattan_distance_to(v, goal);
                    proof {
                        lemma_at(map, goal);
                        assert(manhattan(v, goal) <= map.width + map.height);
                        assert(map.width <= cells(map) && map.height <= cells(map))
                            by (nonlinear_arith)
                            requires
                                0 < map.width,
                                0 < map.height,
                        ;
                    }
                    g.set(v_k, tentative);
                    parent.set(v_k, cur);
                    open.push(OpenNode { position: v, g_cost: tentative, f_cost: tentative + h });
                    proof {
                        let g1 = g@;
                        let parent1 = parent@;
                        let open1 = open@;
                        assert(g1 == g0.update(v_k as int, tentative));
                        // The count of reached cells grows by one if the
                        // neighbour is new, and stays otherwise.
                        lemma_seen_count(g1);
                        assert(seen_set(g1) =~= seen_set(g0).insert(v_k as int));
                        if g0[v_k as int] == UNSEEN {
                            assert(!seen_set(g0).contains(v_k as int));
                        } else {
                            assert(seen_set(g0).contains(v_k as int));
                        }
                        lemma_potential_update(g0, v_k as int, tentative, cap);
                        assert(v != start);
                        assert(bound_ok(g1)) by {
                            assert forall|k: int| 0 <= k < g1.len() && seen(g1, k) implies #[trigger] g1[k]
                                + 2 <= 2 * seen_set(g1).len() by {
                                if k != v_k {
                                    assert(g0[k] + 2 <= 2 * seen_set(g0).len());
                                }
                            }
                        }
                        assert(tree_ok(map, start, g1, parent1)) by {
                            lemma_at(map, start);
                            lemma_at_distinct(map, start, v);
                            assert forall|p: Position|
                                on_grid(map, p) && seen(g1, at(map, p)) && p != start implies #[trigger] link_ok(
                                map,
                                g1,
                                parent1,
                                p,
                            ) by {
                                lemma_at(map, p);
                                if p == v {
                                    assert(parent1[at(map, p)] == cur);
                                } else {
                                    lemma_at_distinct(map, p, v);
                                    assert(link_ok(map, g0, parent0, p));
                                    let q = parent0[at(map, p)];
                                    lemma_at(map, q);
                                }
                            }
                        }
                        assert(entries_ok(map, goal, g1, open1)) by {
                            assert forall|i: int| 0 <= i < open1.len() implies entry_ok(
                                map,
                                goal,
                                g1,
                                #[trigger] open1[i],
                            ) by {
                                if i < open0.len() {
                                    assert(open1[i] == open0[i]);
                                    assert(entry_ok(map, goal, g0, open0[i]));
                                    lemma_at(map, open0[i].position);
                                }
                            }
                        }
                        assert(fresh(map, g1, open1, v)) by {
                            assert(open1[open0.len() as int].position == v);
                        }
                        assert forall|p: Position|
                            on_grid(map, p) && seen(g1, at(map, p)) && !fresh(map, g1, open1, p)
                                && Some(p) != Some(cur) implies #[trigger] settled(map, g1, p) by {
                            lemma_at(map, p);
                            lemma_at_distinct(map, p, v);
                            if fresh(map, g0, open0, p) {
                                let i = choose|i: int|
                                    0 <= i < open0.len() && (#[trigger] open0[i]).position == p
                                        && open0[i].g_cost == g0[at(map, p)];
                                assert(open1[i] == open0[i]);
                                assert(fresh(map, g1, open1, p));
                            }
                            assert(settled(map, g0, p));
                            lemma_relaxed_kept(map, g0, v_k as int, tentative, p, Direction::North);
                            lemma_relaxed_kept(map, g0, v_k as int, tentative, p, Direction::South);
                            lemma_relaxed_kept(map, g0, v_k as int, tentative, p, Direction::East);
                            lemma_relaxed_kept(map, g0, v_k as int, tentative, p, Direction::West);
                        }
                        assert forall|j: int| 0 <= j < done + 1 implies edge_relaxed(
                            map,
                            g1,
                            cur,
                            #[trigger] Direction::all_spec()[j],
                        ) by {
                            if j < done {
                                assert(edge_relaxed(map, g0, cur, Direction::all_spec()[j]));
                                lemma_relaxed_kept(
                                    map,
                                    g0,
                                    v_k as int,
                                    tentative,
                                    cur,
                                    Direction::all_spec()[j],
                                );
                            }
                        }
                        if seen(g1, at(map, goal)) && goal != v {
                            lemma_at_distinct(map, goal, v);
                            let i = choose|i: int|
                                0 <= i < open0.len() && (#[trigger] open0[i]).position == goal
                                    && open0[i].g_cost == g0[at(map, goal)];
                            assert(open1[i] == open0[i]);
                            assert(fresh(map, g1, open1, goal));
                        }
                    }
                } else {
                    assert(edge_relaxed(map, g0, cur, dir));
                }
            } else {
                assert(edge_relaxed(map, g0, cur, dir));
            }
        },
    }
}

/// Lowering the cost recorded for one cell, other than `p`, keeps every
/// relaxed edge out of `p` relaxed.
pub proof fn lemma_relaxed_kept(
    map: &WorldMap,
    g: Seq<u32>,
    k: int,
    v: u32,
    p: Position,
    d: Direction,
)
    requires
        map.wf(),
        on_grid(map, p),
        g.len() == cells(map),
        0 <= k < g.len(),
        k != at(map, p),
        v <= g[k],
        edge_relaxed(map, g, p, d),
    ensures
        edge_relaxed(map, g.update(k, v), p, d),
{
    let t = step_target(p, d);
    if map.passable(t.0, t.1) {
        lemma_cell_index(map.width as int, map.height as int, t.0, t.1);
        lemma_at(map, p);
    }
}

/// Follows the recorded walk back from the goal and returns it from start to
/// goal.
pub(crate) fn build_path(
    map: &WorldMap,
    start: Position,
    goal: Position,
    g: &Vec<u32>,
    parent: &Vec<Position>,
) -> (path: Vec<Position>)
    requires
        map.wf(),
        on_grid(map, start),
        on_grid(map, goal),
        tree_ok(map, start, g@, parent@),
        seen(g@, at(map, goal)),
    ensures
        connects(map, path@, start, goal),
        walk_cost(map, path@) <= g@[at(map, goal)],
{
    let mut back: Vec<Position> = Vec::new();
    back.push(goal);
    let mut cur = goal;
    let ghost mut walk: Seq<Position> = seq![goal];
    proof {
        lemma_at(map, goal);
    }
    while cur.0 != start.0 || cur.1 != start.1
        invariant
            map.wf(),
            on_grid(map, start),
            on_grid(map, goal),
            tree_ok(map, start, g@, parent@),
            on_grid(map, cur),
            seen(g@, at(map, cur)),
            0 <= at(map, cur) < cells(map),
            back@.len() == walk.len(),
            back@.len() > 0,
            forall|i: int| 0 <= i < walk.len() ==> walk[i] == #[trigger] back@[walk.len() - 1 - i],
            is_walk(map, walk),
            walk[0] == cur,
            walk.last() == goal,
            walk_cost(map, walk) + g@[at(map, cur)] <= g@[at(map, goal)],
        decreases g@[at(map, cur)],
    {
        let k = map.cell_index(cur.0, cur.1);
        let q = parent[k];
        let ghost walk0 = walk;
        let ghost back0 = back@;
        proof {
            assert(cur != start);
            assert(link_ok(map, g@, parent@, cur));
            lemma_at(map, q);
            lemma_cost_prepend(map, q, walk);
            let longer = seq![q] + walk;
            assert(is_walk(map, longer)) by {
                assert forall|i: int| 0 <= i < longer.len() - 1 implies step_ok(
                    map,
                    #[trigger] longer[i],
                    longer[i + 1],
                ) by {
                    if i > 0 {
                        assert(longer[i] == walk[i - 1]);
                        assert(longer[i + 1] == walk[i - 1 + 1]);
                        assert(step_ok(map, walk[i - 1], walk[i - 1 + 1]));
                    }
                }
            }
            assert(map.terrain_at(cur.0 as int, cur.1 as int).traversable());
            walk = longer;
        }
        back.push(q);
        cur = q;
        proof {
            assert forall|i: int| 0 <= i < walk.len() implies walk[i] == #[trigger] back@[walk.len()
                - 1 - i] by {
                if i > 0 {
                    assert(walk0[i - 1] == back0[walk0.len() - 1 - (i - 1)]);
                }
            }
        }
    }
    let mut path: Vec<Position> = Vec::new();
    let mut i: usize = back.len();
    while i > 0
        invariant
            0 <= i <= back@.len(),
            back@.len() == walk.len(),
            path@.len() == back@.len() - i,
            forall|j: int| 0 <= j < walk.len() ==> walk[j] == #[trigger] back@[walk.len() - 1 - j],
            forall|j: int| 0 <= j < path@.len() ==> #[trigger] path@[j] == walk[j],
        decreases i,
    {
        i -= 1;
        let cell = back[i];
        proof {
            let j = path@.len() as int;
            assert(walk[j] == back@[walk.len() - 1 - j]);
        }
        path.push(cell);
    }
    assert(path@ =~= walk);
    path
}

/// No walk leads to a cell off the grid from a cell on it.
pub proof fn lemma_off_grid_unreachable(map: &WorldMap, start: Position, goal: Position)
    requires
        on_grid(map, start),
        !on_grid(map, goal),
    ensures
        !reachable(map, start, goal),
{
    if reachable(map, start, goal) {
        let p = choose|p: Seq<Position>| connects(map, p, start, goal);
        if p.len() > 1 {
            let last = p.len() - 1;
            assert(step_ok(map, p[last - 1], p[last - 1 + 1]));
        }
    }
}

impl Pathfinder {
    /// Finds a cheapest walk from `start` to `goal`.
    ///
    /// The result lists the cells of the walk, `start` first and `goal` last.
    /// It is `None` exactly when no walk exists, as when the goal is walled
    /// in by mountains and canyons or cannot itself be entered.
    pub fn find_path(&self, start: Position, goal: Position, map: &WorldMap) -> (result: Option<
        Vec<Position>,
    >)
        requires
            map.wf(),
            map.in_bounds(start.0 as int, start.1 as int),
        ensures
            match result {
                Some(path) => is_shortest(map, path@, start, goal),
                None => !reachable(map, start, goal),
            },
    {
        if !map.contains(goal.0, goal.1) {
            proof {
                lemma_off_grid_unreachable(map, start, goal);
            }
            return None;
        }
        let n: usize = map.width * map.height;
        let ghost cap = (2 * cells(map) + 1) as nat;
        let mut g: Vec<u32> = Vec::new();
        let mut parent: Vec<Position> = Vec::new();
        let mut filled: usize = 0;
        while filled < n
            invariant
                filled <= n,
                g@.len() == filled,
                parent@.len() == filled,
                forall|k: int| 0 <= k < filled ==> g@[k] == UNSEEN,
            decreases n - filled,
        {
            g.push(UNSEEN);
            parent.push(start);
            filled += 1;
        }
        let start_k = map.cell_index(start.0, start.1);
        g.set(start_k, 0);
        let mut open: Vec<OpenNode> = Vec::new();
        let h0 = Pathfinder::manhattan_distance_to(start, goal);
        proof {
            lemma_at(map, start);
            lemma_at(map, goal);
            assert(map.width <= cells(map) && map.height <= cells(map)) by (nonlinear_arith)
                requires
                    0 < map.width,
                    0 < map.height,
            ;
        }
        open.push(OpenNode { position: start, g_cost: 0, f_cost: h0 });
        proof {
            lemma_seen_count(g@);
            assert(seen_set(g@) =~= Set::<int>::empty().insert(start_k as int));
            assert(tree_ok(map, start, g@, parent@)) by {
                assert forall|p: Position|
                    on_grid(map, p) && seen(g@, at(map, p)) && p != start implies #[trigger] link_ok(
                    map,
                    g@,
                    parent@,
                    p,
                ) by {
                    lemma_at(map, p);
                    lemma_at_distinct(map, p, start);
                }
            }
            assert(fresh(map, g@, open@, start)) by {
                assert(open@[0].position == start);
            }
            assert forall|p: Position|
                on_grid(map, p) && seen(g@, at(map, p)) && !fresh(map, g@, open@, p) implies #[trigger] settled(
                map,
                g@,
                p,
            ) by {
                lemma_at(map, p);
                if p != start {
                    lemma_at_distinct(map, p, start);
                }
            }
            if seen(g@, at(map, goal)) && goal != start {
                lemma_at_distinct(map, goal, start);
            }
        }
        while open.len() > 0
            invariant
                search_inv(map, start, goal, g@, parent@, open@, None, 0),
                cap == 2 * cells(map) + 1,
            decreases potential(g@, cap), open.len(),
        {
            let ghost open_before = open@;
            let ghost g_before = g@;
            let best = first_min_index(&open);
            let current = open.remove(best);
            let cur = current.position;
            assert(entry_ok(map, goal, g@, open_before[best as int]));
            if cur.0 == goal.0 && cur.1 == goal.1 {
                proof {
                    assert forall|other: Seq<Position>| #[trigger]
                        connects(map, other, start, goal) implies g@[at(map, goal)] <= walk_cost(
                        map,
                        other,
                    ) by {
                        let last = other.len() - 1;
                        lemma_walk_bound(map, start, goal, g@, parent@, open_before, other, last);
                        assert(other.take(last + 1) =~= other);
                        if !(seen(g@, at(map, goal)) && g@[at(map, goal)] <= walk_cost(
                            map,
                            other.take(last + 1),
                        )) {
                            let j = choose|j: int|
                                0 <= j <= last && on_grid(map, other[j]) && #[trigger] fresh(
                                    map,
                                    g@,
                                    open_before,
                                    other[j],
                                ) && g@[at(map, other[j])] <= walk_cost(map, other.take(j + 1));
                            let m = choose|m: int|
                                0 <= m < open_before.len() && (#[trigger] open_before[m]).position
                                    == other[j] && open_before[m].g_cost == g@[at(map, other[j])];
                            assert(entry_ok(map, goal, g@, open_before[m]));
                            lemma_prefix_bound(map, other, j, goal);
                        }
                    }
                }
                let path = build_path(map, start, goal, &g, &parent);
                return Some(path);
            }
            proof {
                let open_after = open@;
                assert(entries_ok(map, goal, g@, open_after)) by {
                    assert forall|i: int| 0 <= i < open_after.len() implies entry_ok(
                        map,
                        goal,
                        g@,
                        #[trigger] open_after[i],
                    ) by {
                        if i < best {
                            assert(open_after[i] == open_before[i]);
                        } else {
                            assert(open_after[i] == open_before[i + 1]);
                        }
                    }
                }
                assert forall|p: Position|
                    on_grid(map, p) && seen(g@, at(map, p)) && !fresh(map, g@, open_after, p)
                        && Some(p) != Some(cur) implies #[trigger] settled(map, g@, p) by {
                    if fresh(map, g@, open_before, p) {
                        let m = choose|m: int|
                            0 <= m < open_before.len() && (#[trigger] open_before[m]).position == p
                                && open_before[m].g_cost == g@[at(map, p)];
                        if m < best {
                            assert(open_after[m] == open_before[m]);
                        } else {
                            assert(m > best);
                            assert(open_after[m - 1] == open_before[m]);
                        }
                        assert(fresh(map, g@, open_after, p));
                    }
                }
                if seen(g@, at(map, goal)) {
                    let m = choose|m: int|
                        0 <= m < open_before.len() && (#[trigger] open_before[m]).position == goal
                            && open_before[m].g_cost == g@[at(map, goal)];
                    if m < best {
                        assert(open_after[m] == open_before[m]);
                    } else {
                        assert(m > best);
                        assert(open_after[m - 1] == open_before[m]);
                    }
                    assert(fresh(map, g@, open_after, goal));
                }
            }
            let ghost open_popped = open@;
            let dirs = Direction::all();
            let mut d: usize = 0;
            while d < 4
                invariant
                    0 <= d <= 4,
                    dirs@ == Direction::all_spec(),
                    cap == 2 * cells(map) + 1,
                    search_inv(map, start, goal, g@, parent@, open@, Some(cur), d as int),
                    potential(g@, cap) < potential(g_before, cap) || (g@ == g_before && open@
                        == open_popped),
                decreases 4 - d,
            {
                relax(map, goal, cur, dirs[d], &mut g, &mut parent, &mut open, Ghost(start), Ghost(d as int));
                d += 1;
            }
            proof {
                assert(Direction::all_spec()[0] == Direction::North);
                assert(Direction::all_spec()[1] == Direction::South);
                assert(Direction::all_spec()[2] == Direction::East);
                assert(Direction::all_spec()[3] == Direction::West);
                assert(settled(map, g@, cur));
            }
        }
        proof {
            if reachable(map, start, goal) {
                let p = choose|p: Seq<Position>| connects(map, p, start, goal);
                lemma_walk_bound(map, start, goal, g@, parent@, open@, p, p.len() - 1);
            }
        }
        None
    }
}

} // verus!
