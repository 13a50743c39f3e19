//! Shortest paths on the grid.
//!
//! Robots move between 4-neighbours. Entering a cell costs what its terrain
//! costs; mountains and canyons cannot be entered at all.

use crate::rng::random_index;
use crate::types::{Direction, Position};
use crate::world::WorldMap;
use vstd::prelude::*;

verus! {

/// Manhattan distance between two cells.
pub open spec fn manhattan(a: Position, b: Position) -> nat {
    let dx = if a.0 > b.0 {
        a.0 - b.0
    } else {
        b.0 - a.0
    };
    let dy = if a.1 > b.1 {
        a.1 - b.1
    } else {
        b.1 - a.1
    };
    (dx + dy) as nat
}

/// The cell one step from `from` in direction `dir`, as integers; it may lie
/// off the grid.
pub open spec fn step_target(from: Position, dir: Direction) -> (int, int) {
    (from.0 + dir.delta().0, from.1 + dir.delta().1)
}

/// `b` is one of the four neighbours of `a`.
pub open spec fn adjacent(a: Position, b: Position) -> bool {
    (a.0 == b.0 && (a.1 + 1 == b.1 || b.1 + 1 == a.1)) || (a.1 == b.1 && (a.0 + 1 == b.0 || b.0
        + 1 == a.0))
}

/// A robot standing on `a` may step onto `b`.
pub open spec fn step_ok(map: &WorldMap, a: Position, b: Position) -> bool {
    adjacent(a, b) && map.passable(b.0 as int, b.1 as int)
}

/// A walk is a non-empty sequence of cells in which every cell after the
/// first can be stepped onto from its predecessor. The first cell is where
/// the robot already stands and is not examined.
pub open spec fn is_walk(map: &WorldMap, path: Seq<Position>) -> bool {
    &&& path.len() > 0
    &&& forall|i: int| 0 <= i < path.len() - 1 ==> step_ok(map, #[trigger] path[i], path[i + 1])
}

/// The movement cost of a walk: the terrain costs of all cells entered.
pub open spec fn walk_cost(map: &WorldMap, path: Seq<Position>) -> nat
    decreases path.len(),
{
    if path.len() <= 1 {
        0
    } else {
        walk_cost(map, path.drop_last()) + map.terrain_at(
            path.last().0 as int,
            path.last().1 as int,
        ).cost()
    }
}

/// `path` is a walk that leads from `start` to `goal`.
pub open spec fn connects(map: &WorldMap, path: Seq<Position>, start: Position, goal: Position) -> bool {
    is_walk(map, path) && path[0] == start && path.last() == goal
}

/// Some walk leads from `start` to `goal`.
pub open spec fn reachable(map: &WorldMap, start: Position, goal: Position) -> bool {
    exists|path: Seq<Position>| connects(map, path, start, goal)
}

/// `path` leads from `start` to `goal`, and no walk between them is cheaper.
pub open spec fn is_shortest(map: &WorldMap, path: Seq<Position>, start: Position, goal: Position) -> bool {
    &&& connects(map, path, start, goal)
    &&& forall|other: Seq<Position>| #[trigger]
        connects(map, other, start, goal) ==> walk_cost(map, path) <= walk_cost(map, other)
}

/// Among the first `n` directions of `Direction::all_spec()`, those that
/// lead from `from` onto a cell a robot can stand on, in that order.
pub open spec fn safe_prefix(map: &WorldMap, from: Position, n: nat) -> Seq<Direction>
    decreases n,
{
    if n == 0 {
        Seq::empty()
    } else {
        let d = Direction::all_spec()[n - 1];
        let rest = safe_prefix(map, from, (n - 1) as nat);
        if map.passable(step_target(from, d).0, step_target(from, d).1) {
            rest.push(d)
        } else {
            rest
        }
    }
}

/// The directions that lead from `from` onto a cell a robot can stand on.
pub open spec fn safe_directions(map: &WorldMap, from: Position) -> Seq<Direction> {
    safe_prefix(map, from, 4)
}

/// A direction is among the safe ones exactly when it leads onto a cell a
/// robot can stand on.
pub proof fn lemma_safe_directions(map: &WorldMap, from: Position, d: Direction)
    ensures
        safe_directions(map, from).contains(d) <==> map.passable(
            step_target(from, d).0,
            step_target(from, d).1,
        ),
{
    lemma_safe_prefix(map, from, 4, d);
    assert(Direction::all_spec()[0] == Direction::North);
    assert(Direction::all_spec()[1] == Direction::South);
    assert(Direction::all_spec()[2] == Direction::East);
    assert(Direction::all_spec()[3] == Direction::West);
}

pub proof fn lemma_safe_prefix(map: &WorldMap, from: Position, n: nat, d: Direction)
    requires
        n <= 4,
    ensures
        safe_prefix(map, from, n).contains(d) <==> (exists|i: int|
            0 <= i < n && #[trigger] Direction::all_spec()[i] == d && map.passable(
                step_target(from, d).0,
                step_target(from, d).1,
            )),
    decreases n,
{
    if n > 0 {
        let last = Direction::all_spec()[n - 1];
        let rest = safe_prefix(map, from, (n - 1) as nat);
        lemma_safe_prefix(map, from, (n - 1) as nat, d);
        let ok = map.passable(step_target(from, last).0, step_target(from, last).1);
        if ok {
            assert(rest.push(last).last() == last);
            assert forall|x: Direction| rest.push(last).contains(x) <==> (rest.contains(x) || x
                == last) by {
                if rest.contains(x) {
                    let i = choose|i: int| 0 <= i < rest.len() && rest[i] == x;
                    assert(rest.push(last)[i] == x);
                }
                if x == last {
                    assert(rest.push(last)[rest.len() as int] == x);
                }
            }
        }
        if safe_prefix(map, from, n).contains(d) {
            if ok && d == last {
                assert(Direction::all_spec()[n - 1] == d);
            } else {
                let i = choose|i: int|
                    0 <= i < n - 1 && #[trigger] Direction::all_spec()[i] == d && map.passable(
                        step_target(from, d).0,
                        step_target(from, d).1,
                    );
                assert(0 <= i < n && Direction::all_spec()[i] == d);
            }
        }
    }
}

/// The direction of the step from `a` to its neighbour `b`.
pub open spec fn direction_between(a: Position, b: Position) -> Option<Direction> {
    if a.0 == b.0 && b.1 + 1 == a.1 {
        Some(Direction::North)
    } else if a.0 == b.0 && a.1 + 1 == b.1 {
        Some(Direction::South)
    } else if a.1 == b.1 && a.0 + 1 == b.0 {
        Some(Direction::East)
    } else if a.1 == b.1 && b.0 + 1 == a.0 {
        Some(Direction::West)
    } else {
        None
    }
}

/// The neighbour of `from` in direction `dir`, if it lies on the grid.
pub fn neighbor(map: &WorldMap, from: Position, dir: Direction) -> (next: Option<Position>)
    ensures
        match next {
            Some(p) => {
                &&& map.in_bounds(p.0 as int, p.1 as int)
                &&& (p.0 as int, p.1 as int) == step_target(from, dir)
            },
            None => !map.in_bounds(step_target(from, dir).0, step_target(from, dir).1),
        },
{
    match dir {
        Direction::North => {
            if from.1 > 0 && from.1 - 1 < map.height && from.0 < map.width {
                Some((from.0, from.1 - 1))
            } else {
                None
            }
        },
        Direction::South => {
            if from.1 < usize::MAX && from.1 + 1 < map.height && from.0 < map.width {
                Some((from.0, from.1 + 1))
            } else {
                None
            }
        },
        Direction::East => {
            if from.0 < usize::MAX && from.0 + 1 < map.width && from.1 < map.height {
                Some((from.0 + 1, from.1))
            } else {
                None
            }
        },
        Direction::West => {
            if from.0 > 0 && from.0 - 1 < map.width && from.1 < map.height {
                Some((from.0 - 1, from.1))
            } else {
                None
            }
        },
    }
}

/// Stateless searcher for cheapest walks on a map.
pub struct Pathfinder;

impl Pathfinder {
    pub fn new() -> (p: Pathfinder) {
        Pathfinder
    }

    /// Manhattan distance, saturating at `u32::MAX`.
    pub fn manhattan_distance_to(current: Position, target: Position) -> (d: u32)
        ensures
            d == if manhattan(current, target) <= u32::MAX {
                manhattan(current, target)
            } else {
                u32::MAX as nat
            },
    {
        let dx: usize = if current.0 > target.0 {
            current.0 - target.0
        } else {
            target.0 - current.0
        };
        let dy: usize = if current.1 > target.1 {
            current.1 - target.1
        } else {
            target.1 - current.1
        };
        let limit: usize = 0xFFFF_FFFF;
        if dx > limit || dy > limit - dx {
            u32::MAX
        } else {
            (dx + dy) as u32
        }
    }

    /// The distance estimate that guides the search.
    pub fn heuristic(&self, a: Position, b: Position) -> (d: u32)
        ensures
            d == if manhattan(a, b) <= u32::MAX {
                manhattan(a, b)
            } else {
                u32::MAX as nat
            },
    {
        Pathfinder::manhattan_distance_to(a, b)
    }

    /// The first step of a cheapest walk from `current` to `target`.
    ///
    /// `None` when the robot already stands on the target, and when no walk
    /// leads there.
    pub fn get_next_move(&self, current: Position, target: Position, map: &WorldMap) -> (step:
        Option<Direction>)
        requires
            map.wf(),
            map.in_bounds(current.0 as int, current.1 as int),
        ensures
            step.is_some() <==> (current != target && reachable(map, current, target)),
            match step {
                Some(d) => exists|path: Seq<Position>|
                    #![trigger is_shortest(map, path, current, target)]
                    is_shortest(map, path, current, target) && path.len() > 1 && step_target(
                        current,
                        d,
                    ) == (path[1].0 as int, path[1].1 as int),
                None => true,
            },
    {
        match self.find_path(current, target, map) {
            Some(path) => {
                proof {
                    if current == target {
                        lemma_cost_at_least_steps(map, path@);
                        let single = seq![current];
                        assert(connects(map, single, current, target));
                        assert(walk_cost(map, single) == 0);
                    }
                }
                if path.len() > 1 {
                    let next = path[1];
                    proof {
                        assert(step_ok(map, path@[0int], path@[0int + 1]));
                    }
                    let d = direction_to(current, next);
                    match d {
                        Some(dir) => {
                            assert(is_shortest(map, path@, current, target));
                            Some(dir)
                        },
                        None => None,
                    }
                } else {
                    None
                }
            },
            None => None,
        }
    }

    /// A direction, chosen at random, that leads from `(current_x, current_y)`
    /// onto a cell a robot can stand on. `None` exactly when there is none.
    pub fn get_safe_random_direction_from_position(
        map: &WorldMap,
        current_x: usize,
        current_y: usize,
    ) -> (choice: Option<Direction>)
        requires
            map.wf(),
        ensures
            match choice {
                Some(d) => map.passable(
                    step_target((current_x, current_y), d).0,
                    step_target((current_x, current_y), d).1,
                ),
                None => safe_directions(map, (current_x, current_y)).len() == 0,
            },
    {
        let valid = Pathfinder::safe_directions_from(map, (current_x, current_y));
        if valid.len() == 0 {
            None
        } else {
            let index = random_index(valid.len());
            let choice = Pathfinder::pick_direction(&valid, index);
            proof {
                lemma_safe_directions(map, (current_x, current_y), valid@[index as int]);
            }
            choice
        }
    }

    /// The directions that lead from `from` onto a cell a robot can stand on,
    /// in the order north, south, east, west.
    pub fn safe_directions_from(map: &WorldMap, from: Position) -> (valid: Vec<Direction>)
        requires
            map.wf(),
        ensures
            valid@ == safe_directions(map, from),
    {
        let dirs = Direction::all();
        let mut valid: Vec<Direction> = Vec::new();
        let mut i: usize = 0;
        while i < 4
            invariant
                0 <= i <= 4,
                map.wf(),
                dirs@ == Direction::all_spec(),
                valid@ == safe_prefix(map, from, i as nat),
            decreases 4 - i,
        {
            let d = dirs[i];
            match neighbor(map, from, d) {
                Some(p) => {
                    if map.is_passable(p.0, p.1) {
                        valid.push(d);
                    }
                },
                None => {},
            }
            i += 1;
        }
        valid
    }

    /// The candidate at `index`, if there is one.
    pub fn pick_direction(candidates: &Vec<Direction>, index: usize) -> (choice: Option<Direction>)
        ensures
            choice == if index < candidates@.len() {
                Some(candidates@[index as int])
            } else {
                None
            },
    {
        if index < candidates.len() {
            Some(candidates[index])
        } else {
            None
        }
    }
}

/// Every step of a walk costs at least one.
pub proof fn lemma_cost_at_least_steps(map: &WorldMap, path: Seq<Position>)
    requires
        is_walk(map, path),
    ensures
        walk_cost(map, path) >= path.len() - 1,
    decreases path.len(),
{
    if path.len() > 1 {
        let q = path.drop_last();
        assert(is_walk(map, q)) by {
            assert forall|i: int| 0 <= i < q.len() - 1 implies step_ok(
                map,
                #[trigger] q[i],
                q[i + 1],
            ) by {
                assert(step_ok(map, path[i], path[i + 1]));
            }
        }
        lemma_cost_at_least_steps(map, q);
        let last = path.len() - 1;
        assert(step_ok(map, path[last - 1], path[last - 1 + 1]));
    }
}

/// The direction of the step from a cell to one of its neighbours.
pub fn direction_to(from: Position, to: Position) -> (d: Option<Direction>)
    ensures
        d == direction_between(from, to),
        adjacent(from, to) ==> d.is_some(),
        match d {
            Some(dir) => step_target(from, dir) == (to.0 as int, to.1 as int),
            None => true,
        },
{
    if from.0 == to.0 && to.1 < usize::MAX && to.1 + 1 == from.1 {
        Some(Direction::North)
    } else if from.0 == to.0 && from.1 < usize::MAX && from.1 + 1 == to.1 {
        Some(Direction::South)
    } else if from.1 == to.1 && from.0 < usize::MAX && from.0 + 1 == to.0 {
        Some(Direction::East)
    } else if from.1 == to.1 && to.0 < usize::MAX && to.0 + 1 == from.0 {
        Some(Direction::West)
    } else {
        None
    }
}

} // verus!
