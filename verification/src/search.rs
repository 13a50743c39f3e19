//! Looking for the nearest cell of interest around a robot.
//!
//! The search widens a square around the robot one ring at a time and, in
//! the first square that holds a match, takes the match that comes first by
//! column and then by row. It is not a search for the closest match by
//! distance: which of several matches in one square is taken goes by that
//! order alone.

use crate::types::{Position, ResourceType};
use crate::world::WorldMap;
use vstd::prelude::*;

verus! {

/// What a search looks for.
#[derive(Debug, Clone, Copy, PartialEq, Eq)]
pub enum SearchTarget {
    /// A cell that no robot has discovered and that can be entered.
    Unexplored,
    /// A cell that holds a resource of one of the marked kinds.
    Resource { energy: bool, mineral: bool },
    /// A cell of scientific interest: one that holds an energy resource.
    ScientificInterest,
}

impl SearchTarget {
    /// Whether a resource of the given kind is what this search looks for.
    pub open spec fn wants(self, kind: ResourceType) -> bool {
        match self {
            SearchTarget::Unexplored => false,
            SearchTarget::Resource { energy, mineral } => match kind {
                ResourceType::Energy => energy,
                ResourceType::Mineral => mineral,
            },
            SearchTarget::ScientificInterest => kind == ResourceType::Energy,
        }
    }
}

/// The cell `(x, y)` of the grid is what the search looks for.
pub open spec fn cell_matches(map: &WorldMap, target: SearchTarget, x: int, y: int) -> bool {
    match target {
        SearchTarget::Unexplored => !map.discovered_at(x, y) && map.terrain_at(x, y).traversable(),
        _ => match map.resource_at(x, y) {
            Some(resource) => target.wants(resource.0),
            None => false,
        },
    }
}

/// `(x, y)` is a match on the grid, at most `r` columns and `r` rows from
/// the robot.
pub open spec fn hit(map: &WorldMap, target: SearchTarget, robot: Position, r: int, x: int, y: int) -> bool {
    &&& map.in_bounds(x, y)
    &&& robot.0 - r <= x <= robot.0 + r
    &&& robot.1 - r <= y <= robot.1 + r
    &&& cell_matches(map, target, x, y)
}

/// Column first, then row.
pub open spec fn scan_le(a: (int, int), b: (int, int)) -> bool {
    a.0 < b.0 || (a.0 == b.0 && a.1 <= b.1)
}

/// `p` is the match that a scan of the square of radius `r` meets first.
pub open spec fn first_in_square(
    map: &WorldMap,
    target: SearchTarget,
    robot: Position,
    r: int,
    p: Position,
) -> bool {
    &&& hit(map, target, robot, r, p.0 as int, p.1 as int)
    &&& forall|x: int, y: int| #[trigger]
        hit(map, target, robot, r, x, y) ==> scan_le((p.0 as int, p.1 as int), (x, y))
}

/// The square of radius `r` holds no match.
pub open spec fn no_hit(map: &WorldMap, target: SearchTarget, robot: Position, r: int) -> bool {
    forall|x: int, y: int| !#[trigger] hit(map, target, robot, r, x, y)
}

/// `p` is what a search up to radius `limit` finds: the first match of the
/// smallest square, of radius 1 or more, that holds one.
pub open spec fn is_nearest(
    map: &WorldMap,
    target: SearchTarget,
    robot: Position,
    limit: int,
    p: Position,
) -> bool {
    exists|r: int|
        1 <= r <= limit && #[trigger] first_in_square(map, target, robot, r, p) && (r > 1
            ==> no_hit(map, target, robot, r - 1))
}

/// What a search up to radius `limit` finds, if anything.
pub open spec fn nearest(map: &WorldMap, target: SearchTarget, robot: Position, limit: int) -> Option<
    Position,
> {
    if exists|p: Position| is_nearest(map, target, robot, limit, p) {
        Some(choose|p: Position| is_nearest(map, target, robot, limit, p))
    } else {
        None
    }
}

/// A search finds one cell at most.
pub proof fn lemma_nearest_unique(
    map: &WorldMap,
    target: SearchTarget,
    robot: Position,
    limit: int,
    p: Position,
    q: Position,
)
    requires
        is_nearest(map, target, robot, limit, p),
        is_nearest(map, target, robot, limit, q),
    ensures
        p == q,
{
    let rp = choose|r: int|
        1 <= r <= limit && #[trigger] first_in_square(map, target, robot, r, p) && (r > 1
            ==> no_hit(map, target, robot, r - 1));
    let rq = choose|r: int|
        1 <= r <= limit && #[trigger] first_in_square(map, target, robot, r, q) && (r > 1
            ==> no_hit(map, target, robot, r - 1));
    if rp < rq {
        assert(hit(map, target, robot, rq - 1, p.0 as int, p.1 as int));
    } else if rq < rp {
        assert(hit(map, target, robot, rp - 1, q.0 as int, q.1 as int));
    } else {
        assert(hit(map, target, robot, rp, q.0 as int, q.1 as int));
        assert(hit(map, target, robot, rp, p.0 as int, p.1 as int));
    }
}

/// Searches of the map around a robot.
pub struct SearchUtils;

impl SearchUtils {
    /// Whether a cell of the grid is what the search looks for.
    pub fn matches_at(map: &WorldMap, target: SearchTarget, x: usize, y: usize) -> (m: bool)
        requires
            map.wf(),
            map.in_bounds(x as int, y as int),
        ensures
            m == cell_matches(map, target, x as int, y as int),
    {
        match target {
            SearchTarget::Unexplored => {
                !map.discovered[y][x] && map.get_terrain(x, y).is_traversable()
            },
            SearchTarget::Resource { energy, mineral } => {
                match map.get_resource((x, y)) {
                    Some(resource) => match resource.0 {
                        ResourceType::Energy => energy,
                        ResourceType::Mineral => mineral,
                    },
                    None => false,
                }
            },
            SearchTarget::ScientificInterest => {
                match map.get_resource((x, y)) {
                    Some(resource) => match resource.0 {
                        ResourceType::Energy => true,
                        ResourceType::Mineral => false,
                    },
                    None => false,
                }
            },
        }
    }

    /// The first match in the square of radius `r` around the robot, going
    /// through it column by column.
    pub fn scan_square(map: &WorldMap, target: SearchTarget, robot: Position, r: usize) -> (found:
        Option<Position>)
        requires
            map.wf(),
        ensures
            match found {
                Some(p) => first_in_square(map, target, robot, r as int, p),
                None => no_hit(map, target, robot, r as int),
            },
    {
        let x_lo: usize = if robot.0 >= r {
            robot.0 - r
        } else {
            0
        };
        let x_end: usize = if robot.0 < map.width && r < map.width - robot.0 {
            robot.0 + r + 1
        } else {
            map.width
        };
        let y_lo: usize = if robot.1 >= r {
            robot.1 - r
        } else {
            0
        };
        let y_end: usize = if robot.1 < map.height && r < map.height - robot.1 {
            robot.1 + r + 1
        } else {
            map.height
        };
        let mut x = x_lo;
        while x < x_end
            invariant
                map.wf(),
                x_lo <= x,
                x_end <= map.width,
                y_end <= map.height,
                x_lo == if robot.0 >= r {
                    robot.0 - r
                } else {
                    0
                },
                y_lo == if robot.1 >= r {
                    robot.1 - r
                } else {
                    0
                },
                x_end == if robot.0 < map.width && r < map.width - robot.0 {
                    robot.0 + r + 1
                } else {
                    map.width as int
                },
                y_end == if robot.1 < map.height && r < map.height - robot.1 {
                    robot.1 + r + 1
                } else {
                    map.height as int
                },
                forall|cx: int, cy: int| #[trigger] hit(map, target, robot, r as int, cx, cy) ==> cx >= x,
            decreases x_end - x,
        {
            let mut y = y_lo;
            while y < y_end
                invariant
                    map.wf(),
                    x_lo <= x < x_end,
                    y_lo <= y,
                    x_end <= map.width,
                    y_end <= map.height,
                    x_lo == if robot.0 >= r {
                        robot.0 - r
                    } else {
                        0
                    },
                    y_lo == if robot.1 >= r {
                        robot.1 - r
                    } else {
                        0
                    },
                    x_end == if robot.0 < map.width && r < map.width - robot.0 {
                        robot.0 + r + 1
                    } else {
                        map.width as int
                    },
                    y_end == if robot.1 < map.height && r < map.height - robot.1 {
                        robot.1 + r + 1
                    } else {
                        map.height as int
                    },
                    forall|cx: int, cy: int| #[trigger]
                        hit(map, target, robot, r as int, cx, cy) ==> cx >= x && (cx == x ==> cy
                            >= y),
                decreases y_end - y,
            {
                if SearchUtils::matches_at(map, target, x, y) {
                    assert(hit(map, target, robot, r as int, x as int, y as int));
                    return Some((x, y));
                }
                y += 1;
            }
            x += 1;
        }
        None
    }

    /// Searches the squares of radius 1 up to `search_radius` around the
    /// robot, smallest first, and returns the first match met. A radius
    /// below 1 finds nothing.
    pub fn radius_search(
        robot_x: usize,
        robot_y: usize,
        search_radius: i32,
        map: &WorldMap,
        target: SearchTarget,
    ) -> (found: Option<Position>)
        requires
            map.wf(),
        ensures
            found == nearest(map, target, (robot_x, robot_y), search_radius as int),
            match found {
                Some(p) => map.in_bounds(p.0 as int, p.1 as int) && cell_matches(
                    map,
                    target,
                    p.0 as int,
                    p.1 as int,
                ),
                None => forall|r: int|
                    1 <= r <= search_radius ==> #[trigger] no_hit(
                        map,
                        target,
                        (robot_x, robot_y),
                        r,
                    ),
            },
    {
        let robot = (robot_x, robot_y);
        let mut radius: i32 = 1;
        while radius <= search_radius
            invariant
                map.wf(),
                1 <= radius,
                radius <= search_radius + 1 || search_radius < 1,
                robot == (robot_x, robot_y),
                forall|r: int| 1 <= r < radius ==> #[trigger] no_hit(map, target, robot, r),
            decreases search_radius - radius + 1,
        {
            match SearchUtils::scan_square(map, target, robot, radius as usize) {
                Some(p) => {
                    proof {
                        assert(first_in_square(map, target, robot, radius as int, p));
                        assert(is_nearest(map, target, robot, search_radius as int, p));
                        let q = choose|q: Position|
                            is_nearest(map, target, robot, search_radius as int, q);
                        lemma_nearest_unique(map, target, robot, search_radius as int, p, q);
                    }
                    return Some(p);
                },
                None => {},
            }
            if radius == search_radius {
                proof {
                    lemma_nothing_near(map, target, robot, search_radius as int);
                }
                return None;
            }
            radius += 1;
        }
        proof {
            lemma_nothing_near(map, target, robot, search_radius as int);
        }
        None
    }

    /// The nearest resource of one of the allowed kinds, with its kind.
    pub fn find_nearest_resource(
        robot_x: usize,
        robot_y: usize,
        search_radius: i32,
        map: &WorldMap,
        allowed_types: &[ResourceType],
    ) -> (found: Option<(Position, ResourceType)>)
        requires
            map.wf(),
        ensures
            match found {
                Some((p, kind)) => {
                    &&& nearest(
                        map,
                        resource_target(allowed_types@),
                        (robot_x, robot_y),
                        search_radius as int,
                    ) == Some(p)
                    &&& map.resource_at(p.0 as int, p.1 as int).is_some()
                    &&& map.resource_at(p.0 as int, p.1 as int).unwrap().0 == kind
                    &&& allowed_types@.contains(kind)
                },
                None => nearest(
                    map,
                    resource_target(allowed_types@),
                    (robot_x, robot_y),
                    search_radius as int,
                ).is_none(),
            },
    {
        let mut energy = false;
        let mut mineral = false;
        let mut i: usize = 0;
        while i < allowed_types.len()
            invariant
                0 <= i <= allowed_types@.len(),
                energy == allowed_types@.take(i as int).contains(ResourceType::Energy),
                mineral == allowed_types@.take(i as int).contains(ResourceType::Mineral),
            decreases allowed_types.len() - i,
        {
            let ghost before = allowed_types@.take(i as int);
            let ghost after = allowed_types@.take(i + 1);
            proof {
                assert(after =~= before.push(allowed_types@[i as int]));
                assert forall|k: ResourceType| after.contains(k) <==> (before.contains(k) || k
                    == allowed_types@[i as int]) by {
                    if before.contains(k) {
                        let j = choose|j: int| 0 <= j < before.len() && before[j] == k;
                        assert(after[j] == k);
                    }
                    if k == allowed_types@[i as int] {
                        assert(after[i as int] == k);
                    }
                }
            }
            match allowed_types[i] {
                ResourceType::Energy => {
                    energy = true;
                },
                ResourceType::Mineral => {
                    mineral = true;
                },
            }
            i += 1;
        }
        proof {
            assert(allowed_types@.take(allowed_types@.len() as int) =~= allowed_types@);
        }
        let target = SearchTarget::Resource { energy, mineral };
        match SearchUtils::radius_search(robot_x, robot_y, search_radius, map, target) {
            Some(p) => {
                match map.get_resource(p) {
                    Some(resource) => Some((p, resource.0)),
                    None => None,
                }
            },
            None => None,
        }
    }

    /// The nearest cell that is undiscovered and can be entered.
    pub fn find_nearest_unexplored(
        robot_x: usize,
        robot_y: usize,
        search_radius: i32,
        map: &WorldMap,
    ) -> (found: Option<Position>)
        requires
            map.wf(),
        ensures
            found == nearest(
                map,
                SearchTarget::Unexplored,
                (robot_x, robot_y),
                search_radius as int,
            ),
    {
        SearchUtils::radius_search(robot_x, robot_y, search_radius, map, SearchTarget::Unexplored)
    }

    /// The nearest cell of scientific interest.
    pub fn find_nearest_scientific_interest(
        robot_x: usize,
        robot_y: usize,
        search_radius: i32,
        map: &WorldMap,
    ) -> (found: Option<Position>)
        requires
            map.wf(),
        ensures
            found == nearest(
                map,
                SearchTarget::ScientificInterest,
                (robot_x, robot_y),
                search_radius as int,
            ),
    {
        SearchUtils::radius_search(
            robot_x,
            robot_y,
            search_radius,
            map,
            SearchTarget::ScientificInterest,
        )
    }
}

/// The search for resources of the kinds in `allowed`.
pub open spec fn resource_target(allowed: Seq<ResourceType>) -> SearchTarget {
    SearchTarget::Resource {
        energy: allowed.contains(ResourceType::Energy),
        mineral: allowed.contains(ResourceType::Mineral),
    }
}

/// Where no square up to the limit holds a match, the search finds nothing.
pub proof fn lemma_nothing_near(map: &WorldMap, target: SearchTarget, robot: Position, limit: int)
    requires
        forall|r: int| 1 <= r <= limit ==> #[trigger] no_hit(map, target, robot, r),
    ensures
        nearest(map, target, robot, limit).is_none(),
{
    if exists|p: Position| is_nearest(map, target, robot, limit, p) {
        let p = choose|p: Position| is_nearest(map, target, robot, limit, p);
        let r = choose|r: int|
            1 <= r <= limit && #[trigger] first_in_square(map, target, robot, r, p) && (r > 1
                ==> no_hit(map, target, robot, r - 1));
        assert(no_hit(map, target, robot, r));
        assert(hit(map, target, robot, r, p.0 as int, p.1 as int));
    }
}

} // verus!
