use swarm_sim::pathfinding::{direction_to, neighbor, Pathfinder};
use swarm_sim::terrain::TerrainType;
use swarm_sim::types::Direction;
use swarm_sim::world::WorldMap;

fn flat(width: usize, height: usize) -> WorldMap {
    let samples = vec![vec![0u32; width]; height];
    WorldMap::new(width, height, 7, &samples, &samples)
}

fn cost_of(map: &WorldMap, path: &[(usize, usize)]) -> u32 {
    path.iter()
        .skip(1)
        .map(|&(x, y)| map.get_terrain(x, y).movement_cost())
        .sum()
}

fn is_walk(map: &WorldMap, path: &[(usize, usize)]) -> bool {
    path.windows(2).all(|w| {
        let (a, b) = (w[0], w[1]);
        let near = (a.0 == b.0 && (a.1 + 1 == b.1 || b.1 + 1 == a.1))
            || (a.1 == b.1 && (a.0 + 1 == b.0 || b.0 + 1 == a.0));
        near && map.is_passable(b.0, b.1)
    })
}

/// Cheapest cost by relaxing every edge until nothing changes.
fn brute_force(map: &WorldMap, start: (usize, usize), goal: (usize, usize)) -> Option<u32> {
    let mut best = vec![vec![u32::MAX; map.width]; map.height];
    best[start.1][start.0] = 0;
    let mut changed = true;
    while changed {
        changed = false;
        for y in 0..map.height {
            for x in 0..map.width {
                if best[y][x] == u32::MAX {
                    continue;
                }
                for d in Direction::all() {
                    if let Some((nx, ny)) = neighbor(map, (x, y), d) {
                        if map.is_passable(nx, ny) {
                            let c = best[y][x] + map.get_terrain(nx, ny).movement_cost();
                            if c < best[ny][nx] {
                                best[ny][nx] = c;
                                changed = true;
                            }
                        }
                    }
                }
            }
        }
    }
    if best[goal.1][goal.0] == u32::MAX {
        None
    } else {
        Some(best[goal.1][goal.0])
    }
}

#[test]
fn manhattan_distance_is_sum_of_offsets() {
    assert_eq!(Pathfinder::manhattan_distance_to((1, 2), (4, 6)), 7);
    assert_eq!(Pathfinder::manhattan_distance_to((4, 6), (1, 2)), 7);
    assert_eq!(Pathfinder::manhattan_distance_to((3, 3), (3, 3)), 0);
    assert_eq!(Pathfinder::new().heuristic((0, 5), (2, 0)), 7);
}

#[test]
fn manhattan_distance_saturates() {
    assert_eq!(
        Pathfinder::manhattan_distance_to((0, 0), (usize::MAX, usize::MAX)),
        u32::MAX
    );
}

#[test]
fn path_to_own_cell_is_that_cell() {
    let map = flat(4, 4);
    let path = Pathfinder::new().find_path((2, 1), (2, 1), &map);
    assert_eq!(path, Some(vec![(2, 1)]));
    assert_eq!(Pathfinder::new().get_next_move((2, 1), (2, 1), &map), None);
}

#[test]
fn ties_are_served_oldest_first() {
    let map = flat(3, 3);
    let path = Pathfinder::new().find_path((0, 0), (1, 1), &map).unwrap();
    assert_eq!(path, vec![(0, 0), (0, 1), (1, 1)]);
    assert_eq!(
        Pathfinder::new().get_next_move((0, 0), (1, 1), &map),
        Some(Direction::South)
    );
}

#[test]
fn path_on_plains_has_manhattan_cost() {
    let map = flat(6, 5);
    let path = Pathfinder::new().find_path((0, 0), (5, 4), &map).unwrap();
    assert_eq!(path.first(), Some(&(0, 0)));
    assert_eq!(path.last(), Some(&(5, 4)));
    assert!(is_walk(&map, &path));
    assert_eq!(cost_of(&map, &path), 9);
    assert_eq!(path.len(), 10);
}

#[test]
fn path_goes_round_a_hill_when_that_is_cheaper() {
    let mut map = flat(3, 3);
    // A wall of hills across the middle row but for its last cell.
    map.set_terrain(0, 1, TerrainType::Hill);
    map.set_terrain(1, 1, TerrainType::Hill);
    let path = Pathfinder::new().find_path((0, 0), (0, 2), &map).unwrap();
    assert!(is_walk(&map, &path));
    assert_eq!(cost_of(&map, &path), 3);
    assert_eq!(path, vec![(0, 0), (0, 1), (0, 2)]);
}

#[test]
fn path_cost_matches_brute_force_on_small_grids() {
    for seed in 0u32..40 {
        let width = 5;
        let height = 4;
        let mut map = flat(width, height);
        let mut state = seed.wrapping_mul(2654435761).wrapping_add(12345);
        for y in 0..height {
            for x in 0..width {
                state = state.wrapping_mul(1664525).wrapping_add(1013904223);
                let terrain = match (state >> 24) % 5 {
                    0 => TerrainType::Mountain,
                    1 => TerrainType::Hill,
                    2 => TerrainType::Canyon,
                    _ => TerrainType::Plain,
                };
                map.set_terrain(x, y, terrain);
            }
        }
        let start = (0, 0);
        let goal = (width - 1, height - 1);
        let found = Pathfinder::new().find_path(start, goal, &map);
        let expected = brute_force(&map, start, goal);
        match found {
            Some(path) => {
                assert_eq!(path.first(), Some(&start));
                assert_eq!(path.last(), Some(&goal));
                assert!(is_walk(&map, &path));
                assert_eq!(Some(cost_of(&map, &path)), expected, "seed {}", seed);
            }
            None => assert_eq!(expected, None, "seed {}", seed),
        }
    }
}

#[test]
fn walled_in_goal_has_no_path() {
    let mut map = flat(5, 5);
    map.set_terrain(2, 1, TerrainType::Mountain);
    map.set_terrain(2, 3, TerrainType::Mountain);
    map.set_terrain(1, 2, TerrainType::Canyon);
    map.set_terrain(3, 2, TerrainType::Canyon);
    assert_eq!(Pathfinder::new().find_path((0, 0), (2, 2), &map), None);
    assert_eq!(Pathfinder::new().get_next_move((0, 0), (2, 2), &map), None);
    // The way out is open: the start is never examined.
    assert!(Pathfinder::new().find_path((2, 2), (0, 0), &map).is_none());
}

#[test]
fn blocked_goal_has_no_path() {
    let mut map = flat(3, 3);
    map.set_terrain(2, 2, TerrainType::Mountain);
    assert_eq!(Pathfinder::new().find_path((0, 0), (2, 2), &map), None);
}

#[test]
fn goal_off_the_grid_has_no_path() {
    let map = flat(3, 3);
    assert_eq!(Pathfinder::new().find_path((0, 0), (3, 0), &map), None);
}

#[test]
fn start_on_blocked_terrain_can_still_leave() {
    let mut map = flat(3, 1);
    map.set_terrain(0, 0, TerrainType::Mountain);
    let path = Pathfinder::new().find_path((0, 0), (2, 0), &map);
    assert_eq!(path, Some(vec![(0, 0), (1, 0), (2, 0)]));
}

#[test]
fn next_move_is_first_step_of_path() {
    let map = flat(4, 1);
    assert_eq!(
        Pathfinder::new().get_next_move((0, 0), (3, 0), &map),
        Some(Direction::East)
    );
    assert_eq!(
        Pathfinder::new().get_next_move((3, 0), (0, 0), &map),
        Some(Direction::West)
    );
    let tall = flat(1, 4);
    assert_eq!(
        Pathfinder::new().get_next_move((0, 3), (0, 0), &tall),
        Some(Direction::North)
    );
}

#[test]
fn neighbor_respects_the_edges() {
    let map = flat(3, 2);
    assert_eq!(neighbor(&map, (0, 0), Direction::North), None);
    assert_eq!(neighbor(&map, (0, 0), Direction::West), None);
    assert_eq!(neighbor(&map, (0, 0), Direction::South), Some((0, 1)));
    assert_eq!(neighbor(&map, (0, 0), Direction::East), Some((1, 0)));
    assert_eq!(neighbor(&map, (2, 1), Direction::East), None);
    assert_eq!(neighbor(&map, (2, 1), Direction::South), None);
}

#[test]
fn direction_between_neighbours() {
    assert_eq!(direction_to((1, 1), (1, 0)), Some(Direction::North));
    assert_eq!(direction_to((1, 1), (1, 2)), Some(Direction::South));
    assert_eq!(direction_to((1, 1), (2, 1)), Some(Direction::East));
    assert_eq!(direction_to((1, 1), (0, 1)), Some(Direction::West));
    assert_eq!(direction_to((1, 1), (2, 2)), None);
    assert_eq!(direction_to((1, 1), (1, 1)), None);
}

#[test]
fn safe_directions_skip_edges_and_blocked_cells() {
    let mut map = flat(3, 3);
    map.set_terrain(1, 0, TerrainType::Mountain);
    map.set_terrain(2, 1, TerrainType::Canyon);
    assert_eq!(
        Pathfinder::safe_directions_from(&map, (1, 1)),
        vec![Direction::South, Direction::West]
    );
    assert_eq!(
        Pathfinder::safe_directions_from(&map, (0, 0)),
        vec![Direction::South]
    );
}

#[test]
fn random_direction_is_a_safe_one() {
    let mut map = flat(3, 3);
    map.set_terrain(1, 0, TerrainType::Mountain);
    map.set_terrain(2, 1, TerrainType::Canyon);
    let mut seen_south = false;
    let mut seen_west = false;
    for _ in 0..200 {
        match Pathfinder::get_safe_random_direction_from_position(&map, 1, 1) {
            Some(Direction::South) => seen_south = true,
            Some(Direction::West) => seen_west = true,
            other => panic!("not a safe direction: {:?}", other),
        }
    }
    assert!(seen_south && seen_west);
}

#[test]
fn single_open_neighbour_is_always_chosen() {
    let mut map = flat(3, 3);
    map.set_terrain(1, 0, TerrainType::Mountain);
    map.set_terrain(1, 2, TerrainType::Mountain);
    map.set_terrain(0, 1, TerrainType::Mountain);
    for _ in 0..20 {
        assert_eq!(
            Pathfinder::get_safe_random_direction_from_position(&map, 1, 1),
            Some(Direction::East)
        );
    }
}

#[test]
fn boxed_in_robot_has_no_direction() {
    let mut map = flat(3, 3);
    map.set_terrain(1, 0, TerrainType::Mountain);
    map.set_terrain(1, 2, TerrainType::Mountain);
    map.set_terrain(0, 1, TerrainType::Canyon);
    map.set_terrain(2, 1, TerrainType::Canyon);
    assert_eq!(
        Pathfinder::get_safe_random_direction_from_position(&map, 1, 1),
        None
    );
    assert!(Pathfinder::safe_directions_from(&map, (1, 1)).is_empty());
}

#[test]
fn pick_direction_takes_the_indexed_candidate() {
    let candidates = vec![Direction::North, Direction::West];
    assert_eq!(Pathfinder::pick_direction(&candidates, 0), Some(Direction::North));
    assert_eq!(Pathfinder::pick_direction(&candidates, 1), Some(Direction::West));
    assert_eq!(Pathfinder::pick_direction(&candidates, 2), None);
}
