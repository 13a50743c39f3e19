use noise::{NoiseFn, Perlin};
use swarm_sim::robot::Robot;
use swarm_sim::terrain::TerrainType;
use swarm_sim::types::{Direction, ResourceType, RobotType};
use swarm_sim::world::{MapConstants, WorldMap, SAMPLE_SCALE};

fn sample(noise: &Perlin, x: f64, y: f64) -> u32 {
    let normalized = (noise.get([x, y]) + 1.0) / 2.0;
    (normalized * SAMPLE_SCALE as f64) as u32
}

fn noise_fields(width: usize, height: usize, seed: u64) -> (Vec<Vec<u32>>, Vec<Vec<u32>>) {
    let constants = MapConstants::default();
    let frequency = constants.noise_frequency as f64 / SAMPLE_SCALE as f64;
    let terrain_noise = Perlin::new(seed as u32);
    let resource_noise = Perlin::new(seed.wrapping_add(42) as u32);
    let mut terrain = Vec::new();
    let mut resources = Vec::new();
    for y in 0..height {
        let mut terrain_row = Vec::new();
        let mut resource_row = Vec::new();
        for x in 0..width {
            terrain_row.push(sample(&terrain_noise, x as f64 * frequency, y as f64 * frequency));
            resource_row.push(sample(
                &resource_noise,
                x as f64 * frequency * 1.5,
                y as f64 * frequency * 1.5,
            ));
        }
        terrain.push(terrain_row);
        resources.push(resource_row);
    }
    (terrain, resources)
}

fn generate(width: usize, height: usize, seed: u64) -> WorldMap {
    let (terrain, resources) = noise_fields(width, height, seed);
    WorldMap::new(width, height, seed, &terrain, &resources)
}

#[test]
fn test_map_creation() {
    let width = 20;
    let height = 15;
    let seed = 42;

    let map = generate(width, height, seed);

    assert_eq!(map.width, width);
    assert_eq!(map.height, height);
    assert_eq!(map.seed, seed);

    assert!(!map.terrain.is_empty());
    assert_eq!(map.terrain.len(), height);
    assert_eq!(map.terrain[0].len(), width);

    assert!(!map.discovered.is_empty());
    assert_eq!(map.discovered.len(), height);
    assert_eq!(map.discovered[0].len(), width);

    assert!(!map.resources.is_empty());
}

#[test]
fn test_terrain_distribution() {
    let width = 50;
    let height = 50;
    let seed = 42;

    let map = generate(width, height, seed);

    let mut plains = 0;
    let mut hills = 0;
    let mut mountains = 0;
    let mut canyons = 0;

    for y in 0..height {
        for x in 0..width {
            match TerrainType::from(map.terrain[y][x]) {
                TerrainType::Plain => plains += 1,
                TerrainType::Hill => hills += 1,
                TerrainType::Mountain => mountains += 1,
                TerrainType::Canyon => canyons += 1,
            }
        }
    }

    let total = width * height;

    assert!(plains > 0);
    assert!(hills > 0);
    assert!(mountains > 0);
    assert!(canyons > 0);

    assert!((plains as f64 / total as f64) > 0.2);
    assert!((canyons as f64 / total as f64) < 0.3);
}

#[test]
fn test_resource_distribution() {
    let width = 50;
    let height = 50;
    let seed = 42;

    let (terrain, resource_samples) = noise_fields(width, height, seed);
    let map = WorldMap::new(width, height, seed, &terrain, &resource_samples);
    let constants = MapConstants::default();

    let mut energy = 0;
    let mut minerals = 0;
    let mut scientific = 0;

    // A cell of scientific interest is one of the topmost band; it holds
    // energy like the cells of the lowest band.
    for y in 0..height {
        for x in 0..width {
            if let Some((res_type, _)) = map.get_resource((x, y)) {
                if resource_samples[y][x] > constants.scientific_threshold {
                    assert_eq!(res_type, ResourceType::Energy);
                    scientific += 1;
                } else {
                    match res_type {
                        ResourceType::Energy => energy += 1,
                        ResourceType::Mineral => minerals += 1,
                    }
                }
            }
        }
    }

    assert!(energy > 0);
    assert!(minerals > 0);
    assert!(scientific > 0);

    assert!(energy > minerals);
    assert!(minerals > scientific);
}

#[test]
fn test_map_reproducibility() {
    let width = 30;
    let height = 30;
    let seed = 12345;

    let map1 = generate(width, height, seed);
    let map2 = generate(width, height, seed);

    for y in 0..height {
        for x in 0..width {
            assert_eq!(map1.terrain[y][x], map2.terrain[y][x]);
        }
    }

    assert_eq!(map1.resources.len(), map2.resources.len());

    for y in 0..height {
        for x in 0..width {
            if let Some((res_type, amount)) = map1.get_resource((x, y)) {
                let resource2 = map2.get_resource((x, y));
                assert!(resource2.is_some());
                let (res_type2, amount2) = resource2.unwrap();
                assert_eq!(res_type, res_type2);
                assert_eq!(amount, amount2);
            }
        }
    }
}

#[test]
fn test_resource_collection() {
    let mut map = generate(5, 5, 42);
    map.place_resource((2, 2), ResourceType::Energy, 10);
    let mut robot = Robot::new(1, RobotType::Harvester, 2, 2, 100);

    robot.collect_resource(&mut map).unwrap();
    assert_eq!(robot.carrying.unwrap().0, ResourceType::Energy);
    assert_eq!(robot.carrying, Some((ResourceType::Energy, 10)));

    assert!(!map.has_resource((2, 2)));
}

#[test]
fn test_robots_never_leave_map_bounds() {
    let map = generate(10, 10, 42);
    let mut robot = Robot::new(1, RobotType::Explorer, 5, 5, 100);

    for step in 0..100 {
        let directions = [
            Direction::North,
            Direction::South,
            Direction::East,
            Direction::West,
        ];
        let direction = directions[step % 4];

        let _result = robot.move_in_direction(direction, &map);

        assert!(
            robot.x < map.width,
            "Robot left map horizontally at step {}",
            step
        );
        assert!(
            robot.y < map.height,
            "Robot left map vertically at step {}",
            step
        );
    }
}

#[test]
fn test_robots_can_walk_on_resources() {
    let mut map = generate(5, 5, 42);
    map.place_resource((2, 2), ResourceType::Energy, 10);
    map.place_resource((3, 2), ResourceType::Mineral, 15);
    // A cell of scientific interest holds energy.
    map.place_resource((2, 3), ResourceType::Energy, 8);

    map.terrain[1][2] = 0;
    map.terrain[2][2] = 0;
    map.terrain[2][3] = 0;
    map.terrain[3][2] = 0;

    let mut explorer = Robot::new(1, RobotType::Explorer, 1, 1, 100);

    let result = explorer.move_in_direction(Direction::East, &map);
    assert!(
        result.is_ok(),
        "Explorer should be able to walk on energy resource"
    );
    if let Ok(movement_cost) = result {
        explorer.consume_energy_for_movement(movement_cost).unwrap();
    }
    assert_eq!(explorer.x, 2);
    assert_eq!(explorer.y, 1);

    let result = explorer.move_in_direction(Direction::South, &map);
    assert!(
        result.is_ok(),
        "Explorer should be able to walk on energy resource"
    );
    if let Ok(movement_cost) = result {
        explorer.consume_energy_for_movement(movement_cost).unwrap();
    }
    assert_eq!(explorer.x, 2);
    assert_eq!(explorer.y, 2);

    assert!(map.has_resource((2, 2)));

    let mut harvester = Robot::new(2, RobotType::Harvester, 1, 1, 100);

    let movement_cost = harvester.move_in_direction(Direction::East, &map).unwrap();
    harvester
        .consume_energy_for_movement(movement_cost)
        .unwrap();
    let movement_cost = harvester.move_in_direction(Direction::South, &map).unwrap();
    harvester
        .consume_energy_for_movement(movement_cost)
        .unwrap();

    let collect_result = harvester.collect_resource(&mut map);
    assert!(
        collect_result.is_ok(),
        "Harvester should be able to collect energy"
    );
    assert!(harvester.carrying.is_some());
}

#[test]
fn test_robots_can_walk_on_hills_with_extra_cost() {
    let mut map = generate(5, 5, 42);
    map.terrain[2][2] = 1;

    let mut explorer = Robot::new(1, RobotType::Explorer, 2, 1, 100);
    let initial_energy = explorer.energy();

    let movement_cost = explorer.move_in_direction(Direction::South, &map).unwrap();
    assert_eq!(movement_cost, 2);
    assert_eq!(explorer.x, 2);
    assert_eq!(explorer.y, 2);

    explorer.consume_energy_for_movement(movement_cost).unwrap();
    assert_eq!(explorer.energy(), initial_energy - 3);

    let mut harvester = Robot::new(2, RobotType::Harvester, 1, 2, 100);
    let initial_energy_harvester = harvester.energy();

    let movement_cost = harvester.move_in_direction(Direction::East, &map).unwrap();
    assert_eq!(movement_cost, 2);
    assert_eq!(harvester.x, 2);
    assert_eq!(harvester.y, 2);

    harvester
        .consume_energy_for_movement(movement_cost)
        .unwrap();
    assert_eq!(harvester.energy(), initial_energy_harvester - 4);
}

#[test]
fn test_robots_cannot_walk_on_mountains() {
    let mut map = generate(5, 5, 42);
    map.terrain[2][2] = 2;

    let mut explorer = Robot::new(1, RobotType::Explorer, 2, 1, 100);

    let result = explorer.move_in_direction(Direction::South, &map);
    assert!(result.is_err());
    assert_eq!(result.unwrap_err().message(), "Move blocked by terrain");
    assert_eq!(explorer.x, 2);
    assert_eq!(explorer.y, 1);
}
