use swarm_sim::record::MapRecord;
use swarm_sim::terrain::TerrainType;
use swarm_sim::types::{Direction, ResourceType};
use swarm_sim::world::{classify_resource, classify_terrain, MapConstants, WorldMap};

fn flat(width: usize, height: usize) -> WorldMap {
    let samples = vec![vec![0u32; width]; height];
    WorldMap::new(width, height, 7, &samples, &samples)
}

#[test]
fn terrain_codes_and_rules() {
    assert_eq!(TerrainType::from(0), TerrainType::Plain);
    assert_eq!(TerrainType::from(1), TerrainType::Hill);
    assert_eq!(TerrainType::from(2), TerrainType::Mountain);
    assert_eq!(TerrainType::from(3), TerrainType::Canyon);
    assert_eq!(TerrainType::from(4), TerrainType::Plain);
    assert_eq!(TerrainType::from(255), TerrainType::Plain);
    for terrain in [
        TerrainType::Plain,
        TerrainType::Hill,
        TerrainType::Mountain,
        TerrainType::Canyon,
    ] {
        assert_eq!(TerrainType::from(terrain.code()), terrain);
    }
    assert!(TerrainType::Plain.is_traversable());
    assert!(TerrainType::Hill.is_traversable());
    assert!(!TerrainType::Mountain.is_traversable());
    assert!(!TerrainType::Canyon.is_traversable());
    assert_eq!(TerrainType::Plain.movement_cost(), 1);
    assert_eq!(TerrainType::Hill.movement_cost(), 2);
    assert_eq!(TerrainType::Mountain.movement_cost(), 0);
    assert_eq!(TerrainType::Canyon.movement_cost(), 0);
}

#[test]
fn directions_and_deltas() {
    assert_eq!(Direction::North.to_delta(), (0, -1));
    assert_eq!(Direction::South.to_delta(), (0, 1));
    assert_eq!(Direction::East.to_delta(), (1, 0));
    assert_eq!(Direction::West.to_delta(), (-1, 0));
    assert_eq!(
        Direction::all(),
        vec![Direction::North, Direction::South, Direction::East, Direction::West]
    );
}

#[test]
fn terrain_bands_share_out_all_samples() {
    assert_eq!(classify_terrain(0), TerrainType::Plain);
    assert_eq!(classify_terrain(399_999), TerrainType::Plain);
    assert_eq!(classify_terrain(400_000), TerrainType::Hill);
    assert_eq!(classify_terrain(699_999), TerrainType::Hill);
    assert_eq!(classify_terrain(700_000), TerrainType::Mountain);
    assert_eq!(classify_terrain(849_999), TerrainType::Mountain);
    assert_eq!(classify_terrain(850_000), TerrainType::Canyon);
    assert_eq!(classify_terrain(1_000_000), TerrainType::Canyon);
    assert_eq!(classify_terrain(u32::MAX), TerrainType::Canyon);
}

#[test]
fn resource_bands_and_least_amounts() {
    let constants = MapConstants::default();
    assert_eq!(constants.max_resource_amount, 100);
    assert_eq!(classify_resource(600_000, &constants), None);
    assert_eq!(classify_resource(600_001, &constants), Some((ResourceType::Energy, 30)));
    assert_eq!(classify_resource(700_000, &constants), Some((ResourceType::Energy, 30)));
    assert_eq!(classify_resource(700_001, &constants), Some((ResourceType::Mineral, 20)));
    assert_eq!(classify_resource(850_000, &constants), Some((ResourceType::Mineral, 20)));
    assert_eq!(classify_resource(850_001, &constants), Some((ResourceType::Energy, 10)));
}

#[test]
fn generated_terrain_follows_the_samples() {
    let terrain = vec![
        vec![0, 400_000, 700_000],
        vec![850_000, 399_999, 1_000_000],
    ];
    let resources = vec![vec![0; 3]; 2];
    let map = WorldMap::new(3, 2, 5, &terrain, &resources);
    assert_eq!(map.terrain, vec![vec![0, 1, 2], vec![3, 0, 3]]);
    assert_eq!(map.get_terrain(1, 0), TerrainType::Hill);
    assert_eq!(map.get_terrain(0, 1), TerrainType::Canyon);
    assert_eq!(map.resource_count(), 0);
    assert_eq!(map.seed, 5);
    for y in 0..2 {
        for x in 0..3 {
            assert!(!map.is_discovered(x, y));
        }
    }
}

#[test]
fn generated_resources_follow_the_samples() {
    let terrain = vec![vec![0; 4]; 2];
    let resources = vec![
        vec![0, 650_000, 750_000, 900_000],
        vec![600_000, 999_999, 700_001, 10],
    ];
    let map = WorldMap::new(4, 2, 99, &terrain, &resources);
    assert_eq!(map.resource_count(), 5);
    assert_eq!(map.get_resource((0, 0)), None);
    assert_eq!(map.get_resource((0, 1)), None);
    assert_eq!(map.get_resource((3, 1)), None);
    let (kind, amount) = map.get_resource((1, 0)).unwrap();
    assert_eq!(kind, ResourceType::Energy);
    assert!((30..=100).contains(&amount));
    let (kind, amount) = map.get_resource((2, 0)).unwrap();
    assert_eq!(kind, ResourceType::Mineral);
    assert!((20..=100).contains(&amount));
    let (kind, amount) = map.get_resource((3, 0)).unwrap();
    assert_eq!(kind, ResourceType::Energy);
    assert!((10..=100).contains(&amount));
    assert_eq!(map.get_resource((1, 1)).unwrap().0, ResourceType::Energy);
    assert_eq!(map.get_resource((2, 1)).unwrap().0, ResourceType::Mineral);
}

#[test]
fn generated_amounts_are_drawn_not_fixed() {
    let terrain = vec![vec![0; 20]; 20];
    let resources = vec![vec![900_000; 20]; 20];
    let map = WorldMap::new(20, 20, 3, &terrain, &resources);
    assert_eq!(map.resource_count(), 400);
    let mut amounts = Vec::new();
    for y in 0..20 {
        for x in 0..20 {
            let (kind, amount) = map.get_resource((x, y)).unwrap();
            assert_eq!(kind, ResourceType::Energy);
            assert!((10..=100).contains(&amount));
            amounts.push(amount);
        }
    }
    assert!(amounts.iter().any(|&a| a != 10));
    assert!(amounts.iter().any(|&a| a != 100));
    assert!(amounts.iter().any(|&a| a != amounts[0]));
}

#[test]
fn same_seed_and_samples_give_the_same_map() {
    let terrain: Vec<Vec<u32>> = (0..12)
        .map(|y| (0..9).map(|x| ((x * 131 + y * 977) % 1000) * 1000).collect())
        .collect();
    let resources: Vec<Vec<u32>> = (0..12)
        .map(|y| (0..9).map(|x| ((x * 617 + y * 389) % 1000) * 1000).collect())
        .collect();
    let first = WorldMap::new(9, 12, 2024, &terrain, &resources);
    let second = WorldMap::new(9, 12, 2024, &terrain, &resources);
    assert_eq!(first.terrain, second.terrain);
    assert_eq!(first.resources, second.resources);
    assert!(first.resource_count() > 0);
    let other_seed = WorldMap::new(9, 12, 2025, &terrain, &resources);
    assert_eq!(first.terrain, other_seed.terrain);
    assert_eq!(first.resource_count(), other_seed.resource_count());
    assert_ne!(first.resources, other_seed.resources);
}

#[test]
fn resources_are_placed_and_taken_by_cell() {
    let mut map = flat(4, 3);
    assert_eq!(map.place_resource((3, 2), ResourceType::Energy, 10), None);
    assert_eq!(
        map.place_resource((3, 2), ResourceType::Mineral, 4),
        Some((ResourceType::Energy, 10))
    );
    assert_eq!(map.place_resource((0, 0), ResourceType::Energy, 1), None);
    assert_eq!(map.resource_count(), 2);
    assert!(map.has_resource((3, 2)));
    assert!(!map.has_resource((2, 3)));
    assert_eq!(map.get_resource((9, 9)), None);
    assert_eq!(map.take_resource((9, 9)), None);
    assert_eq!(map.take_resource((3, 2)), Some((ResourceType::Mineral, 4)));
    assert_eq!(map.take_resource((3, 2)), None);
    assert_eq!(map.resource_count(), 1);
}

#[test]
fn passability_and_bounds() {
    let mut map = flat(4, 3);
    map.set_terrain(1, 1, TerrainType::Mountain);
    map.set_terrain(2, 1, TerrainType::Hill);
    assert!(map.contains(3, 2));
    assert!(!map.contains(4, 2));
    assert!(!map.contains(3, 3));
    assert!(map.is_passable(0, 0));
    assert!(!map.is_passable(1, 1));
    assert!(map.is_passable(2, 1));
    assert!(!map.is_passable(4, 0));
    assert_eq!(map.cell_index(3, 2), 11);
    assert_eq!(map.cell_index(1, 1), 5);
}

#[test]
fn discovery_is_never_undone() {
    let mut map = flat(4, 3);
    assert!(!map.is_discovered(1, 2));
    map.mark_discovered(1, 2);
    map.mark_discovered(1, 2);
    map.mark_discovered(0, 0);
    assert!(map.is_discovered(1, 2));
    assert!(map.is_discovered(0, 0));
    assert!(!map.is_discovered(2, 1));
    assert!(!map.is_discovered(7, 7));
}

#[test]
fn record_round_trip() {
    let terrain = vec![vec![0, 400_000, 700_000], vec![850_000, 0, 0]];
    let resources = vec![vec![0, 900_000, 0], vec![650_000, 0, 750_000]];
    let mut map = WorldMap::new(3, 2, 77, &terrain, &resources);
    map.mark_discovered(2, 1);
    let record = map.to_record();
    assert_eq!(record.width, 3);
    assert_eq!(record.height, 2);
    assert_eq!(record.seed, 77);
    assert_eq!(record.terrain, vec![vec![0, 1, 2], vec![3, 0, 0]]);
    assert_eq!(
        record.discovered,
        vec![vec![false, false, false], vec![false, false, true]]
    );
    let positions: Vec<(usize, usize)> = record.resources.iter().map(|e| e.0).collect();
    assert_eq!(positions, vec![(1, 0), (0, 1), (2, 1)]);
    let back = WorldMap::from_record(&record).unwrap();
    assert_eq!(back.width, map.width);
    assert_eq!(back.height, map.height);
    assert_eq!(back.seed, map.seed);
    assert_eq!(back.terrain, map.terrain);
    assert_eq!(back.discovered, map.discovered);
    assert_eq!(back.resources, map.resources);
}

fn small_record() -> MapRecord {
    MapRecord {
        width: 2,
        height: 2,
        terrain: vec![vec![0, 1], vec![2, 3]],
        resources: vec![
            ((1, 0), (ResourceType::Energy, 5)),
            ((1, 0), (ResourceType::Mineral, 6)),
        ],
        discovered: vec![vec![true, false], vec![false, false]],
        seed: 1,
    }
}

#[test]
fn later_record_entries_count() {
    let map = WorldMap::from_record(&small_record()).unwrap();
    assert_eq!(map.get_resource((1, 0)), Some((ResourceType::Mineral, 6)));
    assert_eq!(map.resource_count(), 1);
    assert!(map.is_discovered(0, 0));
    assert_eq!(map.get_terrain(1, 1), TerrainType::Canyon);
}

#[test]
fn misshapen_records_are_refused() {
    let mut record = small_record();
    record.width = 0;
    assert!(WorldMap::from_record(&record).is_none());
    let mut record = small_record();
    record.height = 3;
    assert!(WorldMap::from_record(&record).is_none());
    let mut record = small_record();
    record.terrain[1].push(0);
    assert!(WorldMap::from_record(&record).is_none());
    let mut record = small_record();
    record.discovered.pop();
    assert!(WorldMap::from_record(&record).is_none());
    let mut record = small_record();
    record.resources.push(((2, 0), (ResourceType::Energy, 5)));
    assert!(WorldMap::from_record(&record).is_none());
    let mut record = small_record();
    record.width = usize::MAX;
    assert!(WorldMap::from_record(&record).is_none());
}
