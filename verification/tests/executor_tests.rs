use swarm_sim::executor::Executor;
use swarm_sim::robot::Robot;
use swarm_sim::station::Station;
use swarm_sim::terrain::TerrainType;
use swarm_sim::types::{
    AnalysisType, AnalyzeTask, Direction, ExploreTask, HarvestTask, ResourceType, RobotState,
    RobotType, SimError, Task, TaskType,
};
use swarm_sim::world::WorldMap;

fn flat(width: usize, height: usize) -> WorldMap {
    let samples = vec![vec![0u32; width]; height];
    WorldMap::new(width, height, 7, &samples, &samples)
}

#[test]
fn step_moves_and_charges() {
    let mut map = flat(3, 3);
    map.set_terrain(1, 0, TerrainType::Hill);
    let mut robot = Robot::new(0, RobotType::Explorer, 0, 0, 10);
    assert_eq!(Executor::step_in_direction(&mut robot, &map, Direction::East), Ok(()));
    assert_eq!(robot.position(), (1, 0));
    assert_eq!(robot.energy(), 7);
}

#[test]
fn step_that_cannot_be_paid_is_rolled_back() {
    let mut map = flat(3, 3);
    map.set_terrain(1, 0, TerrainType::Hill);
    let mut robot = Robot::new(0, RobotType::Scientist, 0, 0, 4);
    assert_eq!(
        Executor::step_in_direction(&mut robot, &map, Direction::East),
        Err(SimError::InsufficientEnergy)
    );
    assert_eq!(robot.position(), (0, 0));
    assert_eq!(robot.energy(), 4);
}

#[test]
fn step_reports_edges_and_blocked_cells() {
    let mut map = flat(3, 3);
    map.set_terrain(1, 0, TerrainType::Canyon);
    let mut robot = Robot::new(0, RobotType::Explorer, 0, 0, 10);
    assert_eq!(
        Executor::step_in_direction(&mut robot, &map, Direction::North),
        Err(SimError::OutOfBounds)
    );
    assert_eq!(
        Executor::step_in_direction(&mut robot, &map, Direction::East),
        Err(SimError::BlockedTerrain)
    );
    assert_eq!(robot.position(), (0, 0));
    assert_eq!(robot.energy(), 10);
}

#[test]
fn move_follows_the_cheapest_walk() {
    let map = flat(5, 1);
    let mut robot = Robot::new(0, RobotType::Explorer, 0, 0, 10);
    assert_eq!(Executor::move_towards_target(&mut robot, &map, (4, 0)), Ok(()));
    assert_eq!(robot.position(), (1, 0));
    assert_eq!(robot.energy(), 8);
}

#[test]
fn move_without_energy_fails_in_place() {
    let map = flat(5, 1);
    let mut robot = Robot::new(0, RobotType::Explorer, 0, 0, 1);
    assert_eq!(
        Executor::move_towards_target(&mut robot, &map, (4, 0)),
        Err(SimError::InsufficientEnergy)
    );
    assert_eq!(robot.position(), (0, 0));
    assert_eq!(robot.energy(), 1);
}

#[test]
fn move_without_a_path_wanders_onto_an_open_cell() {
    let mut map = flat(5, 1);
    map.set_terrain(3, 0, TerrainType::Mountain);
    let mut robot = Robot::new(0, RobotType::Explorer, 1, 0, 10);
    assert_eq!(Executor::move_towards_target(&mut robot, &map, (4, 0)), Ok(()));
    assert!(robot.position() == (0, 0) || robot.position() == (2, 0));
    assert_eq!(robot.energy(), 8);
}

#[test]
fn boxed_in_robot_stays_put() {
    let mut map = flat(3, 1);
    map.set_terrain(1, 0, TerrainType::Mountain);
    let mut robot = Robot::new(0, RobotType::Explorer, 0, 0, 10);
    assert_eq!(Executor::move_towards_target(&mut robot, &map, (2, 0)), Ok(()));
    assert_eq!(robot.position(), (0, 0));
    assert_eq!(robot.energy(), 10);
}

#[test]
fn explore_at_target_marks_the_area() {
    let mut map = flat(7, 7);
    let mut robot = Robot::new(0, RobotType::Explorer, 3, 3, 50);
    let task = ExploreTask { target_area: (3, 3), radius: 1 };
    assert_eq!(Executor::execute_explore_task(&mut robot, &mut map, task), Ok(()));
    assert_eq!(robot.state, RobotState::Exploring);
    assert_eq!(robot.position(), (3, 3));
    assert_eq!(robot.energy(), 50);
    for y in 0..7usize {
        for x in 0..7usize {
            assert_eq!(map.is_discovered(x, y), x.abs_diff(3) + y.abs_diff(3) <= 1);
        }
    }
}

#[test]
fn explore_on_the_way_marks_the_cell_reached() {
    let mut map = flat(7, 1);
    let mut robot = Robot::new(0, RobotType::Explorer, 0, 0, 50);
    let task = ExploreTask { target_area: (6, 0), radius: 1 };
    assert_eq!(Executor::execute_explore_task(&mut robot, &mut map, task), Ok(()));
    assert_eq!(robot.position(), (1, 0));
    assert_eq!(robot.energy(), 48);
    assert!(map.is_discovered(1, 0));
    assert!(!map.is_discovered(0, 0));
    assert!(!map.is_discovered(2, 0));
}

#[test]
fn explore_without_energy_marks_nothing() {
    let mut map = flat(7, 1);
    let mut robot = Robot::new(0, RobotType::Explorer, 0, 0, 1);
    let task = ExploreTask { target_area: (6, 0), radius: 1 };
    assert_eq!(
        Executor::execute_explore_task(&mut robot, &mut map, task),
        Err(SimError::InsufficientEnergy)
    );
    assert_eq!(robot.state, RobotState::Exploring);
    for x in 0..7 {
        assert!(!map.is_discovered(x, 0));
    }
}

#[test]
fn harvest_picks_up_what_lies_under_the_robot() {
    let mut map = flat(5, 5);
    map.place_resource((1, 1), ResourceType::Mineral, 33);
    map.place_resource((4, 4), ResourceType::Energy, 12);
    let mut robot = Robot::new(0, RobotType::Harvester, 1, 1, 50);
    let task = HarvestTask { resource_type: ResourceType::Energy, target_position: (4, 4) };
    assert_eq!(Executor::execute_harvest_task(&mut robot, &mut map, task), Ok(()));
    assert_eq!(robot.state, RobotState::Harvesting);
    assert_eq!(robot.carrying, Some((ResourceType::Mineral, 33)));
    assert_eq!(robot.position(), (1, 1));
    assert_eq!(map.get_resource((1, 1)), None);
    assert_eq!(map.get_resource((4, 4)), Some((ResourceType::Energy, 12)));
}

#[test]
fn harvest_on_an_empty_target_changes_only_the_state() {
    let mut map = flat(5, 5);
    let mut robot = Robot::new(0, RobotType::Harvester, 1, 1, 50);
    let task = HarvestTask { resource_type: ResourceType::Energy, target_position: (1, 1) };
    assert_eq!(Executor::execute_harvest_task(&mut robot, &mut map, task), Ok(()));
    assert_eq!(robot.state, RobotState::Harvesting);
    assert_eq!(robot.carrying, None);
    assert_eq!(robot.energy(), 50);
}

#[test]
fn harvest_with_full_hands_fails() {
    let mut map = flat(5, 5);
    map.place_resource((1, 1), ResourceType::Mineral, 33);
    let mut robot = Robot::new(0, RobotType::Harvester, 1, 1, 50);
    robot.carrying = Some((ResourceType::Energy, 1));
    let task = HarvestTask { resource_type: ResourceType::Mineral, target_position: (1, 1) };
    assert_eq!(
        Executor::execute_harvest_task(&mut robot, &mut map, task),
        Err(SimError::AlreadyCarrying)
    );
    assert_eq!(map.get_resource((1, 1)), Some((ResourceType::Mineral, 33)));
}

#[test]
fn harvest_moves_towards_a_distant_target() {
    let mut map = flat(5, 1);
    map.place_resource((4, 0), ResourceType::Energy, 12);
    let mut robot = Robot::new(0, RobotType::Harvester, 0, 0, 50);
    let task = HarvestTask { resource_type: ResourceType::Energy, target_position: (4, 0) };
    assert_eq!(Executor::execute_harvest_task(&mut robot, &mut map, task), Ok(()));
    assert_eq!(robot.state, RobotState::MovingToResource);
    assert_eq!(robot.position(), (1, 0));
    assert_eq!(robot.energy(), 47);
    assert_eq!(robot.carrying, None);
}

#[test]
fn analyze_collects_energy_and_leaves_minerals() {
    let mut map = flat(5, 5);
    map.place_resource((2, 2), ResourceType::Energy, 21);
    map.place_resource((3, 3), ResourceType::Mineral, 8);
    let mut robot = Robot::new(0, RobotType::Scientist, 2, 2, 50);
    let task = AnalyzeTask { target_position: (2, 2), analysis_type: AnalysisType::Chemical };
    assert_eq!(Executor::execute_analyze_task(&mut robot, &mut map, task), Ok(()));
    assert_eq!(robot.state, RobotState::Analyzing);
    assert_eq!(robot.carrying, Some((ResourceType::Energy, 21)));
    assert_eq!(map.get_resource((2, 2)), None);

    let mut other = Robot::new(1, RobotType::Scientist, 3, 3, 50);
    let task = AnalyzeTask { target_position: (3, 3), analysis_type: AnalysisType::Chemical };
    assert_eq!(Executor::execute_analyze_task(&mut other, &mut map, task), Ok(()));
    assert_eq!(other.carrying, None);
    assert_eq!(map.get_resource((3, 3)), Some((ResourceType::Mineral, 8)));
}

#[test]
fn analyze_moves_towards_a_distant_target() {
    let mut map = flat(5, 1);
    map.place_resource((0, 0), ResourceType::Energy, 21);
    let mut robot = Robot::new(0, RobotType::Scientist, 0, 0, 50);
    let task = AnalyzeTask { target_position: (3, 0), analysis_type: AnalysisType::Chemical };
    assert_eq!(Executor::execute_analyze_task(&mut robot, &mut map, task), Ok(()));
    assert_eq!(robot.position(), (1, 0));
    assert_eq!(robot.energy(), 46);
    assert_eq!(robot.carrying, None);
    assert_eq!(map.get_resource((0, 0)), Some((ResourceType::Energy, 21)));
}

#[test]
fn return_at_station_delivers_and_recharges() {
    let mut map = flat(5, 5);
    let mut station = Station::new(2, 2);
    let mut robot = Robot::new(0, RobotType::Harvester, 2, 2, 30);
    robot.carrying = Some((ResourceType::Energy, 20));
    assert_eq!(
        Executor::execute_return_to_station_task(&mut robot, &mut map, &mut station),
        Ok(())
    );
    assert_eq!(robot.state, RobotState::Idle);
    assert_eq!(robot.carrying, None);
    // The 20 delivered are all the bank has to give.
    assert_eq!(robot.energy(), 50);
    assert_eq!(station.get_resource_amount(&ResourceType::Energy), 0);
}

#[test]
fn return_at_station_banks_minerals_untouched_by_recharge() {
    let mut map = flat(5, 5);
    let mut station = Station::new(2, 2);
    station.receive_resource(ResourceType::Energy, 500);
    let mut robot = Robot::new(0, RobotType::Harvester, 2, 2, 30);
    robot.carrying = Some((ResourceType::Mineral, 20));
    assert_eq!(
        Executor::execute_return_to_station_task(&mut robot, &mut map, &mut station),
        Ok(())
    );
    assert_eq!(robot.energy(), 80);
    assert_eq!(station.get_resource_amount(&ResourceType::Energy), 450);
    assert_eq!(station.get_resource_amount(&ResourceType::Mineral), 20);
}

#[test]
fn return_at_station_with_nothing_to_give_or_take() {
    let mut map = flat(5, 5);
    let mut station = Station::new(2, 2);
    let mut robot = Robot::new(0, RobotType::Explorer, 2, 2, 100);
    assert_eq!(
        Executor::execute_return_to_station_task(&mut robot, &mut map, &mut station),
        Ok(())
    );
    assert_eq!(robot.state, RobotState::Idle);
    assert_eq!(robot.energy(), 100);
}

#[test]
fn return_moves_towards_the_station() {
    let mut map = flat(5, 5);
    let mut station = Station::new(2, 2);
    let mut robot = Robot::new(0, RobotType::Explorer, 2, 0, 30);
    robot.carrying = Some((ResourceType::Mineral, 20));
    assert_eq!(
        Executor::execute_return_to_station_task(&mut robot, &mut map, &mut station),
        Ok(())
    );
    assert_eq!(robot.state, RobotState::ReturningToStation);
    assert_eq!(robot.position(), (2, 1));
    assert_eq!(robot.energy(), 28);
    assert_eq!(robot.carrying, Some((ResourceType::Mineral, 20)));
    assert_eq!(station.get_resource_amount(&ResourceType::Mineral), 0);
}

#[test]
fn execute_action_dispatches_by_task() {
    let mut map = flat(5, 5);
    map.place_resource((1, 1), ResourceType::Energy, 9);
    let mut station = Station::new(0, 0);
    let mut robot = Robot::new(0, RobotType::Harvester, 1, 1, 50);
    assert_eq!(robot.execute_action(&mut map, &mut station, None), Ok(()));
    assert_eq!(robot.state, RobotState::Idle);
    let harvest = Task {
        task_type: TaskType::Harvest(HarvestTask {
            resource_type: ResourceType::Energy,
            target_position: (1, 1),
        }),
        target_position: Some((1, 1)),
        priority: 8,
    };
    assert_eq!(robot.execute_action(&mut map, &mut station, Some(harvest)), Ok(()));
    assert_eq!(robot.carrying, Some((ResourceType::Energy, 9)));
    let home = Task {
        task_type: TaskType::ReturnToStation,
        target_position: Some((0, 0)),
        priority: 10,
    };
    assert_eq!(robot.execute_action(&mut map, &mut station, Some(home)), Ok(()));
    assert_eq!(robot.state, RobotState::ReturningToStation);
    assert_eq!(robot.energy(), 47);
    let explore = Task {
        task_type: TaskType::Explore(ExploreTask { target_area: robot.position(), radius: 0 }),
        target_position: Some(robot.position()),
        priority: 5,
    };
    assert_eq!(robot.execute_action(&mut map, &mut station, Some(explore)), Ok(()));
    assert!(map.is_discovered(robot.x, robot.y));
    let analyze = Task {
        task_type: TaskType::Analyze(AnalyzeTask {
            target_position: robot.position(),
            analysis_type: AnalysisType::Chemical,
        }),
        target_position: Some(robot.position()),
        priority: 8,
    };
    assert_eq!(robot.execute_action(&mut map, &mut station, Some(analyze)), Ok(()));
    assert_eq!(robot.state, RobotState::Analyzing);
}
