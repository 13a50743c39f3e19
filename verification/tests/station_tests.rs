use swarm_sim::robot::Robot;
use swarm_sim::station::{Station, STATION_RECHARGE_RATE};
use swarm_sim::types::{ResourceType, RobotType, SimError};

#[test]
fn new_station_is_empty() {
    let station = Station::new(3, 4);
    assert_eq!(station.position(), (3, 4));
    assert_eq!(station.get_resource_amount(&ResourceType::Energy), 0);
    assert_eq!(station.get_resource_amount(&ResourceType::Mineral), 0);
    assert_eq!(station.discoveries, 0);
    assert!(!station.can_recharge());
}

#[test]
fn received_resources_add_up_by_kind() {
    let mut station = Station::new(0, 0);
    station.receive_resource(ResourceType::Energy, 10);
    station.receive_resource(ResourceType::Mineral, 7);
    station.receive_resource(ResourceType::Energy, 5);
    assert_eq!(station.get_resource_amount(&ResourceType::Energy), 15);
    assert_eq!(station.get_resource_amount(&ResourceType::Mineral), 7);
    assert!(station.can_recharge());
}

#[test]
fn bank_is_full_at_the_largest_amount() {
    let mut station = Station::new(0, 0);
    station.receive_resource(ResourceType::Mineral, u32::MAX - 1);
    station.receive_resource(ResourceType::Mineral, 5);
    assert_eq!(station.get_resource_amount(&ResourceType::Mineral), u32::MAX);
}

#[test]
fn robot_at_station_compares_positions() {
    let station = Station::new(2, 5);
    assert!(station.robot_at_station((2, 5)));
    assert!(!station.robot_at_station((5, 2)));
    assert!(!station.robot_at_station((2, 4)));
}

#[test]
fn recharge_fails_on_empty_bank() {
    let mut station = Station::new(0, 0);
    let mut robot = Robot::new(1, RobotType::Explorer, 0, 0, 10);
    assert_eq!(station.recharge_robot(&mut robot), Err(SimError::NoEnergyAvailable));
    assert_eq!(robot.energy(), 10);
}

#[test]
fn recharge_fails_on_full_robot() {
    let mut station = Station::new(0, 0);
    station.receive_resource(ResourceType::Energy, 500);
    let mut robot = Robot::new(1, RobotType::Explorer, 0, 0, 100);
    assert_eq!(station.recharge_robot(&mut robot), Err(SimError::AlreadyFull));
    assert_eq!(robot.energy(), 100);
    assert_eq!(station.get_resource_amount(&ResourceType::Energy), 500);
}

#[test]
fn empty_bank_is_reported_before_full_robot() {
    let mut station = Station::new(0, 0);
    let mut robot = Robot::new(1, RobotType::Explorer, 0, 0, 100);
    assert_eq!(station.recharge_robot(&mut robot), Err(SimError::NoEnergyAvailable));
}

#[test]
fn recharge_is_limited_by_the_rate() {
    let mut station = Station::new(0, 0);
    station.receive_resource(ResourceType::Energy, 500);
    let mut robot = Robot::new(1, RobotType::Explorer, 0, 0, 10);
    assert_eq!(station.recharge_robot(&mut robot), Ok(STATION_RECHARGE_RATE));
    assert_eq!(robot.energy(), 60);
    assert_eq!(station.get_resource_amount(&ResourceType::Energy), 450);
}

#[test]
fn recharge_is_limited_by_what_the_robot_lacks() {
    let mut station = Station::new(0, 0);
    station.receive_resource(ResourceType::Energy, 500);
    let mut robot = Robot::new(1, RobotType::Scientist, 0, 0, 80);
    assert_eq!(station.recharge_robot(&mut robot), Ok(20));
    assert_eq!(robot.energy(), 100);
    assert_eq!(station.get_resource_amount(&ResourceType::Energy), 480);
}

#[test]
fn recharge_is_limited_by_the_bank() {
    let mut station = Station::new(0, 0);
    station.receive_resource(ResourceType::Energy, 7);
    station.receive_resource(ResourceType::Mineral, 9);
    let mut robot = Robot::new(1, RobotType::Harvester, 0, 0, 10);
    assert_eq!(station.recharge_robot(&mut robot), Ok(7));
    assert_eq!(robot.energy(), 17);
    assert_eq!(station.get_resource_amount(&ResourceType::Energy), 0);
    assert_eq!(station.get_resource_amount(&ResourceType::Mineral), 9);
    assert!(!station.can_recharge());
}

#[test]
fn recharge_never_passes_the_maximum() {
    for start in 0u32..=100 {
        for bank in [1u32, 30, 49, 50, 51, 200] {
            let mut station = Station::new(0, 0);
            station.receive_resource(ResourceType::Energy, bank);
            let mut robot = Robot::new(1, RobotType::Explorer, 0, 0, start);
            let before = robot.energy();
            let result = station.recharge_robot(&mut robot);
            assert!(robot.energy() <= robot.max_energy());
            let gained = robot.energy() - before;
            assert_eq!(station.get_resource_amount(&ResourceType::Energy), bank - gained);
            match result {
                Ok(given) => assert_eq!(given, gained),
                Err(_) => assert_eq!(gained, 0),
            }
        }
    }
}

#[test]
fn every_failure_has_its_message() {
    assert_eq!(SimError::OutOfBounds.message(), "Move out of bounds");
    assert_eq!(SimError::BlockedTerrain.message(), "Move blocked by terrain");
    assert_eq!(
        SimError::InsufficientEnergy.message(),
        "Insufficient energy for movement"
    );
    assert_eq!(SimError::AlreadyCarrying.message(), "Already carrying a resource");
    assert_eq!(SimError::NotCarrying.message(), "Not carrying a resource");
    assert_eq!(
        SimError::NoResourceAtPosition.message(),
        "No resource found at position"
    );
    assert_eq!(
        SimError::NoEnergyAvailable.message(),
        "No energy available for recharging"
    );
    assert_eq!(SimError::AlreadyFull.message(), "Robot is already at full energy");
}
