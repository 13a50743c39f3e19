//! Carrying out a task: one step of progress per call.

use crate::pathfinding::{
    is_shortest,
    lemma_safe_directions,
    manhattan,
    reachable,
    safe_directions,
    step_ok,
    step_target,
    Pathfinder,
};
use crate::robot::Robot;
use crate::station::Station;
use crate::types::{
    AnalyzeTask,
    Direction,
    ExploreTask,
    HarvestTask,
    Position,
    ResourceType,
    RobotState,
    SimError,
    Task,
    TaskType,
};
use crate::world::{Resource, WorldMap};
use vstd::prelude::*;

verus! {

/// The robot after a step in direction `d` that it could make and pay for.
pub open spec fn stepped(before: Robot, map: &WorldMap, d: Direction) -> Robot {
    let t = before.target(d);
    Robot {
        x: t.0 as usize,
        y: t.1 as usize,
        energy: (before.energy - before.step_energy(map.terrain_at(t.0, t.1).cost() as u32)) as u32,
        ..before
    }
}

/// How an attempt to step in direction `d` ends: the step is made and paid
/// for, or the robot stays as it was and the reason is reported.
pub open spec fn step_outcome(
    before: Robot,
    after: Robot,
    map: &WorldMap,
    d: Direction,
    result: Result<(), SimError>,
) -> bool {
    let t = before.target(d);
    if !map.in_bounds(t.0, t.1) {
        result == Err::<(), SimError>(SimError::OutOfBounds) && after == before
    } else if !map.terrain_at(t.0, t.1).traversable() {
        result == Err::<(), SimError>(SimError::BlockedTerrain) && after == before
    } else if before.energy < before.step_energy(map.terrain_at(t.0, t.1).cost() as u32) {
        result == Err::<(), SimError>(SimError::InsufficientEnergy) && after == before
    } else {
        result == Ok::<(), SimError>(()) && after == stepped(before, map, d)
    }
}

/// How a move towards `target` ends. The robot takes the first step of a
/// cheapest walk where there is one; failing that, a step onto any
/// neighbour it can stand on; failing that, it stays where it is.
pub open spec fn move_outcome(
    before: Robot,
    after: Robot,
    map: &WorldMap,
    target: Position,
    result: Result<(), SimError>,
) -> bool {
    if before.pos() != target && reachable(map, before.pos(), target) {
        exists|path: Seq<Position>, d: Direction|
            #![trigger is_shortest(map, path, before.pos(), target), step_outcome(before, after, map, d, result)]
            is_shortest(map, path, before.pos(), target) && path.len() > 1 && step_target(
                before.pos(),
                d,
            ) == (path[1].0 as int, path[1].1 as int) && step_outcome(before, after, map, d, result)
    } else if safe_directions(map, before.pos()).len() > 0 {
        exists|d: Direction|
            map.passable(step_target(before.pos(), d).0, step_target(before.pos(), d).1)
                && #[trigger] step_outcome(before, after, map, d, result)
    } else {
        result == Ok::<(), SimError>(()) && after == before
    }
}

/// The station after a robot has handed over what it carried.
pub open spec fn after_delivery(station: Station, load: Option<Resource>) -> Station {
    match load {
        None => station,
        Some(resource) => station.received(resource.0, resource.1),
    }
}

/// The energy a station hands to a robot at its door: nothing when the bank
/// is empty or the robot is full.
pub open spec fn recharge_given(station: Station, energy: u32, max: u32) -> int {
    if station.energy_stock > 0 && energy < max {
        Station::transfer_amount(max - energy, station.energy_stock as int)
    } else {
        0
    }
}

/// What one step of an exploration does to robot and map.
pub open spec fn explore_outcome(
    before: Robot,
    after: Robot,
    map_before: &WorldMap,
    map_after: &WorldMap,
    task: ExploreTask,
    result: Result<(), SimError>,
) -> bool {
    &&& map_after.wf()
    &&& map_after.same_world(map_before)
    &&& map_after.in_bounds(after.x as int, after.y as int)
    &&& if before.pos() == task.target_area {
        &&& result == Ok::<(), SimError>(())
        &&& after == (Robot { state: RobotState::Exploring, ..before })
        &&& forall|x: int, y: int|
            map_before.in_bounds(x, y) ==> #[trigger] map_after.discovered_at(x, y) == (
            map_before.discovered_at(x, y) || manhattan((x as usize, y as usize), task.target_area)
                <= task.radius)
    } else {
        &&& move_outcome(
            Robot { state: RobotState::Exploring, ..before },
            after,
            map_before,
            task.target_area,
            result,
        )
        &&& forall|x: int, y: int|
            map_before.in_bounds(x, y) ==> #[trigger] map_after.discovered_at(x, y) == (
            map_before.discovered_at(x, y) || (result.is_ok() && x == after.x && y == after.y))
    }
}

/// What one step of a harvest does to robot and map.
pub open spec fn harvest_outcome(
    before: Robot,
    after: Robot,
    map_before: &WorldMap,
    map_after: &WorldMap,
    task: HarvestTask,
    result: Result<(), SimError>,
) -> bool {
    let here = map_before.resource_at(before.x as int, before.y as int);
    &&& map_after.wf()
    &&& map_after.same_ground(map_before)
    &&& map_after.in_bounds(after.x as int, after.y as int)
    &&& forall|x: int, y: int|
        map_before.in_bounds(x, y) && (x != before.x || y != before.y) ==> #[trigger] map_after.resource_at(x, y)
            == map_before.resource_at(x, y)
    &&& if here.is_some() {
        if before.carrying.is_some() {
            &&& result == Err::<(), SimError>(SimError::AlreadyCarrying)
            &&& after == (Robot { state: RobotState::Harvesting, ..before })
            &&& map_after.resources@ == map_before.resources@
        } else {
            &&& result == Ok::<(), SimError>(())
            &&& after == (Robot { state: RobotState::Harvesting, carrying: here, ..before })
            &&& map_after.resource_at(before.x as int, before.y as int).is_none()
        }
    } else if before.pos() == task.target_position {
        &&& result == Ok::<(), SimError>(())
        &&& after == (Robot { state: RobotState::Harvesting, ..before })
        &&& map_after.resources@ == map_before.resources@
    } else {
        &&& move_outcome(
            Robot { state: RobotState::MovingToResource, ..before },
            after,
            map_before,
            task.target_position,
            result,
        )
        &&& map_after.resources@ == map_before.resources@
    }
}

/// What one step of an analysis does to robot and map.
pub open spec fn analyze_outcome(
    before: Robot,
    after: Robot,
    map_before: &WorldMap,
    map_after: &WorldMap,
    task: AnalyzeTask,
    result: Result<(), SimError>,
) -> bool {
    let here = map_before.resource_at(before.x as int, before.y as int);
    &&& map_after.wf()
    &&& map_after.same_ground(map_before)
    &&& map_after.in_bounds(after.x as int, after.y as int)
    &&& forall|x: int, y: int|
        map_before.in_bounds(x, y) && (x != before.x || y != before.y) ==> #[trigger] map_after.resource_at(x, y)
            == map_before.resource_at(x, y)
    &&& if before.pos() == task.target_position {
        if here.is_some() && here.unwrap().0 == ResourceType::Energy {
            &&& result == Ok::<(), SimError>(())
            &&& after == (Robot { state: RobotState::Analyzing, carrying: here, ..before })
            &&& map_after.resource_at(before.x as int, before.y as int).is_none()
        } else {
            &&& result == Ok::<(), SimError>(())
            &&& after == (Robot { state: RobotState::Analyzing, ..before })
            &&& map_after.resources@ == map_before.resources@
        }
    } else {
        &&& move_outcome(
            Robot { state: RobotState::Analyzing, ..before },
            after,
            map_before,
            task.target_position,
            result,
        )
        &&& map_after.resources@ == map_before.resources@
    }
}

/// What one step of the way home does to robot and station. The map is left
/// as it was.
pub open spec fn return_outcome(
    before: Robot,
    after: Robot,
    map_before: &WorldMap,
    map_after: &WorldMap,
    station_before: Station,
    station_after: Station,
    result: Result<(), SimError>,
) -> bool {
    &&& map_after.wf()
    &&& map_after.same_content(map_before)
    &&& map_after.in_bounds(after.x as int, after.y as int)
    &&& if before.pos() == (station_before.x, station_before.y) {
        let banked = after_delivery(station_before, before.carrying);
        let given = recharge_given(banked, before.energy, before.max_energy_spec());
        &&& result == Ok::<(), SimError>(())
        &&& after == (Robot {
            state: RobotState::Idle,
            carrying: None,
            energy: (before.energy + given) as u32,
            ..before
        })
        &&& station_after == (Station { energy_stock: (banked.energy_stock - given) as u32, ..banked })
    } else {
        &&& move_outcome(
            Robot { state: RobotState::ReturningToStation, ..before },
            after,
            map_before,
            (station_before.x, station_before.y),
            result,
        )
        &&& station_after == station_before
    }
}

/// Carries out tasks.
pub struct Executor;

impl Executor {
    /// Steps in the given direction and charges the energy of the step. A
    /// step that cannot be paid for is not made.
    pub fn step_in_direction(robot: &mut Robot, map: &WorldMap, direction: Direction) -> (result:
        Result<(), SimError>)
        requires
            map.wf(),
        ensures
            step_outcome(*old(robot), *final(robot), map, direction, result),
            map.in_bounds(old(robot).x as int, old(robot).y as int) ==> map.in_bounds(
                final(robot).x as int,
                final(robot).y as int,
            ),
    {
        let from_x = robot.x;
        let from_y = robot.y;
        match robot.move_in_direction(direction, map) {
            Err(e) => Err(e),
            Ok(movement_cost) => {
                match robot.consume_energy_for_movement(movement_cost) {
                    Ok(()) => Ok(()),
                    Err(e) => {
                        robot.x = from_x;
                        robot.y = from_y;
                        Err(e)
                    },
                }
            },
        }
    }

    /// Takes one step towards `target_pos`: along a cheapest walk where one
    /// exists, else in a random direction that is open, else none at all.
    ///
    /// Fails with `InsufficientEnergy` when the robot cannot pay for the
    /// step; the robot then stays where it is and keeps its energy.
    pub fn move_towards_target(robot: &mut Robot, map: &WorldMap, target_pos: Position) -> (result:
        Result<(), SimError>)
        requires
            map.wf(),
            map.in_bounds(old(robot).x as int, old(robot).y as int),
        ensures
            move_outcome(*old(robot), *final(robot), map, target_pos, result),
            map.in_bounds(final(robot).x as int, final(robot).y as int),
            final(robot).id == old(robot).id,
            final(robot).robot_type == old(robot).robot_type,
            final(robot).carrying == old(robot).carrying,
            final(robot).state == old(robot).state,
            final(robot).energy <= old(robot).energy,
            match result {
                Ok(()) => true,
                Err(e) => e == SimError::InsufficientEnergy && *final(robot) == *old(robot),
            },
    {
        let pathfinder = Pathfinder::new();
        match pathfinder.get_next_move(robot.position(), target_pos, map) {
            Some(direction) => {
                let result = Executor::step_in_direction(robot, map, direction);
                proof {
                    let path = choose|path: Seq<Position>|
                        #![trigger is_shortest(map, path, old(robot).pos(), target_pos)]
                        is_shortest(map, path, old(robot).pos(), target_pos) && path.len() > 1
                            && step_target(old(robot).pos(), direction) == (
                            path[1].0 as int,
                            path[1].1 as int,
                        );
                    assert(is_shortest(map, path, old(robot).pos(), target_pos));
                    assert(path[0] == old(robot).pos());
                    assert(step_ok(map, path[0int], path[0int + 1]));
                    assert(step_outcome(*old(robot), *robot, map, direction, result));
                }
                result
            },
            None => {
                match Pathfinder::get_safe_random_direction_from_position(map, robot.x, robot.y) {
                    Some(random_direction) => {
                        let result = Executor::step_in_direction(robot, map, random_direction);
                        proof {
                            lemma_safe_directions(map, old(robot).pos(), random_direction);
                            assert(step_outcome(*old(robot), *robot, map, random_direction, result));
                        }
                        result
                    },
                    None => Ok(()),
                }
            },
        }
    }

    /// One step of an exploration. A robot on the target marks every cell
    /// within `radius` steps of it as discovered; any other robot moves
    /// towards the target and marks the cell it arrives on.
    pub fn execute_explore_task(robot: &mut Robot, map: &mut WorldMap, task: ExploreTask) -> (result:
        Result<(), SimError>)
        requires
            old(map).wf(),
            old(map).in_bounds(old(robot).x as int, old(robot).y as int),
        ensures
            explore_outcome(*old(robot), *final(robot), old(map), final(map), task, result),
    {
        robot.set_state(RobotState::Exploring);
        let target_pos = task.target_area;
        let current_pos = robot.position();
        if current_pos.0 == target_pos.0 && current_pos.1 == target_pos.1 {
            robot.mark_area_as_discovered(map, target_pos, task.radius);
            return Ok(());
        }
        match Executor::move_towards_target(robot, map, target_pos) {
            Err(e) => Err(e),
            Ok(()) => {
                map.mark_discovered(robot.x, robot.y);
                Ok(())
            },
        }
    }

    /// One step of a harvest. A robot that stands on a resource, or on the
    /// target, harvests what lies under it; any other robot moves towards
    /// the target.
    pub fn execute_harvest_task(robot: &mut Robot, map: &mut WorldMap, harvest_task: HarvestTask) -> (result:
        Result<(), SimError>)
        requires
            old(map).wf(),
            old(map).in_bounds(old(robot).x as int, old(robot).y as int),
        ensures
            harvest_outcome(*old(robot), *final(robot), old(map), final(map), harvest_task, result),
    {
        let target_pos = harvest_task.target_position;
        let current_pos = robot.position();
        let has_resource_at_position = map.has_resource(current_pos);
        let should_harvest = (current_pos.0 == target_pos.0 && current_pos.1 == target_pos.1)
            || has_resource_at_position;
        if should_harvest {
            robot.set_state(RobotState::Harvesting);
            if has_resource_at_position {
                return match robot.collect_resource(map) {
                    Ok(()) => Ok(()),
                    Err(e) => Err(e),
                };
            }
            return Ok(());
        }
        robot.set_state(RobotState::MovingToResource);
        Executor::move_towards_target(robot, map, target_pos)
    }

    /// One step of an analysis. A robot on the target collects the energy
    /// resource that lies there, if one does; any other robot moves towards
    /// the target. Minerals are left where they are.
    pub fn execute_analyze_task(robot: &mut Robot, map: &mut WorldMap, analyze_task: AnalyzeTask) -> (result:
        Result<(), SimError>)
        requires
            old(map).wf(),
            old(map).in_bounds(old(robot).x as int, old(robot).y as int),
        ensures
            analyze_outcome(*old(robot), *final(robot), old(map), final(map), analyze_task, result),
    {
        robot.set_state(RobotState::Analyzing);
        let target_pos = analyze_task.target_position;
        let current_pos = robot.position();
        if current_pos.0 == target_pos.0 && current_pos.1 == target_pos.1 {
            let should_collect = match map.get_resource(target_pos) {
                Some(resource) => match resource.0 {
                    ResourceType::Energy => true,
                    ResourceType::Mineral => false,
                },
                None => false,
            };
            if should_collect {
                match map.take_resource(target_pos) {
                    Some(resource) => {
                        robot.carrying = Some(resource);
                    },
                    None => {},
                }
            }
            return Ok(());
        }
        Executor::move_towards_target(robot, map, target_pos)
    }

    /// One step of the way home. A robot at the station hands over what it
    /// carries, is recharged as far as the bank allows, and becomes idle; any
    /// other robot moves towards the station.
    pub fn execute_return_to_station_task(robot: &mut Robot, map: &mut WorldMap, station: &mut Station) -> (result:
        Result<(), SimError>)
        requires
            old(map).wf(),
            old(map).in_bounds(old(robot).x as int, old(robot).y as int),
        ensures
            return_outcome(
                *old(robot),
                *final(robot),
                old(map),
                final(map),
                *old(station),
                *final(station),
                result,
            ),
    {
        robot.set_state(RobotState::ReturningToStation);
        let station_pos = (station.x, station.y);
        let current_pos = robot.position();
        if current_pos.0 == station_pos.0 && current_pos.1 == station_pos.1 {
            if robot.carrying.is_some() {
                let _ = robot.deliver_resource(station);
            }
            if station.robot_at_station(current_pos) {
                if station.can_recharge() {
                    let _ = station.recharge_robot(robot);
                }
            }
            robot.set_state(RobotState::Idle);
            return Ok(());
        }
        Executor::move_towards_target(robot, map, station_pos)
    }
}

/// A step leaves the robot's identity untouched, whichever way it ends.
pub proof fn lemma_step_keeps_identity(
    before: Robot,
    after: Robot,
    map: &WorldMap,
    d: Direction,
    result: Result<(), SimError>,
)
    requires
        step_outcome(before, after, map, d, result),
    ensures
        after.id == before.id,
        after.robot_type == before.robot_type,
        after.carrying == before.carrying,
        after.state == before.state,
{
}

/// A move leaves the robot's identity untouched, whichever way it ends.
pub proof fn lemma_move_keeps_identity(
    before: Robot,
    after: Robot,
    map: &WorldMap,
    target: Position,
    result: Result<(), SimError>,
)
    requires
        move_outcome(before, after, map, target, result),
    ensures
        after.id == before.id,
        after.robot_type == before.robot_type,
        after.carrying == before.carrying,
        after.state == before.state,
{
    if before.pos() != target && reachable(map, before.pos(), target) {
        let (path, d) = choose|path: Seq<Position>, d: Direction|
            #![trigger is_shortest(map, path, before.pos(), target), step_outcome(before, after, map, d, result)]
            is_shortest(map, path, before.pos(), target) && path.len() > 1 && step_target(
                before.pos(),
                d,
            ) == (path[1].0 as int, path[1].1 as int) && step_outcome(before, after, map, d, result);
        lemma_step_keeps_identity(before, after, map, d, result);
    } else if safe_directions(map, before.pos()).len() > 0 {
        let d = choose|d: Direction|
            map.passable(step_target(before.pos(), d).0, step_target(before.pos(), d).1)
                && #[trigger] step_outcome(before, after, map, d, result);
        lemma_step_keeps_identity(before, after, map, d, result);
    }
}

/// No step of any task changes the size, the terrain or the seed of the
/// map, nor the identity of the robot, and none undoes a discovery.
pub proof fn lemma_action_frame(
    before: Robot,
    after: Robot,
    map_before: &WorldMap,
    map_after: &WorldMap,
    station_before: Station,
    station_after: Station,
    action: Option<Task>,
    result: Result<(), SimError>,
)
    requires
        Robot::action_outcome(
            before,
            after,
            map_before,
            map_after,
            station_before,
            station_after,
            action,
            result,
        ),
    ensures
        map_after.width == map_before.width,
        map_after.height == map_before.height,
        map_after.terrain == map_before.terrain,
        map_after.seed == map_before.seed,
        after.id == before.id,
        after.robot_type == before.robot_type,
        forall|x: int, y: int|
            map_before.in_bounds(x, y) && map_before.discovered_at(x, y)
                ==> #[trigger] map_after.discovered_at(x, y),
{
    match action {
        None => {},
        Some(task) => match task.task_type {
            TaskType::Explore(explore) => {
                if before.pos() != explore.target_area {
                    lemma_move_keeps_identity(
                        Robot { state: RobotState::Exploring, ..before },
                        after,
                        map_before,
                        explore.target_area,
                        result,
                    );
                }
            },
            TaskType::Harvest(harvest) => {
                let here = map_before.resource_at(before.x as int, before.y as int);
                if here.is_none() && before.pos() != harvest.target_position {
                    lemma_move_keeps_identity(
                        Robot { state: RobotState::MovingToResource, ..before },
                        after,
                        map_before,
                        harvest.target_position,
                        result,
                    );
                }
            },
            TaskType::Analyze(analyze) => {
                if before.pos() != analyze.target_position {
                    lemma_move_keeps_identity(
                        Robot { state: RobotState::Analyzing, ..before },
                        after,
                        map_before,
                        analyze.target_position,
                        result,
                    );
                }
            },
            TaskType::ReturnToStation => {
                if before.pos() != (station_before.x, station_before.y) {
                    lemma_move_keeps_identity(
                        Robot { state: RobotState::ReturningToStation, ..before },
                        after,
                        map_before,
                        (station_before.x, station_before.y),
                        result,
                    );
                }
            },
        },
    }
}

} // verus!
