//! What each kind of robot does: its energy figures and its choice of task.

use crate::robot::Robot;
use crate::search::{nearest, SearchTarget, SearchUtils};
use crate::station::Station;
use crate::types::{
    AnalysisType,
    AnalyzeTask,
    ExploreTask,
    HarvestTask,
    Position,
    ResourceType,
    RobotType,
    Task,
    TaskType,
};
use crate::world::WorldMap;
use std::collections::hash_map::DefaultHasher;
use std::hash::Hasher;
use vstd::bytes::{spec_u64_to_le_bytes, u64_to_le_bytes};
use vstd::prelude::*;
use vstd::std_specs::hash::DefaultHasherAdditionalSpecFns;

verus! {

/// The energy a robot of this kind spends on a step, before terrain.
pub open spec fn consumption_rate(kind: RobotType) -> u32 {
    match kind {
        RobotType::Explorer => 2,
        RobotType::Scientist => 4,
        RobotType::Harvester => 3,
    }
}

/// The most energy a robot of this kind can hold.
pub open spec fn max_energy_of(kind: RobotType) -> u32 {
    100
}

/// The energy at or below which a robot of this kind returns to the station.
pub open spec fn low_energy_threshold(kind: RobotType) -> u32 {
    match kind {
        RobotType::Explorer => 20,
        RobotType::Scientist => 25,
        RobotType::Harvester => 15,
    }
}

impl RobotType {
    pub fn energy_consumption_rate(&self) -> (r: u32)
        ensures
            r == consumption_rate(*self),
    {
        match self {
            RobotType::Explorer => 2,
            RobotType::Scientist => 4,
            RobotType::Harvester => 3,
        }
    }

    pub fn max_energy(&self) -> (e: u32)
        ensures
            e == max_energy_of(*self),
    {
        100
    }

    pub fn low_energy_threshold(&self) -> (t: u32)
        ensures
            t == low_energy_threshold(*self),
    {
        match self {
            RobotType::Explorer => 20,
            RobotType::Scientist => 25,
            RobotType::Harvester => 15,
        }
    }
}

/// The task of going back to the station.
pub open spec fn return_task(station: &Station, priority: u8) -> Task {
    Task {
        task_type: TaskType::ReturnToStation,
        target_position: Some((station.x, station.y)),
        priority,
    }
}

/// The task of exploring around `target`.
pub open spec fn explore_task(target: Position, radius: usize, priority: u8) -> Task {
    Task {
        task_type: TaskType::Explore(ExploreTask { target_area: target, radius }),
        target_position: Some(target),
        priority,
    }
}

/// The task of analysing the cell `target`.
pub open spec fn analyze_task(target: Position) -> Task {
    Task {
        task_type: TaskType::Analyze(
            AnalyzeTask { target_position: target, analysis_type: AnalysisType::Chemical },
        ),
        target_position: Some(target),
        priority: 8,
    }
}

/// The task of harvesting the resource of kind `kind` at `target`.
pub open spec fn harvest_task(kind: ResourceType, target: Position) -> Task {
    Task {
        task_type: TaskType::Harvest(HarvestTask { resource_type: kind, target_position: target }),
        target_position: Some(target),
        priority: 8,
    }
}

/// A robot heads home when it carries something or runs low on energy.
pub open spec fn must_return(robot: &Robot) -> bool {
    robot.carrying.is_some() || robot.energy <= low_energy_threshold(robot.robot_type)
}

/// A coordinate drawn from `value`, kept one cell away from both edges of an
/// axis of length `extent` where the axis is long enough for that.
pub open spec fn inner_coordinate(value: u64, extent: usize) -> usize {
    let raw = (value % (extent as u64)) as usize;
    let low = if raw < 1 {
        1usize
    } else {
        raw
    };
    let high = if extent >= 2 {
        (extent - 2) as usize
    } else {
        0usize
    };
    if low < high {
        low
    } else {
        high
    }
}

/// The cell an explorer falls back on when it finds nothing nearby. It is
/// drawn from `seed`, and offered only if its terrain code is that of a plain.
pub open spec fn fallback_target(seed: u64, map: &WorldMap) -> Option<Position> {
    let x = inner_coordinate(seed, map.width);
    let y = inner_coordinate(seed >> 16, map.height);
    if map.terrain@[y as int]@[x as int] == 0 {
        Some((x, y))
    } else {
        None
    }
}

/// What an explorer decides, given the seed of its fallback choice.
pub open spec fn explorer_decision(robot: &Robot, map: &WorldMap, station: &Station, seed: u64) -> Option<
    Task,
> {
    if must_return(robot) {
        Some(return_task(station, 9))
    } else {
        match nearest(map, SearchTarget::Unexplored, robot.pos(), 5) {
            Some(p) => Some(explore_task(p, 3, 7)),
            None => match fallback_target(seed, map) {
                Some(p) => Some(explore_task(p, 2, 5)),
                None => None,
            },
        }
    }
}

/// What a scientist decides.
pub open spec fn scientist_decision(robot: &Robot, map: &WorldMap, station: &Station) -> Option<Task> {
    if must_return(robot) {
        Some(return_task(station, 9))
    } else {
        match nearest(map, SearchTarget::ScientificInterest, robot.pos(), 6) {
            Some(p) => Some(analyze_task(p)),
            None => match nearest(map, SearchTarget::Unexplored, robot.pos(), 6) {
                Some(p) => Some(explore_task(p, 3, 6)),
                None => None,
            },
        }
    }
}

/// What a harvester decides: energy before minerals, and exploring last.
pub open spec fn harvester_decision(robot: &Robot, map: &WorldMap, station: &Station) -> Option<Task> {
    if must_return(robot) {
        Some(return_task(station, 10))
    } else {
        match nearest(
            map,
            SearchTarget::Resource { energy: true, mineral: false },
            robot.pos(),
            4,
        ) {
            Some(p) => Some(harvest_task(ResourceType::Energy, p)),
            None => match nearest(
                map,
                SearchTarget::Resource { energy: false, mineral: true },
                robot.pos(),
                4,
            ) {
                Some(p) => Some(harvest_task(ResourceType::Mineral, p)),
                None => match nearest(map, SearchTarget::Unexplored, robot.pos(), 4) {
                    Some(p) => Some(explore_task(p, 2, 6)),
                    None => None,
                },
            },
        }
    }
}

/// The number that the standard library's default hasher makes of a robot's
/// id and position, each fed to it as eight bytes, lowest first.
pub open spec fn position_hash(id: usize, x: usize, y: usize) -> u64 {
    DefaultHasher::spec_finish(
        seq![
            spec_u64_to_le_bytes(id as u64),
            spec_u64_to_le_bytes(x as u64),
            spec_u64_to_le_bytes(y as u64),
        ],
    )
}

/// A number drawn from a robot's id and position by hashing them, so that
/// robots that differ in any of the three are led to different fallback
/// cells as a rule.
pub fn position_seed(id: usize, x: usize, y: usize) -> (seed: u64)
    ensures
        seed == position_hash(id, x, y),
{
    let mut hasher = DefaultHasher::new();
    let id_bytes = u64_to_le_bytes(id as u64);
    hasher.write(id_bytes.as_slice());
    let x_bytes = u64_to_le_bytes(x as u64);
    hasher.write(x_bytes.as_slice());
    let y_bytes = u64_to_le_bytes(y as u64);
    hasher.write(y_bytes.as_slice());
    proof {
        assert(hasher@ =~= seq![
            spec_u64_to_le_bytes(id as u64),
            spec_u64_to_le_bytes(x as u64),
            spec_u64_to_le_bytes(y as u64),
        ]);
    }
    hasher.finish()
}

/// The fallback cell for a given seed.
pub fn exploration_target_from_seed(seed: u64, map: &WorldMap) -> (target: Option<Position>)
    requires
        map.wf(),
    ensures
        target == fallback_target(seed, map),
        match target {
            Some(p) => map.in_bounds(p.0 as int, p.1 as int),
            None => true,
        },
{
    let x = clamp_inward(seed, map.width);
    let y = clamp_inward(seed >> 16, map.height);
    if map.terrain[y][x] == 0 {
        Some((x, y))
    } else {
        None
    }
}

/// See `inner_coordinate`.
pub fn clamp_inward(value: u64, extent: usize) -> (c: usize)
    requires
        extent > 0,
    ensures
        c == inner_coordinate(value, extent),
        c < extent,
{
    let raw = (value % (extent as u64)) as usize;
    let low: usize = if raw < 1 {
        1
    } else {
        raw
    };
    let high: usize = if extent >= 2 {
        extent - 2
    } else {
        0
    };
    if low < high {
        low
    } else {
        high
    }
}

/// What a robot of the given kind decides. Only an explorer's decision can
/// depend on the seed.
pub open spec fn policy_decision(
    kind: RobotType,
    robot: &Robot,
    map: &WorldMap,
    station: &Station,
    seed: u64,
) -> Option<Task> {
    match kind {
        RobotType::Explorer => explorer_decision(robot, map, station, seed),
        RobotType::Scientist => scientist_decision(robot, map, station),
        RobotType::Harvester => harvester_decision(robot, map, station),
    }
}

/// A policy: the energy figures of one kind of robot and its choice of task.
pub trait RobotBehavior {
    /// The kind of robot the policy is for.
    spec fn kind(&self) -> RobotType;

    /// Decides the robot's task for this turn, or `None` where it has
    /// nothing to do.
    fn decide_next_action(&self, robot: &Robot, map: &WorldMap, station: &Station) -> (task: Option<
        Task,
    >)
        requires
            map.wf(),
        ensures
            task == policy_decision(
                self.kind(),
                robot,
                map,
                station,
                position_hash(robot.id, robot.x, robot.y),
            ),
    ;

    fn get_energy_consumption_rate(&self) -> (r: u32)
        ensures
            r == consumption_rate(self.kind()),
    ;

    fn get_max_energy(&self) -> (e: u32)
        ensures
            e == max_energy_of(self.kind()),
    ;

    fn get_low_energy_threshold(&self) -> (t: u32)
        ensures
            t == low_energy_threshold(self.kind()),
    ;
}

/// The policy of an explorer: go home when needed, else make for the nearest
/// undiscovered cell, else for a cell drawn from the robot's id and position.
pub struct ExplorerBehavior;

impl ExplorerBehavior {
    /// The explorer's decision for a given seed of its fallback choice.
    pub fn decide_with_seed(&self, robot: &Robot, map: &WorldMap, station: &Station, seed: u64) -> (task:
        Option<Task>)
        requires
            map.wf(),
        ensures
            task == explorer_decision(robot, map, station, seed),
    {
        if robot.carrying.is_some() || robot.is_low_energy() {
            return Some(
                Task {
                    task_type: TaskType::ReturnToStation,
                    target_position: Some((station.x, station.y)),
                    priority: 9,
                },
            );
        }
        match SearchUtils::find_nearest_unexplored(robot.x, robot.y, 5, map) {
            Some(unexplored_area) => {
                return Some(
                    Task {
                        task_type: TaskType::Explore(
                            ExploreTask { target_area: unexplored_area, radius: 3 },
                        ),
                        target_position: Some(unexplored_area),
                        priority: 7,
                    },
                );
            },
            None => {},
        }
        match exploration_target_from_seed(seed, map) {
            Some(random_target) => Some(
                Task {
                    task_type: TaskType::Explore(
                        ExploreTask { target_area: random_target, radius: 2 },
                    ),
                    target_position: Some(random_target),
                    priority: 5,
                },
            ),
            None => None,
        }
    }

}

impl RobotBehavior for ExplorerBehavior {
    open spec fn kind(&self) -> RobotType {
        RobotType::Explorer
    }

    /// The fallback choice goes by a hash of the robot's id and position.
    fn decide_next_action(&self, robot: &Robot, map: &WorldMap, station: &Station) -> (task: Option<
        Task,
    >) {
        let seed = position_seed(robot.id, robot.x, robot.y);
        self.decide_with_seed(robot, map, station, seed)
    }

    fn get_energy_consumption_rate(&self) -> (r: u32) {
        2
    }

    fn get_max_energy(&self) -> (e: u32) {
        100
    }

    fn get_low_energy_threshold(&self) -> (t: u32) {
        20
    }
}

/// The policy of a scientist: go home when needed, else make for the nearest
/// cell of scientific interest, else for the nearest undiscovered cell.
pub struct ScientistBehavior;

impl RobotBehavior for ScientistBehavior {
    open spec fn kind(&self) -> RobotType {
        RobotType::Scientist
    }

    fn decide_next_action(&self, robot: &Robot, map: &WorldMap, station: &Station) -> (task: Option<
        Task,
    >) {

        if robot.carrying.is_some() || robot.is_low_energy() {
            return Some(
                Task {
                    task_type: TaskType::ReturnToStation,
                    target_position: Some((station.x, station.y)),
                    priority: 9,
                },
            );
        }
        match SearchUtils::find_nearest_scientific_interest(robot.x, robot.y, 6, map) {
            Some(scientific_position) => {
                return Some(
                    Task {
                        task_type: TaskType::Analyze(
                            AnalyzeTask {
                                target_position: scientific_position,
                                analysis_type: AnalysisType::Chemical,
                            },
                        ),
                        target_position: Some(scientific_position),
                        priority: 8,
                    },
                );
            },
            None => {},
        }
        match SearchUtils::find_nearest_unexplored(robot.x, robot.y, 6, map) {
            Some(exploration_target) => Some(
                Task {
                    task_type: TaskType::Explore(
                        ExploreTask { target_area: exploration_target, radius: 3 },
                    ),
                    target_position: Some(exploration_target),
                    priority: 6,
                },
            ),
            None => None,
        }
    }

    fn get_energy_consumption_rate(&self) -> (r: u32) {
        4
    }

    fn get_max_energy(&self) -> (e: u32) {
        100
    }

    fn get_low_energy_threshold(&self) -> (t: u32) {
        25
    }
}

/// The policy of a harvester: go home when needed, else make for the nearest
/// energy, else for the nearest minerals, else for the nearest undiscovered
/// cell.
pub struct HarvesterBehavior;

impl RobotBehavior for HarvesterBehavior {
    open spec fn kind(&self) -> RobotType {
        RobotType::Harvester
    }

    fn decide_next_action(&self, robot: &Robot, map: &WorldMap, station: &Station) -> (task: Option<
        Task,
    >) {

        if robot.carrying.is_some() || robot.is_low_energy() {
            return Some(
                Task {
                    task_type: TaskType::ReturnToStation,
                    target_position: Some((station.x, station.y)),
                    priority: 10,
                },
            );
        }
        match self.find_preferred_resource(robot, map) {
            Some((resource_type, position)) => {
                return Some(
                    Task {
                        task_type: TaskType::Harvest(
                            HarvestTask { resource_type, target_position: position },
                        ),
                        target_position: Some(position),
                        priority: 8,
                    },
                );
            },
            None => {},
        }
        match SearchUtils::find_nearest_unexplored(robot.x, robot.y, 4, map) {
            Some(exploration_target) => Some(
                Task {
                    task_type: TaskType::Explore(
                        ExploreTask { target_area: exploration_target, radius: 2 },
                    ),
                    target_position: Some(exploration_target),
                    priority: 6,
                },
            ),
            None => None,
        }
    }

    fn get_energy_consumption_rate(&self) -> (r: u32) {
        3
    }

    fn get_max_energy(&self) -> (e: u32) {
        100
    }

    fn get_low_energy_threshold(&self) -> (t: u32) {
        15
    }
}

impl HarvesterBehavior {
    /// The nearest energy within four rings, or else the nearest minerals.
    pub fn find_preferred_resource(&self, robot: &Robot, map: &WorldMap) -> (found: Option<
        (ResourceType, Position),
    >)
        requires
            map.wf(),
        ensures
            found == match nearest(
                map,
                SearchTarget::Resource { energy: true, mineral: false },
                robot.pos(),
                4,
            ) {
                Some(p) => Some((ResourceType::Energy, p)),
                None => match nearest(
                    map,
                    SearchTarget::Resource { energy: false, mineral: true },
                    robot.pos(),
                    4,
                ) {
                    Some(p) => Some((ResourceType::Mineral, p)),
                    None => None,
                },
            },
    {
        let mut energy_only: Vec<ResourceType> = Vec::new();
        energy_only.push(ResourceType::Energy);
        let mut mineral_only: Vec<ResourceType> = Vec::new();
        mineral_only.push(ResourceType::Mineral);
        proof {
            assert(energy_only@[0] == ResourceType::Energy);
            assert(mineral_only@[0] == ResourceType::Mineral);
            assert(energy_only@.contains(ResourceType::Energy));
            assert(mineral_only@.contains(ResourceType::Mineral));
        }
        match SearchUtils::find_nearest_resource(robot.x, robot.y, 4, map, energy_only.as_slice()) {
            Some((position, found_type)) => {
                return Some((found_type, position));
            },
            None => {},
        }
        match SearchUtils::find_nearest_resource(robot.x, robot.y, 4, map, mineral_only.as_slice()) {
            Some((position, found_type)) => Some((found_type, position)),
            None => None,
        }
    }

}

} // verus!
