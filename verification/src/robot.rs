//! A robot: where it stands, how much energy it has, and what it carries.

use crate::behavior::{
    consumption_rate,
    low_energy_threshold,
    max_energy_of,
    policy_decision,
    position_hash,
    position_seed,
    return_task,
    ExplorerBehavior,
    HarvesterBehavior,
    RobotBehavior,
    ScientistBehavior,
};
use crate::executor::{
    analyze_outcome,
    explore_outcome,
    harvest_outcome,
    return_outcome,
    Executor,
};
use crate::pathfinding::{manhattan, neighbor, step_target, Pathfinder};
use crate::station::{capped_sum, Station};
use crate::types::{
    Direction,
    Position,
    ResourceType,
    RobotState,
    RobotType,
    SimError,
    Task,
    TaskType,
};
use crate::world::{Resource, WorldMap};
use vstd::prelude::*;

verus! {

/// The terrain cost assumed for every step of the way home: the whole part
/// of one and a half, the mean of what a plain and a hill cost.
pub const AVERAGE_TERRAIN_COST: u32 = 1;

/// The energy a robot keeps in reserve beyond what a task and the way home
/// are estimated to take.
pub const SAFETY_MARGIN: u32 = 10;

/// One member of the swarm. Its `id` and `robot_type` never change.
#[derive(Debug, Clone, Copy, PartialEq, Eq)]
pub struct Robot {
    pub id: usize,
    pub robot_type: RobotType,
    pub x: usize,
    pub y: usize,
    pub energy: u32,
    pub carrying: Option<Resource>,
    pub state: RobotState,
}

impl Robot {
    pub open spec fn max_energy_spec(&self) -> u32 {
        max_energy_of(self.robot_type)
    }

    pub open spec fn rate_spec(&self) -> u32 {
        consumption_rate(self.robot_type)
    }

    pub open spec fn pos(&self) -> Position {
        (self.x, self.y)
    }

    /// Equal in everything but, possibly, the energy.
    pub open spec fn same_but_energy(&self, other: &Robot) -> bool {
        &&& self.id == other.id
        &&& self.robot_type == other.robot_type
        &&& self.x == other.x
        &&& self.y == other.y
        &&& self.carrying == other.carrying
        &&& self.state == other.state
    }

    /// Equal in everything but, possibly, the position.
    pub open spec fn same_but_position(&self, other: &Robot) -> bool {
        &&& self.id == other.id
        &&& self.robot_type == other.robot_type
        &&& self.energy == other.energy
        &&& self.carrying == other.carrying
        &&& self.state == other.state
    }

    /// A robot of the given kind at `(x, y)`, idle and carrying nothing.
    pub fn new(id: usize, robot_type: RobotType, x: usize, y: usize, energy: u32) -> (r: Robot)
        ensures
            r.id == id,
            r.robot_type == robot_type,
            r.x == x,
            r.y == y,
            r.energy == energy,
            r.carrying.is_none(),
            r.state == RobotState::Idle,
    {
        Robot { id, robot_type, x, y, energy, carrying: None, state: RobotState::Idle }
    }

    pub fn position(&self) -> (p: Position)
        ensures
            p == (self.x, self.y),
    {
        (self.x, self.y)
    }

    pub fn energy(&self) -> (e: u32)
        ensures
            e == self.energy,
    {
        self.energy
    }

    pub fn max_energy(&self) -> (e: u32)
        ensures
            e == self.max_energy_spec(),
    {
        self.robot_type.max_energy()
    }

    pub fn energy_consumption_rate(&self) -> (r: u32)
        ensures
            r == self.rate_spec(),
    {
        self.robot_type.energy_consumption_rate()
    }

    pub fn set_state(&mut self, new_state: RobotState)
        ensures
            final(self).state == new_state,
            final(self).id == old(self).id,
            final(self).robot_type == old(self).robot_type,
            final(self).x == old(self).x,
            final(self).y == old(self).y,
            final(self).energy == old(self).energy,
            final(self).carrying == old(self).carrying,
    {
        self.state = new_state;
    }

    /// Whether the energy has fallen to the threshold at which this kind of
    /// robot heads home.
    pub fn is_low_energy(&self) -> (low: bool)
        ensures
            low == (self.energy <= low_energy_threshold(self.robot_type)),
    {
        self.energy <= self.robot_type.low_energy_threshold()
    }

    /// Adds `amount` to the energy, which is held at `u32::MAX` where the sum
    /// would pass it.
    pub fn recharge(&mut self, amount: u32)
        ensures
            final(self).same_but_energy(old(self)),
            final(self).energy == if old(self).energy + amount <= u32::MAX {
                (old(self).energy + amount) as u32
            } else {
                u32::MAX
            },
    {
        self.energy = self.energy.saturating_add(amount);
    }

    /// The cell one step from the robot in the given direction.
    pub open spec fn target(&self, direction: Direction) -> (int, int) {
        step_target((self.x, self.y), direction)
    }

    /// What a step costs this robot on terrain of the given cost.
    pub open spec fn step_energy(&self, movement_cost: u32) -> int {
        self.rate_spec() + movement_cost - 1
    }

    /// The estimate of the energy the way to the station takes: the distance
    /// times the cost of a step on average terrain, held at `u32::MAX`.
    pub open spec fn return_estimate(&self, station: &Station) -> int {
        let distance: int = if manhattan(self.pos(), (station.x, station.y)) <= u32::MAX {
            manhattan(self.pos(), (station.x, station.y)) as int
        } else {
            u32::MAX as int
        };
        let total = distance * (self.rate_spec() + AVERAGE_TERRAIN_COST - 1);
        if total <= u32::MAX {
            total
        } else {
            u32::MAX as int
        }
    }

    /// The robot has the energy for one unit of work, the way home and the
    /// safety margin.
    pub open spec fn can_afford_task(&self, station: &Station) -> bool {
        self.energy >= self.rate_spec() + self.return_estimate(station) + SAFETY_MARGIN
    }

    /// Moves the robot one cell and returns the movement cost of the terrain
    /// entered. Energy is not charged here.
    ///
    /// The move fails with `OutOfBounds` when the destination lies off the
    /// grid and with `BlockedTerrain` when it is a mountain or a canyon; a
    /// failed move leaves the robot as it was.
    pub fn move_in_direction(&mut self, direction: Direction, map: &WorldMap) -> (result: Result<
        u32,
        SimError,
    >)
        requires
            map.wf(),
        ensures
            final(self).same_but_position(old(self)),
            map.in_bounds(old(self).x as int, old(self).y as int) ==> map.in_bounds(
                final(self).x as int,
                final(self).y as int,
            ),
            final(self).pos() == Robot::moved(map, old(self).pos(), direction),
            match result {
                Ok(cost) => {
                    &&& map.passable(old(self).target(direction).0, old(self).target(direction).1)
                    &&& (final(self).x as int, final(self).y as int) == old(self).target(direction)
                    &&& cost == map.terrain_at(final(self).x as int, final(self).y as int).cost()
                    &&& 1 <= cost <= 2
                },
                Err(e) => {
                    &&& *final(self) == *old(self)
                    &&& !map.passable(old(self).target(direction).0, old(self).target(direction).1)
                    &&& e == if map.in_bounds(
                        old(self).target(direction).0,
                        old(self).target(direction).1,
                    ) {
                        SimError::BlockedTerrain
                    } else {
                        SimError::OutOfBounds
                    }
                },
            },
    {
        match neighbor(map, (self.x, self.y), direction) {
            None => Err(SimError::OutOfBounds),
            Some(next) => {
                let terrain = map.get_terrain(next.0, next.1);
                if !terrain.is_traversable() {
                    return Err(SimError::BlockedTerrain);
                }
                let movement_cost = terrain.movement_cost();
                self.x = next.0;
                self.y = next.1;
                Ok(movement_cost)
            },
        }
    }

    /// Charges the energy of one step onto terrain of the given cost: the
    /// robot's consumption rate plus the terrain cost, less one.
    ///
    /// Fails with `InsufficientEnergy`, and charges nothing, when the robot
    /// has less than that.
    pub fn consume_energy_for_movement(&mut self, movement_cost: u32) -> (result: Result<
        (),
        SimError,
    >)
        ensures
            final(self).same_but_energy(old(self)),
            match result {
                Ok(()) => {
                    &&& old(self).energy >= old(self).step_energy(movement_cost)
                    &&& final(self).energy == old(self).energy - old(self).step_energy(movement_cost)
                },
                Err(e) => {
                    &&& e == SimError::InsufficientEnergy
                    &&& old(self).energy < old(self).step_energy(movement_cost)
                    &&& final(self).energy == old(self).energy
                },
            },
    {
        let rate: u64 = self.energy_consumption_rate() as u64;
        let total_cost: u64 = rate + movement_cost as u64 - 1;
        if self.energy as u64 >= total_cost {
            self.energy = self.energy - total_cost as u32;
            Ok(())
        } else {
            Err(SimError::InsufficientEnergy)
        }
    }

    /// Picks up the resource on the robot's cell, whole: in the same step the
    /// cell is emptied and the robot carries what lay there.
    ///
    /// Fails with `AlreadyCarrying` when the robot holds something, and
    /// otherwise with `NoResourceAtPosition` when the cell is empty; a failed
    /// pick-up changes neither robot nor map.
    pub fn collect_resource(&mut self, map: &mut WorldMap) -> (result: Result<(), SimError>)
        requires
            old(map).wf(),
        ensures
            final(map).wf(),
            final(map).same_ground(old(map)),
            final(self).id == old(self).id,
            final(self).robot_type == old(self).robot_type,
            final(self).x == old(self).x,
            final(self).y == old(self).y,
            final(self).energy == old(self).energy,
            final(self).state == old(self).state,
            forall|x: int, y: int|
                old(map).in_bounds(x, y) && (x != old(self).x || y != old(self).y) ==> final(map).resource_at(x, y) == old(map).resource_at(x, y),
            match result {
                Ok(()) => {
                    &&& old(self).carrying.is_none()
                    &&& old(map).resource_at(old(self).x as int, old(self).y as int).is_some()
                    &&& final(self).carrying == old(map).resource_at(
                        old(self).x as int,
                        old(self).y as int,
                    )
                    &&& final(map).resource_at(old(self).x as int, old(self).y as int).is_none()
                },
                Err(e) => {
                    &&& final(self).carrying == old(self).carrying
                    &&& final(map).resources@ == old(map).resources@
                    &&& e == if old(self).carrying.is_some() {
                        SimError::AlreadyCarrying
                    } else {
                        SimError::NoResourceAtPosition
                    }
                    &&& (old(self).carrying.is_some() || old(map).resource_at(
                        old(self).x as int,
                        old(self).y as int,
                    ).is_none())
                },
            },
    {
        if self.carrying.is_some() {
            return Err(SimError::AlreadyCarrying);
        }
        match map.take_resource((self.x, self.y)) {
            Some(resource) => {
                self.carrying = Some(resource);
                Ok(())
            },
            None => Err(SimError::NoResourceAtPosition),
        }
    }

    /// Hands what the robot carries to the station's bank.
    ///
    /// Fails with `NotCarrying`, and changes nothing, when the robot holds
    /// nothing.
    pub fn deliver_resource(&mut self, station: &mut Station) -> (result: Result<(), SimError>)
        ensures
            final(self).id == old(self).id,
            final(self).robot_type == old(self).robot_type,
            final(self).x == old(self).x,
            final(self).y == old(self).y,
            final(self).energy == old(self).energy,
            final(self).state == old(self).state,
            final(station).x == old(station).x,
            final(station).y == old(station).y,
            final(station).discoveries == old(station).discoveries,
            match result {
                Ok(()) => {
                    &&& old(self).carrying.is_some()
                    &&& final(self).carrying.is_none()
                    &&& *final(station) == old(station).received(
                        old(self).carrying.unwrap().0,
                        old(self).carrying.unwrap().1,
                    )
                    &&& final(station).bank(old(self).carrying.unwrap().0) == capped_sum(
                        old(station).bank(old(self).carrying.unwrap().0),
                        old(self).carrying.unwrap().1,
                    )
                    &&& forall|kind: ResourceType|
                        kind != old(self).carrying.unwrap().0 ==> final(station).bank(kind) == old(station).bank(kind)
                },
                Err(e) => {
                    &&& e == SimError::NotCarrying
                    &&& old(self).carrying.is_none()
                    &&& final(self).carrying.is_none()
                    &&& *final(station) == *old(station)
                },
            },
    {
        match self.carrying {
            None => Err(SimError::NotCarrying),
            Some(load) => {
                station.receive_resource(load.0, load.1);
                self.carrying = None;
                Ok(())
            },
        }
    }

    /// An estimate of the energy the way to the station takes. It goes by the
    /// Manhattan distance and an average terrain cost, not by a real path.
    pub fn energy_needed_to_return_to_station(&self, station: &Station) -> (needed: u32)
        ensures
            needed == self.return_estimate(station),
    {
        let distance = Pathfinder::manhattan_distance_to(self.position(), (station.x, station.y));
        let energy_per_move: u32 = self.energy_consumption_rate() + AVERAGE_TERRAIN_COST - 1;
        let total: u64 = (distance as u64) * (energy_per_move as u64);
        proof {
            assert((distance as int) * (energy_per_move as int) <= 0xFFFF_FFFF * 4)
                by (nonlinear_arith)
                requires
                    0 <= distance <= 0xFFFF_FFFF,
                    0 <= energy_per_move <= 4,
            ;
        }
        if total > 0xFFFF_FFFF {
            u32::MAX
        } else {
            total as u32
        }
    }

    /// Whether the robot can do one unit of work and still make it home with
    /// the safety margin to spare.
    pub fn can_perform_task_and_return(&self, station: &Station) -> (able: bool)
        ensures
            able == self.can_afford_task(station),
    {
        let energy_for_task: u64 = self.energy_consumption_rate() as u64;
        let energy_for_return: u64 = self.energy_needed_to_return_to_station(station) as u64;
        let total_energy_needed: u64 = energy_for_task + energy_for_return;
        self.energy as u64 >= total_energy_needed + SAFETY_MARGIN as u64
    }

    /// Marks as discovered every cell of the map within `radius` steps
    /// (Manhattan distance) of `center`. No cell is ever unmarked.
    pub fn mark_area_as_discovered(&self, map: &mut WorldMap, center: Position, radius: usize)
        requires
            old(map).wf(),
        ensures
            final(map).wf(),
            final(map).same_world(old(map)),
            forall|x: int, y: int|
                old(map).in_bounds(x, y) ==> #[trigger] final(map).discovered_at(x, y) == (old(map).discovered_at(x, y) || manhattan((x as usize, y as usize), center) <= radius),
    {
        let start_x: usize = if center.0 >= radius {
            center.0 - radius
        } else {
            0
        };
        let start_y: usize = if center.1 >= radius {
            center.1 - radius
        } else {
            0
        };
        let end_x: usize = if center.0 < map.width && radius < map.width - center.0 {
            center.0 + radius + 1
        } else {
            map.width
        };
        let end_y: usize = if center.1 < map.height && radius < map.height - center.1 {
            center.1 + radius + 1
        } else {
            map.height
        };
        let mut y = start_y;
        while y < end_y
            invariant
                old(map).wf(),
                map.wf(),
                map.same_world(old(map)),
                end_x <= map.width,
                end_y <= map.height,
                start_y <= y,
                forall|cx: int, cy: int|
                    old(map).in_bounds(cx, cy) ==> #[trigger] map.discovered_at(cx, cy) == (old(map).discovered_at(cx, cy) || (start_y <= cy < y && start_x <= cx < end_x
                        && manhattan((cx as usize, cy as usize), center) <= radius)),
            decreases end_y - y,
        {
            let mut x = start_x;
            while x < end_x
                invariant
                    old(map).wf(),
                    map.wf(),
                    map.same_world(old(map)),
                    end_x <= map.width,
                    end_y <= map.height,
                    start_y <= y < end_y,
                    start_x <= x,
                    x <= end_x || x == start_x,
                    forall|cx: int, cy: int|
                        old(map).in_bounds(cx, cy) ==> #[trigger] map.discovered_at(cx, cy) == (old(map).discovered_at(cx, cy) || (((start_y <= cy < y && start_x <= cx < end_x)
                            || (cy == y && start_x <= cx < x)) && manhattan(
                            (cx as usize, cy as usize),
                            center,
                        ) <= radius)),
                decreases end_x - x,
            {
                let dx: usize = if x > center.0 {
                    x - center.0
                } else {
                    center.0 - x
                };
                let dy: usize = if y > center.1 {
                    y - center.1
                } else {
                    center.1 - y
                };
                let ghost before = *map;
                if dx <= radius && dy <= radius - dx {
                    map.mark_discovered(x, y);
                }
                proof {
                    assert forall|cx: int, cy: int| old(map).in_bounds(cx, cy) implies #[trigger] map.discovered_at(
                        cx,
                        cy,
                    ) == (old(map).discovered_at(cx, cy) || (((start_y <= cy < y && start_x <= cx
                        < end_x) || (cy == y && start_x <= cx < x + 1)) && manhattan(
                        (cx as usize, cy as usize),
                        center,
                    ) <= radius)) by {
                        assert(before.in_bounds(cx, cy));
                        if cx != x || cy != y {
                            assert(map.discovered_at(cx, cy) == before.discovered_at(cx, cy));
                        }
                    }
                }
                x += 1;
            }
            y += 1;
        }
    }

    /// Where a robot standing on `from` stands after trying to step in
    /// direction `d`: on the neighbour if it can stand there, else on `from`.
    pub open spec fn moved(map: &WorldMap, from: Position, d: Direction) -> Position {
        let t = step_target(from, d);
        if map.passable(t.0, t.1) {
            (t.0 as usize, t.1 as usize)
        } else {
            from
        }
    }

    /// Where a robot stands after trying the given moves one after another.
    pub open spec fn after_moves(map: &WorldMap, from: Position, moves: Seq<Direction>) -> Position
        decreases moves.len(),
    {
        if moves.len() == 0 {
            from
        } else {
            Robot::moved(map, Robot::after_moves(map, from, moves.drop_last()), moves.last())
        }
    }

    /// What the robot's policy proposes, with the energy guard applied: a
    /// proposal that the robot cannot afford gives way to the order to
    /// return, at the highest priority.
    pub open spec fn decision(&self, map: &WorldMap, station: &Station, seed: u64) -> Option<Task> {
        let proposed = policy_decision(self.robot_type, self, map, station, seed);
        if proposed.is_some() && !self.can_afford_task(station) {
            Some(return_task(station, 10))
        } else {
            proposed
        }
    }

    /// The robot's decision for a given seed of an explorer's fallback choice.
    pub fn decide_with_seed(&self, map: &WorldMap, station: &Station, seed: u64) -> (task: Option<
        Task,
    >)
        requires
            map.wf(),
        ensures
            task == self.decision(map, station, seed),
    {
        let action = match self.robot_type {
            RobotType::Explorer => ExplorerBehavior.decide_with_seed(self, map, station, seed),
            RobotType::Scientist => ScientistBehavior.decide_next_action(self, map, station),
            RobotType::Harvester => HarvesterBehavior.decide_next_action(self, map, station),
        };
        if action.is_some() && !self.can_perform_task_and_return(station) {
            return Some(
                Task {
                    task_type: TaskType::ReturnToStation,
                    target_position: Some((station.x, station.y)),
                    priority: 10,
                },
            );
        }
        action
    }

    /// Decides the robot's task for this turn, or `None` where it has
    /// nothing to do.
    pub fn decide_next_action(&self, map: &WorldMap, station: &Station) -> (task: Option<Task>)
        requires
            map.wf(),
        ensures
            task == self.decision(map, station, position_hash(self.id, self.x, self.y)),
    {
        let seed = position_seed(self.id, self.x, self.y);
        self.decide_with_seed(map, station, seed)
    }

    /// What carrying out `action` does to robot, map and station.
    pub open spec fn action_outcome(
        before: Robot,
        after: Robot,
        map_before: &WorldMap,
        map_after: &WorldMap,
        station_before: Station,
        station_after: Station,
        action: Option<Task>,
        result: Result<(), SimError>,
    ) -> bool {
        match action {
            None => {
                &&& result == Ok::<(), SimError>(())
                &&& after == before
                &&& map_after == map_before
                &&& station_after == station_before
            },
            Some(task) => match task.task_type {
                TaskType::Explore(explore) => {
                    &&& explore_outcome(before, after, map_before, map_after, explore, result)
                    &&& station_after == station_before
                },
                TaskType::Harvest(harvest) => {
                    &&& harvest_outcome(before, after, map_before, map_after, harvest, result)
                    &&& station_after == station_before
                },
                TaskType::Analyze(analyze) => {
                    &&& analyze_outcome(before, after, map_before, map_after, analyze, result)
                    &&& station_after == station_before
                },
                TaskType::ReturnToStation => return_outcome(
                    before,
                    after,
                    map_before,
                    map_after,
                    station_before,
                    station_after,
                    result,
                ),
            },
        }
    }

    /// Carries out one step of the given task; with no task the robot idles.
    pub fn execute_action(&mut self, map: &mut WorldMap, station: &mut Station, action: Option<Task>) -> (result:
        Result<(), SimError>)
        requires
            old(map).wf(),
            old(map).in_bounds(old(self).x as int, old(self).y as int),
        ensures
            Robot::action_outcome(
                *old(self),
                *final(self),
                old(map),
                final(map),
                *old(station),
                *final(station),
                action,
                result,
            ),
            final(map).wf(),
            final(map).in_bounds(final(self).x as int, final(self).y as int),
    {
        match action {
            Some(task) => match task.task_type {
                TaskType::Explore(explore_task) => Executor::execute_explore_task(
                    self,
                    map,
                    explore_task,
                ),
                TaskType::Harvest(harvest_task) => Executor::execute_harvest_task(
                    self,
                    map,
                    harvest_task,
                ),
                TaskType::Analyze(analyze_task) => Executor::execute_analyze_task(
                    self,
                    map,
                    analyze_task,
                ),
                TaskType::ReturnToStation => Executor::execute_return_to_station_task(
                    self,
                    map,
                    station,
                ),
            },
            None => Ok(()),
        }
    }
}

/// Whatever moves a robot tries, from a cell of the grid it never leaves the
/// grid.
pub proof fn lemma_moves_stay_in_bounds(map: &WorldMap, from: Position, moves: Seq<Direction>)
    requires
        map.in_bounds(from.0 as int, from.1 as int),
    ensures
        map.in_bounds(
            Robot::after_moves(map, from, moves).0 as int,
            Robot::after_moves(map, from, moves).1 as int,
        ),
    decreases moves.len(),
{
    if moves.len() > 0 {
        lemma_moves_stay_in_bounds(map, from, moves.drop_last());
    }
}

/// A move onto a mountain or a canyon is never made: the robot stays where
/// it is.
pub proof fn lemma_blocked_move_stays(map: &WorldMap, from: Position, d: Direction)
    requires
        map.in_bounds(step_target(from, d).0, step_target(from, d).1),
        !map.terrain_at(step_target(from, d).0, step_target(from, d).1).traversable(),
    ensures
        Robot::moved(map, from, d) == from,
{
}

} // verus!
