//! The simulation loop: one turn gives every robot, in order, one decision
//! and one step.

use crate::behavior::position_hash;
use crate::executor::lemma_action_frame;
use crate::robot::Robot;
use crate::station::Station;
use crate::types::SimError;
use crate::world::WorldMap;
use vstd::prelude::*;

verus! {

/// The world of one simulation run and the count of its turns.
pub struct SimulationEngine {
    pub map: WorldMap,
    pub station: Station,
    pub step_count: u32,
}

/// The result that a record of a step stands for: a failure where one is
/// recorded, success where none is.
pub open spec fn as_result(outcome: Option<SimError>) -> Result<(), SimError> {
    match outcome {
        None => Ok(()),
        Some(e) => Err(e),
    }
}

/// One robot's turn: it decides on a task, the energy guard applied, and
/// carries out one step of it. A failure is recorded and changes nothing
/// beyond what the failed step itself left behind.
pub open spec fn robot_turn(
    before: Robot,
    after: Robot,
    map_before: &WorldMap,
    map_after: &WorldMap,
    station_before: Station,
    station_after: Station,
    outcome: Option<SimError>,
) -> bool {
    Robot::action_outcome(
        before,
        after,
        map_before,
        map_after,
        station_before,
        station_after,
        before.decision(
            map_before,
            &station_before,
            position_hash(before.id, before.x, before.y),
        ),
        as_result(outcome),
    )
}

/// A whole turn: the robots take their turns one after another, each on the
/// map and the station as the robot before it left them.
pub open spec fn turn_chain(
    robots_before: Seq<Robot>,
    robots_after: Seq<Robot>,
    maps: Seq<WorldMap>,
    stations: Seq<Station>,
    report: Seq<Option<SimError>>,
) -> bool {
    &&& robots_after.len() == robots_before.len()
    &&& report.len() == robots_before.len()
    &&& maps.len() == robots_before.len() + 1
    &&& stations.len() == robots_before.len() + 1
    &&& forall|i: int|
        0 <= i < robots_before.len() ==> #[trigger] robot_turn(
            robots_before[i],
            robots_after[i],
            &maps[i],
            &maps[i + 1],
            stations[i],
            stations[i + 1],
            report[i],
        )
}

/// Every robot stands on the grid.
pub open spec fn all_on_grid(map: &WorldMap, robots: Seq<Robot>) -> bool {
    forall|i: int| 0 <= i < robots.len() ==> map.in_bounds(
        (#[trigger] robots[i]).x as int,
        robots[i].y as int,
    )
}

impl SimulationEngine {
    /// The state a turn can start from: a well-formed map.
    pub open spec fn wf(&self) -> bool {
        self.map.wf()
    }

    /// The number a turn counter shows after one more turn. It stops at
    /// `u32::MAX`.
    pub open spec fn next_count(count: u32) -> u32 {
        if count < u32::MAX {
            (count + 1) as u32
        } else {
            count
        }
    }

    /// An engine at turn 0.
    pub fn new(map: WorldMap, station: Station) -> (engine: SimulationEngine)
        ensures
            engine.map == map,
            engine.station == station,
            engine.step_count == 0,
    {
        SimulationEngine { map, station, step_count: 0 }
    }

    /// Gives one robot its turn and returns the failure of its step, if it
    /// failed.
    pub fn take_turn(robot: &mut Robot, map: &mut WorldMap, station: &mut Station) -> (outcome:
        Option<SimError>)
        requires
            old(map).wf(),
            old(map).in_bounds(old(robot).x as int, old(robot).y as int),
        ensures
            robot_turn(
                *old(robot),
                *final(robot),
                old(map),
                final(map),
                *old(station),
                *final(station),
                outcome,
            ),
            final(map).wf(),
            final(map).width == old(map).width,
            final(map).height == old(map).height,
            final(map).terrain == old(map).terrain,
            final(map).seed == old(map).seed,
            final(map).in_bounds(final(robot).x as int, final(robot).y as int),
            final(robot).id == old(robot).id,
            final(robot).robot_type == old(robot).robot_type,
            forall|x: int, y: int|
                old(map).in_bounds(x, y) && old(map).discovered_at(x, y) ==> #[trigger] final(map).discovered_at(x, y),
    {
        let action = robot.decide_next_action(map, station);
        let result = robot.execute_action(map, station, action);
        proof {
            lemma_action_frame(
                *old(robot),
                *robot,
                old(map),
                map,
                *old(station),
                *station,
                action,
                result,
            );
        }
        match result {
            Ok(()) => None,
            Err(e) => Some(e),
        }
    }

    /// Runs one turn: every robot, in the order of the list, decides and
    /// takes one step; then the turn counter goes up by one. A robot's
    /// failure is put in the report at the robot's place and holds up no
    /// other robot.
    pub fn step(&mut self, robots: &mut Vec<Robot>) -> (report: Vec<Option<SimError>>)
        requires
            old(self).wf(),
            all_on_grid(&old(self).map, old(robots)@),
        ensures
            final(self).wf(),
            all_on_grid(&final(self).map, final(robots)@),
            final(self).step_count == SimulationEngine::next_count(old(self).step_count),
            final(self).map.width == old(self).map.width,
            final(self).map.height == old(self).map.height,
            final(self).map.terrain == old(self).map.terrain,
            final(self).map.seed == old(self).map.seed,
            forall|i: int|
                0 <= i < old(robots)@.len() ==> (#[trigger] final(robots)@[i]).id == old(robots)@[i].id
                    && final(robots)@[i].robot_type == old(robots)@[i].robot_type,
            forall|x: int, y: int|
                old(self).map.in_bounds(x, y) && old(self).map.discovered_at(x, y) ==> #[trigger] final(self).map.discovered_at(x, y),
            exists|maps: Seq<WorldMap>, stations: Seq<Station>|
                #![trigger turn_chain(old(robots)@, final(robots)@, maps, stations, report@)]
                {
                    &&& turn_chain(old(robots)@, final(robots)@, maps, stations, report@)
                    &&& maps[0] == old(self).map
                    &&& maps.last() == final(self).map
                    &&& stations[0] == old(self).station
                    &&& stations.last() == final(self).station
                },
    {
        let mut report: Vec<Option<SimError>> = Vec::new();
        let ghost mut maps: Seq<WorldMap> = seq![self.map];
        let ghost mut stations: Seq<Station> = seq![self.station];
        let mut i: usize = 0;
        while i < robots.len()
            invariant
                0 <= i <= robots@.len(),
                robots@.len() == old(robots)@.len(),
                self.map.wf(),
                self.step_count == old(self).step_count,
                self.map.width == old(self).map.width,
                self.map.height == old(self).map.height,
                self.map.terrain == old(self).map.terrain,
                self.map.seed == old(self).map.seed,
                all_on_grid(&self.map, robots@),
                forall|x: int, y: int|
                    old(self).map.in_bounds(x, y) && old(self).map.discovered_at(x, y)
                        ==> #[trigger] self.map.discovered_at(x, y),
                report@.len() == i,
                maps.len() == i + 1,
                stations.len() == i + 1,
                maps[0] == old(self).map,
                maps[i as int] == self.map,
                stations[0] == old(self).station,
                stations[i as int] == self.station,
                forall|j: int| i <= j < robots@.len() ==> robots@[j] == old(robots)@[j],
                forall|j: int|
                    0 <= j < robots@.len() ==> (#[trigger] robots@[j]).id == old(robots)@[j].id
                        && robots@[j].robot_type == old(robots)@[j].robot_type,
                forall|j: int|
                    0 <= j < i ==> #[trigger] robot_turn(
                        old(robots)@[j],
                        robots@[j],
                        &maps[j],
                        &maps[j + 1],
                        stations[j],
                        stations[j + 1],
                        report@[j],
                    ),
            decreases robots@.len() - i,
        {
            let ghost robots_before = robots@;
            let ghost map_before = self.map;
            let mut robot = robots[i];
            assert(self.map.in_bounds(robots_before[i as int].x as int, robots_before[i as int].y as int));
            let outcome = SimulationEngine::take_turn(&mut robot, &mut self.map, &mut self.station);
            robots.set(i, robot);
            report.push(outcome);
            proof {
                maps = maps.push(self.map);
                stations = stations.push(self.station);
                assert forall|j: int| 0 <= j < robots@.len() implies self.map.in_bounds(
                    (#[trigger] robots@[j]).x as int,
                    robots@[j].y as int,
                ) by {
                    if j != i {
                        assert(robots@[j] == robots_before[j]);
                        assert(map_before.in_bounds(robots_before[j].x as int, robots_before[j].y as int));
                    }
                }
            }
            i += 1;
        }
        self.step_count = if self.step_count < u32::MAX {
            self.step_count + 1
        } else {
            self.step_count
        };
        proof {
            assert(turn_chain(old(robots)@, robots@, maps, stations, report@));
        }
        report
    }
}

} // verus!
