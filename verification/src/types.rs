//! Plain data shared by every component: robot kinds and states, compass
//! directions, resource kinds and the tasks a robot can be given.

use vstd::prelude::*;

verus! {

/// A cell position as `(x, y)`, column first.
pub type Position = (usize, usize);

/// The kind of a robot, fixed when the robot is created.
#[derive(Debug, Clone, Copy, PartialEq, Eq, Structural)]
pub enum RobotType {
    Explorer,
    Scientist,
    Harvester,
}

/// What a robot is currently doing. The label is kept for observers only and
/// never influences a decision.
#[derive(Debug, Clone, Copy, PartialEq, Eq, Structural)]
pub enum RobotState {
    Idle,
    Exploring,
    MovingToResource,
    Harvesting,
    ReturningToStation,
    Analyzing,
}

/// The kind of a resource lying on the map or stored in the station.
#[derive(Debug, Clone, Copy, PartialEq, Eq, Hash, Structural)]
pub enum ResourceType {
    Energy,
    Mineral,
}

/// One of the four grid directions. North is towards smaller `y`.
#[derive(Debug, Clone, Copy, PartialEq, Eq, Structural)]
pub enum Direction {
    North,
    South,
    East,
    West,
}

impl Direction {
    /// The step this direction makes, as `(dx, dy)`.
    pub open spec fn delta(self) -> (int, int) {
        match self {
            Direction::North => (0, -1),
            Direction::South => (0, 1),
            Direction::East => (1, 0),
            Direction::West => (-1, 0),
        }
    }

    /// The four directions in the order in which neighbours are visited.
    pub open spec fn all_spec() -> Seq<Direction> {
        seq![Direction::North, Direction::South, Direction::East, Direction::West]
    }

    pub fn to_delta(self) -> (d: (i32, i32))
        ensures
            d.0 == self.delta().0,
            d.1 == self.delta().1,
    {
        match self {
            Direction::North => (0, -1),
            Direction::South => (0, 1),
            Direction::East => (1, 0),
            Direction::West => (-1, 0),
        }
    }

    pub fn all() -> (dirs: Vec<Direction>)
        ensures
            dirs@ == Self::all_spec(),
    {
        let mut dirs: Vec<Direction> = Vec::new();
        dirs.push(Direction::North);
        dirs.push(Direction::South);
        dirs.push(Direction::East);
        dirs.push(Direction::West);
        assert(dirs@ =~= Self::all_spec());
        dirs
    }
}

/// Explore the cells around `target_area` up to `radius` steps away.
#[derive(Debug, Clone, Copy, PartialEq, Eq)]
pub struct ExploreTask {
    pub target_area: Position,
    pub radius: usize,
}

/// Pick up the resource of the given kind at `target_position`.
#[derive(Debug, Clone, Copy, PartialEq, Eq)]
pub struct HarvestTask {
    pub resource_type: ResourceType,
    pub target_position: Position,
}

/// The kind of analysis a scientist performs.
#[derive(Debug, Clone, Copy, PartialEq, Eq, Structural)]
pub enum AnalysisType {
    Chemical,
}

/// Analyse the cell at `target_position`.
#[derive(Debug, Clone, Copy, PartialEq, Eq)]
pub struct AnalyzeTask {
    pub target_position: Position,
    pub analysis_type: AnalysisType,
}

/// What a task asks for.
#[derive(Debug, Clone, Copy, PartialEq, Eq)]
pub enum TaskType {
    Explore(ExploreTask),
    Harvest(HarvestTask),
    Analyze(AnalyzeTask),
    ReturnToStation,
}

/// A robot's intent for one turn. The priority is carried for observers; a
/// robot is given exactly one task per turn and executes it.
#[derive(Debug, Clone, Copy, PartialEq, Eq)]
pub struct Task {
    pub task_type: TaskType,
    pub target_position: Option<Position>,
    pub priority: u8,
}

/// Why an operation on a robot, the map or the station did not take place.
#[derive(Debug, Clone, Copy, PartialEq, Eq, Structural)]
pub enum SimError {
    /// The destination of a move lies outside the grid.
    OutOfBounds,
    /// The destination of a move is a mountain or a canyon.
    BlockedTerrain,
    /// The robot has less energy than the move costs.
    InsufficientEnergy,
    /// The robot already holds a resource.
    AlreadyCarrying,
    /// The robot holds nothing to deliver.
    NotCarrying,
    /// There is no resource on the robot's cell.
    NoResourceAtPosition,
    /// The station has no energy in its bank.
    NoEnergyAvailable,
    /// The robot's energy is already at its maximum.
    AlreadyFull,
}

impl SimError {
    /// The text shown to a person for this error.
    pub open spec fn message_spec(self) -> Seq<char> {
        match self {
            SimError::OutOfBounds => "Move out of bounds"@,
            SimError::BlockedTerrain => "Move blocked by terrain"@,
            SimError::InsufficientEnergy => "Insufficient energy for movement"@,
            SimError::AlreadyCarrying => "Already carrying a resource"@,
            SimError::NotCarrying => "Not carrying a resource"@,
            SimError::NoResourceAtPosition => "No resource found at position"@,
            SimError::NoEnergyAvailable => "No energy available for recharging"@,
            SimError::AlreadyFull => "Robot is already at full energy"@,
        }
    }

    pub fn message(&self) -> (text: &'static str)
        ensures
            text@ == self.message_spec(),
    {
        match self {
            SimError::OutOfBounds => "Move out of bounds",
            SimError::BlockedTerrain => "Move blocked by terrain",
            SimError::InsufficientEnergy => "Insufficient energy for movement",
            SimError::AlreadyCarrying => "Already carrying a resource",
            SimError::NotCarrying => "Not carrying a resource",
            SimError::NoResourceAtPosition => "No resource found at position",
            SimError::NoEnergyAvailable => "No energy available for recharging",
            SimError::AlreadyFull => "Robot is already at full energy",
        }
    }
}

} // verus!
