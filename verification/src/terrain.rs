//! Terrain classes and their movement rules.

use vstd::prelude::*;

verus! {

/// The terrain of a cell. Plains and hills can be entered; mountains and
/// canyons cannot.
#[derive(Debug, Clone, Copy, PartialEq, Eq, Structural)]
pub enum TerrainType {
    Plain,
    Hill,
    Mountain,
    Canyon,
}

impl TerrainType {
    /// The terrain that a stored code stands for. Codes that name no terrain
    /// read as plain.
    pub open spec fn of_code(code: u8) -> TerrainType {
        if code == 1 {
            TerrainType::Hill
        } else if code == 2 {
            TerrainType::Mountain
        } else if code == 3 {
            TerrainType::Canyon
        } else {
            TerrainType::Plain
        }
    }

    /// The code under which a terrain is stored.
    pub open spec fn code_spec(self) -> u8 {
        match self {
            TerrainType::Plain => 0,
            TerrainType::Hill => 1,
            TerrainType::Mountain => 2,
            TerrainType::Canyon => 3,
        }
    }

    pub open spec fn traversable(self) -> bool {
        self == TerrainType::Plain || self == TerrainType::Hill
    }

    /// Energy-relevant cost of stepping onto this terrain; 0 for terrain that
    /// cannot be entered.
    pub open spec fn cost(self) -> nat {
        match self {
            TerrainType::Plain => 1,
            TerrainType::Hill => 2,
            TerrainType::Mountain => 0,
            TerrainType::Canyon => 0,
        }
    }

    pub fn code(self) -> (c: u8)
        ensures
            c == self.code_spec(),
            TerrainType::of_code(c) == self,
    {
        match self {
            TerrainType::Plain => 0,
            TerrainType::Hill => 1,
            TerrainType::Mountain => 2,
            TerrainType::Canyon => 3,
        }
    }

    pub fn is_traversable(&self) -> (t: bool)
        ensures
            t == self.traversable(),
    {
        match self {
            TerrainType::Plain => true,
            TerrainType::Hill => true,
            TerrainType::Mountain => false,
            TerrainType::Canyon => false,
        }
    }

    pub fn movement_cost(&self) -> (c: u32)
        ensures
            c == self.cost(),
            self.traversable() ==> 1 <= c <= 2,
    {
        match self {
            TerrainType::Plain => 1,
            TerrainType::Hill => 2,
            TerrainType::Mountain => 0,
            TerrainType::Canyon => 0,
        }
    }
}

impl From<u8> for TerrainType {
    fn from(value: u8) -> (t: TerrainType) {
        if value == 1 {
            TerrainType::Hill
        } else if value == 2 {
            TerrainType::Mountain
        } else if value == 3 {
            TerrainType::Canyon
        } else {
            TerrainType::Plain
        }
    }
}

impl vstd::std_specs::convert::FromSpecImpl<u8> for TerrainType {
    open spec fn obeys_from_spec() -> bool {
        true
    }

    open spec fn from_spec(value: u8) -> TerrainType {
        TerrainType::of_code(value)
    }
}

} // verus!
