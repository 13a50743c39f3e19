//! The station: where robots bring what they carry and refill their energy.

use crate::robot::Robot;
use crate::types::{Position, ResourceType, SimError};
use vstd::prelude::*;

verus! {

/// The most energy the station hands to a robot in one recharge.
pub const STATION_RECHARGE_RATE: u32 = 50;

/// A fixed place on the map with a bank of delivered resources.
pub struct Station {
    /// Energy in the bank.
    pub energy_stock: u32,
    /// Minerals in the bank.
    pub mineral_stock: u32,
    pub discoveries: u32,
    pub x: usize,
    pub y: usize,
}

/// The sum of two amounts, held at `u32::MAX` where it would pass it.
pub open spec fn capped_sum(a: u32, b: u32) -> u32 {
    if a + b <= u32::MAX {
        (a + b) as u32
    } else {
        u32::MAX
    }
}

/// The least of three amounts.
pub open spec fn min3(a: int, b: int, c: int) -> int {
    if a <= b && a <= c {
        a
    } else if b <= c {
        b
    } else {
        c
    }
}

impl Station {
    /// What the bank holds of one kind of resource.
    pub open spec fn bank(&self, kind: ResourceType) -> u32 {
        match kind {
            ResourceType::Energy => self.energy_stock,
            ResourceType::Mineral => self.mineral_stock,
        }
    }

    /// The station with `amount` more of one kind in its bank.
    pub open spec fn received(self, kind: ResourceType, amount: u32) -> Station {
        match kind {
            ResourceType::Energy => Station {
                energy_stock: capped_sum(self.energy_stock, amount),
                ..self
            },
            ResourceType::Mineral => Station {
                mineral_stock: capped_sum(self.mineral_stock, amount),
                ..self
            },
        }
    }

    /// The energy a recharge hands to a robot that lacks `needed`, from a
    /// bank that holds `available`.
    pub open spec fn transfer_amount(needed: int, available: int) -> int {
        min3(needed, STATION_RECHARGE_RATE as int, available)
    }

    /// An empty station at `(x, y)`.
    pub fn new(x: usize, y: usize) -> (s: Station)
        ensures
            s.x == x,
            s.y == y,
            s.discoveries == 0,
            forall|kind: ResourceType| s.bank(kind) == 0,
    {
        Station { energy_stock: 0, mineral_stock: 0, discoveries: 0, x, y }
    }

    pub fn position(&self) -> (p: Position)
        ensures
            p == (self.x, self.y),
    {
        (self.x, self.y)
    }

    /// Adds `amount` to the bank of `resource_type`. A bank is full at
    /// `u32::MAX` and holds no more than that.
    pub fn receive_resource(&mut self, resource_type: ResourceType, amount: u32)
        ensures
            *final(self) == old(self).received(resource_type, amount),
            final(self).bank(resource_type) == capped_sum(old(self).bank(resource_type), amount),
            forall|kind: ResourceType|
                kind != resource_type ==> final(self).bank(kind) == old(self).bank(kind),
            final(self).x == old(self).x,
            final(self).y == old(self).y,
            final(self).discoveries == old(self).discoveries,
    {
        match resource_type {
            ResourceType::Energy => {
                self.energy_stock = self.energy_stock.saturating_add(amount);
            },
            ResourceType::Mineral => {
                self.mineral_stock = self.mineral_stock.saturating_add(amount);
            },
        }
    }

    pub fn get_resource_amount(&self, resource_type: &ResourceType) -> (amount: u32)
        ensures
            amount == self.bank(*resource_type),
    {
        match resource_type {
            ResourceType::Energy => self.energy_stock,
            ResourceType::Mineral => self.mineral_stock,
        }
    }

    pub fn robot_at_station(&self, robot_position: Position) -> (here: bool)
        ensures
            here == (robot_position == (self.x, self.y)),
    {
        robot_position.0 == self.x && robot_position.1 == self.y
    }

    /// Whether the bank holds any energy to give.
    pub fn can_recharge(&self) -> (able: bool)
        ensures
            able == (self.bank(ResourceType::Energy) > 0),
    {
        self.energy_stock > 0
    }

    /// Refills a robot from the bank and returns the energy handed over.
    ///
    /// Fails with `NoEnergyAvailable` when the bank holds no energy, and
    /// otherwise with `AlreadyFull` when the robot lacks none. On success the
    /// robot gains, and the bank loses, the least of what the robot lacks,
    /// `STATION_RECHARGE_RATE` and what the bank holds. A failed recharge
    /// changes nothing.
    pub fn recharge_robot(&mut self, robot: &mut Robot) -> (result: Result<u32, SimError>)
        ensures
            final(self).mineral_stock == old(self).mineral_stock,
            final(self).discoveries == old(self).discoveries,
            final(self).x == old(self).x,
            final(self).y == old(self).y,
            final(robot).same_but_energy(old(robot)),
            old(robot).energy <= old(robot).max_energy_spec() ==> final(robot).energy <= final(robot).max_energy_spec(),
            old(self).energy_stock - final(self).energy_stock == final(robot).energy - old(robot).energy,
            match result {
                Ok(given) => {
                    &&& old(self).energy_stock > 0
                    &&& old(robot).energy < old(robot).max_energy_spec()
                    &&& given == Station::transfer_amount(
                        old(robot).max_energy_spec() - old(robot).energy,
                        old(self).energy_stock as int,
                    )
                    &&& given > 0
                    &&& final(robot).energy == old(robot).energy + given
                    &&& final(robot).energy <= old(robot).max_energy_spec()
                    &&& final(self).energy_stock == old(self).energy_stock - given
                },
                Err(e) => {
                    &&& *final(self) == *old(self)
                    &&& final(robot).energy == old(robot).energy
                    &&& e == if old(self).energy_stock == 0 {
                        SimError::NoEnergyAvailable
                    } else {
                        SimError::AlreadyFull
                    }
                    &&& (old(self).energy_stock == 0 || old(robot).energy >= old(robot).max_energy_spec())
                },
            },
    {
        let energy_available = self.energy_stock;
        if energy_available == 0 {
            return Err(SimError::NoEnergyAvailable);
        }
        let max = robot.max_energy();
        if robot.energy >= max {
            return Err(SimError::AlreadyFull);
        }
        let energy_needed = max - robot.energy;
        let energy_to_transfer = if energy_needed < STATION_RECHARGE_RATE {
            energy_needed
        } else {
            STATION_RECHARGE_RATE
        };
        let actual_transfer = if energy_to_transfer < energy_available {
            energy_to_transfer
        } else {
            energy_available
        };
        robot.recharge(actual_transfer);
        self.energy_stock = energy_available - actual_transfer;
        Ok(actual_transfer)
    }
}

} // verus!
