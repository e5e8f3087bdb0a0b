pub mod set;
pub mod state;

pub use set::ShipSet;
pub use set::ShipSetBuilder;
pub use state::ShipState;

use vstd::prelude::*;

verus! {

/// The direction in which a ship's cells extend from its anchor cell.
#[derive(Clone, Copy, PartialEq, Eq, Hash, Debug, Structural)]
pub enum ShipRotation {
    Up,
    Down,
    Left,
    Right,
}

impl ShipRotation {
    /// The rotation one quarter-turn clockwise from this one.
    pub open spec fn clockwise(self) -> ShipRotation {
        match self {
            ShipRotation::Up => ShipRotation::Right,
            ShipRotation::Right => ShipRotation::Down,
            ShipRotation::Down => ShipRotation::Left,
            ShipRotation::Left => ShipRotation::Up,
        }
    }

    /// The rotation one quarter-turn counter-clockwise from this one.
    pub open spec fn counter_clockwise(self) -> ShipRotation {
        match self {
            ShipRotation::Up => ShipRotation::Left,
            ShipRotation::Left => ShipRotation::Down,
            ShipRotation::Down => ShipRotation::Right,
            ShipRotation::Right => ShipRotation::Up,
        }
    }

    /// Turns the rotation one quarter-turn clockwise.
    pub fn next(&mut self)
        ensures
            *final(self) == old(self).clockwise(),
    {
        *self = match *self {
            ShipRotation::Up => ShipRotation::Right,
            ShipRotation::Right => ShipRotation::Down,
            ShipRotation::Down => ShipRotation::Left,
            ShipRotation::Left => ShipRotation::Up,
        };
    }

    /// Turns the rotation one quarter-turn counter-clockwise.
    pub fn prev(&mut self)
        ensures
            *final(self) == old(self).counter_clockwise(),
    {
        *self = match *self {
            ShipRotation::Up => ShipRotation::Left,
            ShipRotation::Left => ShipRotation::Down,
            ShipRotation::Down => ShipRotation::Right,
            ShipRotation::Right => ShipRotation::Up,
        };
    }
}

/// The five kinds of ship in a fleet, in the fixed order a player places
/// them during setup.
#[derive(Clone, Copy, PartialEq, Eq, Hash, Debug, Structural)]
pub enum ShipType {
    AircraftCarrier,
    Battleship,
    Destroyer,
    Submarine,
    PatrolBoat,
}

impl ShipType {
    /// Number of grid cells a ship of this kind occupies.
    pub open spec fn length(self) -> int {
        match self {
            ShipType::AircraftCarrier => 5,
            ShipType::Battleship => 4,
            ShipType::Destroyer => 3,
            ShipType::Submarine => 3,
            ShipType::PatrolBoat => 2,
        }
    }

    /// The kind placed after this one in the fixed setup order; the last
    /// kind has no successor and stays put.
    pub open spec fn successor(self) -> ShipType {
        match self {
            ShipType::AircraftCarrier => ShipType::Battleship,
            ShipType::Battleship => ShipType::Destroyer,
            ShipType::Destroyer => ShipType::Submarine,
            ShipType::Submarine => ShipType::PatrolBoat,
            ShipType::PatrolBoat => ShipType::PatrolBoat,
        }
    }

    /// Advances to the next kind in the fixed setup order.  Returns `true`
    /// if this was already the last kind, that is, setup is complete.
    pub fn next(&mut self) -> (complete: bool)
        ensures
            *final(self) == old(self).successor(),
            complete == (*old(self) is PatrolBoat),
    {
        *self = match *self {
            ShipType::AircraftCarrier => ShipType::Battleship,
            ShipType::Battleship => ShipType::Destroyer,
            ShipType::Destroyer => ShipType::Submarine,
            ShipType::Submarine => ShipType::PatrolBoat,
            ShipType::PatrolBoat => {
                return true;
            },
        };
        false
    }
}

} // verus!
