//! The finite set of cell states and their classification predicates.

use vstd::prelude::*;

verus! {

/// State of one board cell. Ship orientation is tracked only for placement
/// bookkeeping; gameplay treats both ship kinds alike.
#[derive(Clone, Copy, Debug, PartialEq, Eq, Structural)]
pub enum TileKind {
    /// Untouched cell holding no ship.
    Water,
    /// Unguessed segment of a vertically placed ship.
    VerticalShip,
    /// Unguessed segment of a horizontally placed ship.
    HorizontalShip,
    /// Ship segment that has been guessed.
    HitShip,
    /// Non-ship cell that has been guessed.
    Miss,
}

impl TileKind {
    /// True of a ship segment that has been guessed.
    pub fn is_hit(&self) -> (r: bool)
        ensures
            r == self.spec_is_hit(),
    {
        *self == TileKind::HitShip
    }

    /// True of an unguessed ship segment, of either orientation.
    pub fn is_ship(&self) -> (r: bool)
        ensures
            r == self.spec_is_ship(),
    {
        *self == TileKind::VerticalShip || *self == TileKind::HorizontalShip
    }

    pub open spec fn spec_is_hit(self) -> bool {
        self == TileKind::HitShip
    }

    pub open spec fn spec_is_ship(self) -> bool {
        self == TileKind::VerticalShip || self == TileKind::HorizontalShip
    }

    /// True of a cell that some earlier guess has already resolved.
    pub open spec fn spec_is_resolved(self) -> bool {
        self == TileKind::HitShip || self == TileKind::Miss
    }
}

} // verus!
