//! Snap steering: the craft points where the arrow keys point, with no
//! delay, on a compass of eight directions.

use vstd::prelude::*;
use crate::keys::Keys;

verus! {

/// The eight directions, named as on a map that has north at the top.
#[derive(Clone, Copy, Debug, PartialEq, Eq, Structural)]
pub enum Compass {
    East,
    NorthEast,
    North,
    NorthWest,
    West,
    SouthWest,
    South,
    SouthEast,
}

/// The direction that the held arrow keys point to. Two opposite keys
/// cancel each other, and where nothing is left the craft heads east.
pub open spec fn compass_of(keys: Keys) -> Compass {
    let north = keys.up && !keys.down;
    let south = keys.down && !keys.up;
    let east = keys.right && !keys.left;
    let west = keys.left && !keys.right;
    if north {
        if east {
            Compass::NorthEast
        } else if west {
            Compass::NorthWest
        } else {
            Compass::North
        }
    } else if south {
        if east {
            Compass::SouthEast
        } else if west {
            Compass::SouthWest
        } else {
            Compass::South
        }
    } else if west {
        Compass::West
    } else {
        Compass::East
    }
}

impl Compass {
    /// The direction's place on the compass: eighths of a full turn,
    /// counted from east over north.
    pub open spec fn eighths(self) -> nat {
        match self {
            Compass::East => 0,
            Compass::NorthEast => 1,
            Compass::North => 2,
            Compass::NorthWest => 3,
            Compass::West => 4,
            Compass::SouthWest => 5,
            Compass::South => 6,
            Compass::SouthEast => 7,
        }
    }

    /// The direction that the held arrow keys point to.
    pub fn from_keys(keys: Keys) -> (heading: Compass)
        ensures
            heading == compass_of(keys),
    {
        let north = keys.up && !keys.down;
        let south = keys.down && !keys.up;
        let east = keys.right && !keys.left;
        let west = keys.left && !keys.right;
        if north {
            if east {
                Compass::NorthEast
            } else if west {
                Compass::NorthWest
            } else {
                Compass::North
            }
        } else if south {
            if east {
                Compass::SouthEast
            } else if west {
                Compass::SouthWest
            } else {
                Compass::South
            }
        } else if west {
            Compass::West
        } else {
            Compass::East
        }
    }

    /// The direction's place on the compass, from 0 for east to 7.
    pub fn index(self) -> (i: u8)
        ensures
            i == self.eighths(),
            i < 8,
    {
        match self {
            Compass::East => 0,
            Compass::NorthEast => 1,
            Compass::North => 2,
            Compass::NorthWest => 3,
            Compass::West => 4,
            Compass::SouthWest => 5,
            Compass::South => 6,
            Compass::SouthEast => 7,
        }
    }
}

/// The heading depends on the arrow keys alone: two sets of keys that
/// hold the same arrows give the same heading.
pub proof fn lemma_heading_from_arrows(a: Keys, b: Keys)
    requires
        a.up == b.up,
        a.down == b.down,
        a.left == b.left,
        a.right == b.right,
    ensures
        compass_of(a) == compass_of(b),
{
}

/// With no arrow key held the craft heads east.
pub proof fn lemma_heading_defaults_east(keys: Keys)
    requires
        !keys.any_arrow(),
    ensures
        compass_of(keys) == Compass::East,
{
}

} // verus!
