//! The keys that steer the craft, as they are held during one frame.

use vstd::prelude::*;

verus! {

/// Which of the five control keys are held down.
#[derive(Clone, Copy, Debug, PartialEq, Eq, Structural)]
pub struct Keys {
    pub up: bool,
    pub down: bool,
    pub left: bool,
    pub right: bool,
    pub space: bool,
}

impl Keys {
    /// True when at least one of the four arrow keys is held.
    pub open spec fn any_arrow(self) -> bool {
        self.up || self.down || self.left || self.right
    }

    /// No key held at all.
    pub fn none() -> (keys: Keys)
        ensures
            keys == (Keys { up: false, down: false, left: false, right: false, space: false }),
    {
        Keys { up: false, down: false, left: false, right: false, space: false }
    }
}

} // verus!
