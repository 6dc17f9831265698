//! What the player does during one tick.

use vstd::prelude::*;

verus! {

/// The steering keys that are held down.
#[derive(Clone, Copy, Debug, PartialEq, Eq, Structural)]
pub struct Keys {
    pub left: bool,
    pub right: bool,
    pub up: bool,
    pub down: bool,
}

impl Keys {
    /// Whether no steering key is held down.
    pub open spec fn idle(self) -> bool {
        !self.left && !self.right && !self.up && !self.down
    }

    /// Tells whether any steering key is held down.
    pub fn any_pressed(&self) -> (pressed: bool)
        ensures
            pressed == !self.idle(),
    {
        self.left || self.right || self.up || self.down
    }
}

} // verus!
