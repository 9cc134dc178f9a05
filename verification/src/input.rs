//! The per-frame input snapshot that the engine driver hands to the camera.

use vstd::prelude::*;

verus! {

/// One frame's worth of key state: the four pan directions, the two zoom
/// keys, and whether the user asked to quit. The camera reads a snapshot once
/// per frame and never mutates it.
pub struct Input {
    pub up: bool,
    pub down: bool,
    pub left: bool,
    pub right: bool,
    pub zoom_in: bool,
    pub zoom_out: bool,
    pub exit: bool,
}

impl Input {
    /// True when no key is held down at all.
    pub open spec fn is_idle(self) -> bool {
        !self.up && !self.down && !self.left && !self.right && !self.zoom_in && !self.zoom_out
            && !self.exit
    }

    /// A snapshot with every key released.
    pub fn new() -> (r: Input)
        ensures
            r.is_idle(),
    {
        Input {
            up: false,
            down: false,
            left: false,
            right: false,
            zoom_in: false,
            zoom_out: false,
            exit: false,
        }
    }
}

impl Default for Input {
    /// Same as [`Input::new`]: every key released.
    fn default() -> (r: Input)
        ensures
            r.is_idle(),
    {
        Input {
            up: false,
            down: false,
            left: false,
            right: false,
            zoom_in: false,
            zoom_out: false,
            exit: false,
        }
    }
}

} // verus!
