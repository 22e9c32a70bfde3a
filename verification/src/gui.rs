//! Input state handed to the emulators each frame.
use vstd::prelude::*;

verus! {

/// Buttons held down on the joypad.
#[derive(Clone, Copy)]
pub struct Pad {
    pub a: bool,
    pub b: bool,
    pub select: bool,
    pub start: bool,
    pub up: bool,
    pub down: bool,
    pub left: bool,
    pub right: bool,
}

/// Requests from the user interface for this frame.
#[derive(Clone, Copy)]
pub struct Ui {
    pub debug: bool,
    pub save: bool,
    pub load: bool,
    pub rewind: bool,
    pub load_rom: bool,
    pub exit: bool,
}

impl Default for Pad {
    /// No button held.
    fn default() -> (r: Self)
        ensures
            !r.a && !r.b && !r.select && !r.start && !r.up && !r.down && !r.left && !r.right,
    {
        Pad {
            a: false,
            b: false,
            select: false,
            start: false,
            up: false,
            down: false,
            left: false,
            right: false,
        }
    }
}

impl Default for Ui {
    /// No request.
    fn default() -> (r: Self)
        ensures
            !r.debug && !r.save && !r.load && !r.rewind && !r.load_rom && !r.exit,
    {
        Ui { debug: false, save: false, load: false, rewind: false, load_rom: false, exit: false }
    }
}

} // verus!
