//! The cursor state of one buffer: a position and an overtype flag.
//!
//! Three states matter to the renderer: *invalid* (position at the integer
//! minimum, forces a cursor update after a resize), *disabled* (position
//! `(-1, -1)`, hides the cursor), and *visible* (both coordinates at least 0).

use vstd::prelude::*;
use crate::helpers::Point;

verus! {

#[derive(Clone, Copy, PartialEq, Eq, Structural, Debug)]
pub struct Cursor {
    pub pos: Point,
    pub overtype: bool,
}

impl Cursor {
    /// The state after a resize: no real cursor can compare equal to it, so
    /// the next render always emits a cursor sequence.
    pub fn new_invalid() -> (r: Cursor)
        ensures
            r.pos.x == i32::MIN,
            r.pos.y == i32::MIN,
            !r.overtype,
    {
        Cursor { pos: Point { x: i32::MIN, y: i32::MIN }, overtype: false }
    }

    /// The "hide the cursor" state.
    pub fn new_disabled() -> (r: Cursor)
        ensures
            r.pos.x == -1,
            r.pos.y == -1,
            !r.overtype,
    {
        Cursor { pos: Point { x: -1, y: -1 }, overtype: false }
    }
}

} // verus!
