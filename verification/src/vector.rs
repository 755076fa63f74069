//! Integer positions on the drawing surface.

use vstd::prelude::*;

verus! {

/// A position in whole pixels.
#[allow(non_camel_case_types)]
#[derive(Copy, Clone, Debug, PartialEq, Eq, Structural)]
pub struct v2 {
    pub x: i32,
    pub y: i32,
}

impl v2 {
    /// The position with the given coordinates.
    pub fn new(x: i32, y: i32) -> (p: v2)
        ensures
            p.x == x,
            p.y == y,
    {
        v2 { x: x, y: y }
    }
}

} // verus!
