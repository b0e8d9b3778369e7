use vstd::prelude::*;

verus! {

/// An integer 2D vector: `x` is the column, `y` is the row.
#[derive(Clone, Copy, Debug, PartialEq, Eq, Structural)]
pub struct IVec2 {
    pub x: i32,
    pub y: i32,
}

impl IVec2 {
    /// Build a vector from its column and row.
    pub fn new(x: i32, y: i32) -> (v: IVec2)
        ensures
            v.x == x,
            v.y == y,
    {
        IVec2 { x, y }
    }

    /// The origin `(0, 0)`.
    pub fn zero() -> (v: IVec2)
        ensures
            v.x == 0,
            v.y == 0,
    {
        IVec2 { x: 0, y: 0 }
    }
}

} // verus!
