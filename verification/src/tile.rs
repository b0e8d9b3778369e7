use vstd::prelude::*;

verus! {

/// The basic tile kinds of a room model.
#[derive(Clone, Copy, Debug, PartialEq, Eq, Structural)]
pub enum Tile {
    Empty,
    Floor,
    Passage,
    Door,
    Wall,
    Stairs,
    Trap,
}

} // verus!
