use vstd::prelude::*;

verus! {

/// Semantic tile kinds used by level-generation structures.
///
/// These values describe logical map content, independent of the concrete
/// glyphs rendered on screen. Orientation-sensitive tiles such as
/// [`Tile::Wall`] have their on-screen character (`-` vs `|`) decided at draw
/// time from the neighbouring cells.
#[derive(Clone, Copy, Debug, PartialEq, Eq, Structural)]
pub enum Tile {
    /// Outside playable geometry / uninitialized map cell.
    Empty,
    /// Walkable room interior.
    Floor,
    /// Walkable corridor cell connecting rooms.
    Passage,
    /// Doorway at a room/corridor boundary.
    Door,
    /// Room boundary wall segment.
    Wall,
    /// Door disguised as a wall segment until it is revealed.
    HiddenDoor,
    /// Down staircase to the next dungeon level.
    Stairs,
    /// Hidden trap; renders like floor until it is revealed.
    Trap,
}

/// The save-file discriminant of a tile.
pub open spec fn tile_code(t: Tile) -> u8 {
    match t {
        Tile::Empty => 0,
        Tile::Floor => 1,
        Tile::Passage => 2,
        Tile::Door => 3,
        Tile::Wall => 4,
        Tile::HiddenDoor => 5,
        Tile::Stairs => 6,
        Tile::Trap => 7,
    }
}

impl Tile {
    /// Stable serialization discriminant for the save file.
    pub fn to_u8(self) -> (code: u8)
        ensures
            code == tile_code(self),
    {
        match self {
            Tile::Empty => 0,
            Tile::Floor => 1,
            Tile::Passage => 2,
            Tile::Door => 3,
            Tile::Wall => 4,
            Tile::HiddenDoor => 5,
            Tile::Stairs => 6,
            Tile::Trap => 7,
        }
    }

    /// Inverse of [`Tile::to_u8`]: `None` for codes above `7`.
    pub fn from_u8(v: u8) -> (t: Option<Tile>)
        ensures
            t is Some <==> v < 8,
            t matches Some(tile) ==> tile_code(tile) == v,
    {
        match v {
            0 => Some(Tile::Empty),
            1 => Some(Tile::Floor),
            2 => Some(Tile::Passage),
            3 => Some(Tile::Door),
            4 => Some(Tile::Wall),
            5 => Some(Tile::HiddenDoor),
            6 => Some(Tile::Stairs),
            7 => Some(Tile::Trap),
            _ => None,
        }
    }
}

/// Decoding what [`Tile::to_u8`] encoded gives the tile back, and encoding
/// is one-to-one.
pub proof fn lemma_tile_code_round_trip(t: Tile, u: Tile)
    ensures
        tile_code(t) < 8,
        tile_code(t) == tile_code(u) ==> t == u,
{
}

} // verus!
