//! The scroll of magic mapping: what each square of the level turns into
//! and shows once the scroll is read.

use vstd::prelude::*;

use crate::moves::{DOOR, FLOOR, H_WALL, PASSAGE, SPACE, STAIRS, TRAP, V_WALL};

verus! {

/// The flag of a square that is part of a corridor.
pub const F_PASS: u8 = 0x80;
/// The flag of a square the hero has seen.
pub const F_SEEN: u8 = 0x40;
/// The flag of a square that is what it looks like: nothing hidden there.
pub const F_REAL: u8 = 0x10;

/// A square of the map: what it shows and its flags.
#[derive(Clone, Copy, Debug, PartialEq, Eq, Structural)]
pub struct Square {
    pub glyph: u8,
    pub flags: u8,
}

/// What magic mapping makes of a square, and what the map then shows there:
/// doors and stairs are shown as they are; a secret door in a wall is
/// found; rock that hides a corridor, and corridors, are shown as corridor
/// and marked seen; a hidden trap under the floor is found; plain floor and
/// rock show nothing; anything else (a monster or item) shows the corridor
/// under it, or nothing.
pub open spec fn revealed(sq: Square) -> (Square, u8) {
    let ch = sq.glyph;
    let f = sq.flags;
    let plain = f & F_REAL != 0;
    let pass = f & F_PASS != 0;
    if ch == DOOR || ch == STAIRS {
        (sq, ch)
    } else if ch == H_WALL || ch == V_WALL {
        if !plain { (Square { glyph: DOOR, flags: f | F_REAL }, DOOR) } else { (sq, ch) }
    } else if ch == SPACE {
        if plain {
            if pass { (Square { glyph: ch, flags: f | F_SEEN | F_REAL }, PASSAGE) } else { (sq, SPACE) }
        } else {
            (Square { glyph: PASSAGE, flags: f | F_REAL | F_SEEN | F_REAL }, PASSAGE)
        }
    } else if ch == PASSAGE {
        (Square { glyph: PASSAGE, flags: f | F_SEEN | F_REAL }, PASSAGE)
    } else if ch == FLOOR {
        if plain { (sq, SPACE) } else { (Square { glyph: TRAP, flags: f | F_SEEN | F_REAL }, TRAP) }
    } else {
        if pass {
            (Square { glyph: if plain { ch } else { PASSAGE }, flags: f | F_SEEN | F_REAL }, PASSAGE)
        } else {
            (sq, SPACE)
        }
    }
}

/// Reveal a square by magic mapping (see `revealed`): the square as it now
/// is, and what the map shows there.
pub fn reveal_square(sq: Square) -> (r: (Square, u8))
    ensures
        r == revealed(sq),
{
    let ch = sq.glyph;
    let f = sq.flags;
    let plain = f & F_REAL != 0;
    let pass = f & F_PASS != 0;
    if ch == DOOR || ch == STAIRS {
        (sq, ch)
    } else if ch == H_WALL || ch == V_WALL {
        if !plain {
            (Square { glyph: DOOR, flags: f | F_REAL }, DOOR)
        } else {
            (sq, ch)
        }
    } else if ch == SPACE {
        if plain {
            if pass {
                (Square { glyph: ch, flags: f | F_SEEN | F_REAL }, PASSAGE)
            } else {
                (sq, SPACE)
            }
        } else {
            (Square { glyph: PASSAGE, flags: f | F_REAL | F_SEEN | F_REAL }, PASSAGE)
        }
    } else if ch == PASSAGE {
        (Square { glyph: PASSAGE, flags: f | F_SEEN | F_REAL }, PASSAGE)
    } else if ch == FLOOR {
        if plain {
            (sq, SPACE)
        } else {
            (Square { glyph: TRAP, flags: f | F_SEEN | F_REAL }, TRAP)
        }
    } else {
        if pass {
            (Square { glyph: if plain { ch } else { PASSAGE }, flags: f | F_SEEN | F_REAL }, PASSAGE)
        } else {
            (sq, SPACE)
        }
    }
}

/// A revealed square hides nothing any more, unless it was plain floor,
/// rock or a wall to begin with (which are left as they were).
pub proof fn lemma_revealed_is_plain(sq: Square)
    ensures
        revealed(sq).0.flags & F_REAL != 0 || revealed(sq).0 == sq,
{
    let f = sq.flags;
    assert((f | F_REAL) & F_REAL != 0) by (bit_vector);
    assert((f | F_SEEN | F_REAL) & F_REAL != 0) by (bit_vector);
    assert((f | F_REAL | F_SEEN | F_REAL) & F_REAL != 0) by (bit_vector);
}

} // verus!
