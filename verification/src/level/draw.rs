//! Drawing rooms: each tile of a room's model becomes a character on the
//! screen.

use vstd::prelude::*;

use super::level::{LevelFlags, LEVEL_HEIGHT, LEVEL_WIDTH};
use super::rooms::Room;
use super::tile::Tile;
use crate::ui::terminal::{put_cell, same_settings, ScreenCell, Terminal};

verus! {

/// The character of a room tile at row `local_y` of a room `height` rows
/// tall: nothing for empty ground, `.` floor, `#` passage, `+` door, `%`
/// stairs, `^` trap, and for a wall (or a door hidden in one) `-` on the top
/// and bottom rows and `|` on the sides.
pub open spec fn glyph(tile: Tile, local_y: int, height: int) -> Option<u8> {
    match tile {
        Tile::Empty => None,
        Tile::Floor => Some(46u8),
        Tile::Wall | Tile::HiddenDoor => if local_y == 0 || local_y + 1 == height { Some(45u8) } else { Some(124u8) },
        Tile::Passage => Some(35u8),
        Tile::Door => Some(43u8),
        Tile::Stairs => Some(37u8),
        Tile::Trap => Some(94u8),
    }
}

/// The character of a room tile (see `glyph`).
pub fn tile_glyph(tile: Tile, local_y: usize, height: usize) -> (g: Option<u8>)
    ensures
        g == glyph(tile, local_y as int, height as int),
{
    match tile {
        Tile::Empty => None,
        Tile::Floor => Some(46u8),
        Tile::Wall | Tile::HiddenDoor => if local_y == 0 || (height > 0 && local_y == height - 1) { Some(45u8) } else { Some(124u8) },
        Tile::Passage => Some(35u8),
        Tile::Door => Some(43u8),
        Tile::Stairs => Some(37u8),
        Tile::Trap => Some(94u8),
    }
}

/// What drawing room `r` puts at its local cell `(y, x)`: a removed room
/// draws nothing; a maze draws only its passages; any other room draws every
/// tile that has a character.
pub open spec fn room_glyph(r: Room, y: int, x: int) -> Option<u8> {
    if !r.gone && 0 <= y < r.size.y && 0 <= x < r.size.x && r.structure.in_bounds(y, x)
        && (!r.maze || r.structure.at(y, x) == Tile::Passage) {
        glyph(r.structure.at(y, x), y, r.size.y as int)
    } else {
        None
    }
}

/// Whether local cell `(y, x)` comes before `(ny, nx)`, row by row.
pub open spec fn before(y: int, x: int, ny: int, nx: int) -> bool {
    y < ny || (y == ny && x < nx)
}

/// `screen` with room `r`'s characters drawn at the local cells before
/// `(ny, nx)`.
pub open spec fn drawn_upto(screen: Seq<Seq<ScreenCell>>, r: Room, ny: int, nx: int) -> Seq<Seq<ScreenCell>> {
    Seq::new(screen.len(), |sy: int| Seq::new(screen[sy].len(), |sx: int| {
        let ly = sy - r.position.y;
        let lx = sx - r.position.x;
        if before(ly, lx, ny, nx) && room_glyph(r, ly, lx) is Some {
            ScreenCell { ch: room_glyph(r, ly, lx)->0, standout: false }
        } else {
            screen[sy][sx]
        }
    }))
}

/// `screen` with all of room `r` drawn.
pub open spec fn drawn(screen: Seq<Seq<ScreenCell>>, r: Room) -> Seq<Seq<ScreenCell>> {
    drawn_upto(screen, r, r.size.y as int, 0)
}

/// Whether map cell number `i` (row-major over the level map) is a maze
/// passage that drawing `r` marks.
pub open spec fn marks_passage(r: Room, i: int) -> bool {
    r.maze && room_glyph(r, i / (LEVEL_WIDTH as int) - r.position.y, i % (LEVEL_WIDTH as int) - r.position.x) is Some
}

/// The passage flags after the maze passages of `r` before local cell
/// `(ny, nx)` are marked.
pub open spec fn marked_upto(p: Seq<bool>, r: Room, ny: int, nx: int) -> Seq<bool> {
    Seq::new(p.len(), |i: int| p[i] || (marks_passage(r, i)
        && before(i / (LEVEL_WIDTH as int) - r.position.y, i % (LEVEL_WIDTH as int) - r.position.x, ny, nx)))
}

/// Draw room `r` on the screen. A maze draws only its passages, and marks
/// each one that lies on the level map as a passage cell.
pub fn draw_room(term: &mut Terminal, flags: &mut LevelFlags, r: &Room)
    requires
        old(term).wf(),
        old(flags).wf(),
        r.structure.wf(),
        r.position.y + r.size.y <= i32::MAX,
        r.position.x + r.size.x <= i32::MAX,
    ensures
        final(term).wf(),
        final(flags).wf(),
        same_settings(final(term), old(term)),
        final(term).spec_cursor() == old(term).spec_cursor(),
        final(term).screen() == drawn(old(term).screen(), *r),
        final(flags).passage@ == marked_upto(old(flags).passage@, *r, r.size.y as int, 0),
        final(flags).real == old(flags).real,
        final(flags).seen == old(flags).seen,
        final(flags).passnum == old(flags).passnum,
{
    let ghost s0 = term.screen();
    let ghost p0 = flags.passage@;
    proof {
        term.lemma_shape();
        assert(s0 =~~= drawn_upto(s0, *r, 0, 0));
        assert(p0 =~= marked_upto(p0, *r, 0, 0));
    }
    if r.gone || r.size.y <= 0 || r.size.x <= 0 {
        proof {
            assert(s0 =~~= drawn(s0, *r));
            assert(p0 =~= marked_upto(p0, *r, r.size.y as int, 0));
        }
        return;
    }
    let height = r.size.y as usize;
    let width = r.size.x as usize;
    let mut y: usize = 0;
    while y < height
        invariant
            height == r.size.y,
            width == r.size.x,
            !r.gone,
            r.structure.wf(),
            r.position.y + r.size.y <= i32::MAX,
            r.position.x + r.size.x <= i32::MAX,
            y <= height,
            term.wf(),
            flags.wf(),
            same_settings(term, old(term)),
            term.spec_cursor() == old(term).spec_cursor(),
            s0 == old(term).screen(),
            p0 == old(flags).passage@,
            term.screen() == drawn_upto(s0, *r, y as int, 0),
            flags.passage@ == marked_upto(p0, *r, y as int, 0),
            flags.real == old(flags).real,
            flags.seen == old(flags).seen,
            flags.passnum == old(flags).passnum,
        decreases height - y,
    {
        let mut x: usize = 0;
        proof {
            assert(drawn_upto(s0, *r, y as int, 0) =~~= drawn_upto(s0, *r, y as int, 0));
        }
        while x < width
            invariant
                height == r.size.y,
                width == r.size.x,
                !r.gone,
                r.structure.wf(),
                r.position.y + r.size.y <= i32::MAX,
                r.position.x + r.size.x <= i32::MAX,
                y < height,
                x <= width,
                term.wf(),
                flags.wf(),
                same_settings(term, old(term)),
                term.spec_cursor() == old(term).spec_cursor(),
                s0 == old(term).screen(),
                p0 == old(flags).passage@,
                term.screen() == drawn_upto(s0, *r, y as int, x as int),
                flags.passage@ == marked_upto(p0, *r, y as int, x as int),
                flags.real == old(flags).real,
                flags.seen == old(flags).seen,
                flags.passnum == old(flags).passnum,
            decreases width - x,
        {
            let ghost sb = term.screen();
            let ghost pb = flags.passage@;
            proof {
                term.lemma_shape();
            }
            let sy = r.position.y + y as i32;
            let sx = r.position.x + x as i32;
            match r.structure.get(y, x) {
                Some(tile) => {
                    if !r.maze || tile == Tile::Passage {
                        match tile_glyph(tile, y, height) {
                            Some(g) => {
                                term.write_cell(sy, sx, g);
                                if r.maze && 0 <= sy && sy < LEVEL_HEIGHT as i32 && 0 <= sx && sx < LEVEL_WIDTH as i32 {
                                    let idx = sy as usize * LEVEL_WIDTH + sx as usize;
                                    flags.passage.set(idx, true);
                                    proof {
                                        assert(idx as int / (LEVEL_WIDTH as int) == sy as int);
                                        assert(idx as int % (LEVEL_WIDTH as int) == sx as int);
                                    }
                                }
                            },
                            None => {},
                        }
                    }
                },
                None => {},
            }
            proof {
                term.lemma_shape();
                let s1 = drawn_upto(s0, *r, y as int, x + 1);
                assert(term.screen() =~~= s1);
                let q1 = marked_upto(p0, *r, y as int, x + 1);
                assert forall|i: int| 0 <= i < q1.len() implies flags.passage@[i] == q1[i] by {
                    let iy = i / (LEVEL_WIDTH as int);
                    let ix = i % (LEVEL_WIDTH as int);
                    if iy == sy && ix == sx {
                    } else {
                        assert(before(iy - r.position.y, ix - r.position.x, y as int, x + 1)
                            == before(iy - r.position.y, ix - r.position.x, y as int, x as int));
                    }
                }
                assert(flags.passage@ =~= q1);
            }
            x = x + 1;
        }
        proof {
            assert(drawn_upto(s0, *r, y as int, width as int) =~~= drawn_upto(s0, *r, y + 1, 0));
            assert(marked_upto(p0, *r, y as int, width as int) =~= marked_upto(p0, *r, y + 1, 0));
        }
        y = y + 1;
    }
}

} // verus!
