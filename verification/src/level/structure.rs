use vstd::prelude::*;

use super::tile::Tile;
use crate::geom::IVec2;

verus! {

/// 2D tile container used by room/passage/level generation.
///
/// `Structure` owns a rectangular grid of logical [`Tile`] values and offers
/// bounds-checked read/write helpers.
#[derive(Debug)]
pub struct Structure {
    height: usize,
    width: usize,
    tiles: Vec<Vec<Tile>>,
}

impl Structure {
    /// The grid as rows of tiles.
    pub closed spec fn cells(&self) -> Seq<Seq<Tile>> {
        self.tiles@.map_values(|row: Vec<Tile>| row@)
    }

    pub closed spec fn spec_height(&self) -> nat {
        self.height as nat
    }

    pub closed spec fn spec_width(&self) -> nat {
        self.width as nat
    }

    /// Every row holds `width` tiles and there are `height` rows.
    pub closed spec fn wf(&self) -> bool {
        &&& self.tiles@.len() == self.height
        &&& forall|i: int| 0 <= i < self.tiles@.len() ==> #[trigger] self.tiles@[i]@.len() == self.width
    }

    /// A well-formed grid has `spec_height()` rows of `spec_width()` tiles.
    pub proof fn lemma_shape(&self)
        requires
            self.wf(),
        ensures
            self.cells().len() == self.spec_height(),
            forall|y: int| 0 <= y < self.spec_height() ==> #[trigger] self.cells()[y].len() == self.spec_width(),
    {
    }

    /// The tile at `(y, x)`, meaningful when in bounds.
    pub open spec fn at(&self, y: int, x: int) -> Tile {
        self.cells()[y][x]
    }

    pub open spec fn in_bounds(&self, y: int, x: int) -> bool {
        0 <= y < self.spec_height() && 0 <= x < self.spec_width()
    }

    /// Create a `height` by `width` grid filled with `fill`.
    pub fn new(height: usize, width: usize, fill: Tile) -> (s: Structure)
        ensures
            s.wf(),
            s.spec_height() == height,
            s.spec_width() == width,
            forall|y: int, x: int| s.in_bounds(y, x) ==> s.at(y, x) == fill,
    {
        let mut tiles: Vec<Vec<Tile>> = Vec::new();
        let mut i: usize = 0;
        while i < height
            invariant
                i <= height,
                tiles@.len() == i,
                forall|k: int| 0 <= k < i ==> #[trigger] tiles@[k]@.len() == width,
                forall|k: int, x: int| 0 <= k < i && 0 <= x < width ==> tiles@[k]@[x] == fill,
            decreases height - i,
        {
            let mut row: Vec<Tile> = Vec::new();
            let mut j: usize = 0;
            while j < width
                invariant
                    j <= width,
                    row@.len() == j,
                    forall|x: int| 0 <= x < j ==> row@[x] == fill,
                decreases width - j,
            {
                row.push(fill);
                j = j + 1;
            }
            tiles.push(row);
            i = i + 1;
        }
        Structure { height, width, tiles }
    }

    /// Grid height in rows.
    pub fn height(&self) -> (h: usize)
        ensures
            h == self.spec_height(),
    {
        self.height
    }

    /// Grid width in columns.
    pub fn width(&self) -> (w: usize)
        ensures
            w == self.spec_width(),
    {
        self.width
    }

    /// Read a tile at `(y, x)`; `None` when the coordinate is out of bounds.
    pub fn get(&self, y: usize, x: usize) -> (t: Option<Tile>)
        requires
            self.wf(),
        ensures
            t == (if self.in_bounds(y as int, x as int) { Some(self.at(y as int, x as int)) } else { None::<Tile> }),
    {
        if y < self.tiles.len() && x < self.tiles[y].len() {
            Some(self.tiles[y][x])
        } else {
            None
        }
    }

    /// Write `tile` at `(y, x)`; `true` on success, `false` when out of bounds.
    pub fn set(&mut self, y: usize, x: usize, tile: Tile) -> (ok: bool)
        requires
            old(self).wf(),
        ensures
            final(self).wf(),
            final(self).spec_height() == old(self).spec_height(),
            final(self).spec_width() == old(self).spec_width(),
            ok == old(self).in_bounds(y as int, x as int),
            final(self).cells() == put_tile(old(self).cells(), y as int, x as int, tile),
    {
        if y < self.tiles.len() && x < self.tiles[y].len() {
            self.tiles[y][x] = tile;
            true
        } else {
            false
        }
    }

    /// Borrow the full 2D tile matrix.
    pub fn tiles(&self) -> (rows: &[Vec<Tile>])
        requires
            self.wf(),
        ensures
            rows@.map_values(|row: Vec<Tile>| row@) == self.cells(),
    {
        self.tiles.as_slice()
    }

    /// Place a copy of `sub` into this structure at `position`.
    ///
    /// The sub-structure's `(y, x)` cell is written to this structure's
    /// `(position.y + y, position.x + x)`. Returns `true` if the entire
    /// sub-structure fits within this structure's bounds and was fully
    /// placed. If any part would extend past the edge, nothing is placed and
    /// `false` is returned.
    pub fn put_sub_structure(&mut self, position: IVec2, sub: &Structure) -> (ok: bool)
        requires
            old(self).wf(),
            sub.wf(),
        ensures
            final(self).wf(),
            final(self).spec_height() == old(self).spec_height(),
            final(self).spec_width() == old(self).spec_width(),
            ok == sub_fits(old(self), position, sub),
            ok ==> final(self).cells() == stamp_cells(old(self).cells(), position, sub.cells()),
            !ok ==> final(self).cells() == old(self).cells(),
    {
        if position.y < 0 || position.x < 0 {
            return false;
        }
        let py = position.y as usize;
        let px = position.x as usize;
        if py > self.height || px > self.width || sub.height > self.height - py || sub.width > self.width - px {
            return false;
        }
        let ghost before = self.cells();
        let mut sy: usize = 0;
        while sy < sub.height
            invariant
                self.wf(),
                sub.wf(),
                self.height == old(self).height,
                self.width == old(self).width,
                sy <= sub.height,
                py + sub.height <= self.height,
                px + sub.width <= self.width,
                py == position.y,
                px == position.x,
                before == old(self).cells(),
                forall|y: int, x: int| #![trigger self.cells()[y][x]]
                    0 <= y < self.height && 0 <= x < self.width ==> self.cells()[y][x] == (
                        if py <= y < py + sy && px <= x < px + sub.width {
                            sub.cells()[y - py][x - px]
                        } else {
                            before[y][x]
                        }),
            decreases sub.height - sy,
        {
            let mut sx: usize = 0;
            while sx < sub.width
                invariant
                    self.wf(),
                    sub.wf(),
                    self.height == old(self).height,
                    self.width == old(self).width,
                    sy < sub.height,
                    sx <= sub.width,
                    py + sub.height <= self.height,
                    px + sub.width <= self.width,
                    py == position.y,
                    px == position.x,
                    forall|y: int, x: int| #![trigger self.cells()[y][x]]
                        0 <= y < self.height && 0 <= x < self.width ==> self.cells()[y][x] == (
                            if (py <= y < py + sy && px <= x < px + sub.width) || (y == py + sy && px <= x < px + sx) {
                                sub.cells()[y - py][x - px]
                            } else {
                                before[y][x]
                            }),
                decreases sub.width - sx,
            {
                let t = sub.tiles[sy][sx];
                let ghost prev = self.cells();
                self.tiles[py + sy][px + sx] = t;
                proof {
                    assert(t == sub.cells()[sy as int][sx as int]);
                    assert(self.cells() =~= prev.update((py + sy) as int, prev[(py + sy) as int].update((px + sx) as int, t)));
                }
                sx = sx + 1;
            }
            sy = sy + 1;
        }
        proof {
            let after = self.cells();
            let expect = stamp_cells(before, position, sub.cells());
            assert(after.len() == expect.len());
            assert forall|y: int| 0 <= y < after.len() implies after[y] =~= expect[y] by {
                assert(after[y].len() == self.width);
            }
            assert(after =~= expect);
        }
        true
    }
}

/// `cells` with the tile at `(y, x)` replaced by `t`; unchanged when
/// `(y, x)` lies outside the grid.
pub open spec fn put_tile(cells: Seq<Seq<Tile>>, y: int, x: int, t: Tile) -> Seq<Seq<Tile>> {
    if 0 <= y < cells.len() && 0 <= x < cells[y].len() {
        cells.update(y, cells[y].update(x, t))
    } else {
        cells
    }
}

/// Whether `sub` placed at `position` lies entirely inside `s`.
pub open spec fn sub_fits(s: &Structure, position: IVec2, sub: &Structure) -> bool {
    &&& position.y >= 0
    &&& position.x >= 0
    &&& position.y + sub.spec_height() <= s.spec_height()
    &&& position.x + sub.spec_width() <= s.spec_width()
}

/// `cells` with `sub` copied over it, its top-left corner at `position`.
pub open spec fn stamp_cells(cells: Seq<Seq<Tile>>, position: IVec2, sub: Seq<Seq<Tile>>) -> Seq<Seq<Tile>> {
    Seq::new(cells.len(), |y: int| Seq::new(cells[y].len(), |x: int|
        if position.y <= y < position.y + sub.len() && position.x <= x && x - position.x < sub[y - position.y].len() {
            sub[y - position.y][x - position.x]
        } else {
            cells[y][x]
        }))
}

} // verus!

verus! {

impl Clone for Structure {
    /// A copy with the same size and tiles.
    fn clone(&self) -> (c: Structure)
        ensures
            self.wf() ==> c.wf(),
            c.spec_height() == self.spec_height(),
            c.spec_width() == self.spec_width(),
            c.cells() == self.cells(),
    {
        let mut tiles: Vec<Vec<Tile>> = Vec::new();
        let mut i: usize = 0;
        while i < self.tiles.len()
            invariant
                i <= self.tiles@.len(),
                tiles@.len() == i,
                forall|k: int| 0 <= k < i ==> (#[trigger] tiles@[k])@ == self.tiles@[k]@,
            decreases self.tiles@.len() - i,
        {
            let row = &self.tiles[i];
            let mut copy: Vec<Tile> = Vec::new();
            let mut j: usize = 0;
            while j < row.len()
                invariant
                    j <= row@.len(),
                    copy@ == row@.subrange(0, j as int),
                decreases row@.len() - j,
            {
                copy.push(row[j]);
                j = j + 1;
            }
            assert(copy@ =~= row@);
            tiles.push(copy);
            i = i + 1;
        }
        let c = Structure { height: self.height, width: self.width, tiles };
        proof {
            assert(c.cells() =~= self.cells()) by {
                assert forall|y: int| 0 <= y < c.cells().len() implies c.cells()[y] == self.cells()[y] by {}
            }
        }
        c
    }
}

} // verus!
