use vstd::prelude::*;

use super::structure::{put_tile, Structure};
use super::tile::Tile;
use crate::rnd::{rnd, Dice};

verus! {

/// Number of cells of `row` that are not passage.
pub open spec fn row_solid(row: Seq<Tile>) -> nat
    decreases row.len(),
{
    if row.len() == 0 {
        0
    } else {
        row_solid(row.drop_last()) + (if row.last() != Tile::Passage { 1nat } else { 0nat })
    }
}

/// Number of cells of `cells` that are not passage.
pub open spec fn grid_solid(cells: Seq<Seq<Tile>>) -> nat
    decreases cells.len(),
{
    if cells.len() == 0 {
        0
    } else {
        grid_solid(cells.drop_last()) + row_solid(cells.last())
    }
}

proof fn lemma_row_solid_update(row: Seq<Tile>, i: int, t: Tile)
    requires
        0 <= i < row.len(),
    ensures
        row_solid(row.update(i, t)) + (if row[i] != Tile::Passage { 1int } else { 0int })
            == row_solid(row) + (if t != Tile::Passage { 1int } else { 0int }),
    decreases row.len(),
{
    let r2 = row.update(i, t);
    if i == row.len() - 1 {
        assert(r2.drop_last() =~= row.drop_last());
    } else {
        assert(r2.drop_last() =~= row.drop_last().update(i, t));
        lemma_row_solid_update(row.drop_last(), i, t);
    }
}

proof fn lemma_grid_solid_update(cells: Seq<Seq<Tile>>, y: int, row: Seq<Tile>)
    requires
        0 <= y < cells.len(),
    ensures
        grid_solid(cells.update(y, row)) + row_solid(cells[y]) == grid_solid(cells) + row_solid(row),
    decreases cells.len(),
{
    let c2 = cells.update(y, row);
    if y == cells.len() - 1 {
        assert(c2.drop_last() =~= cells.drop_last());
    } else {
        assert(c2.drop_last() =~= cells.drop_last().update(y, row));
        lemma_grid_solid_update(cells.drop_last(), y, row);
    }
}

/// Turning one cell into passage never adds solid cells, and removes one
/// when the cell was solid.
proof fn lemma_carve_count(cells: Seq<Seq<Tile>>, y: int, x: int)
    ensures
        grid_solid(put_tile(cells, y, x, Tile::Passage)) <= grid_solid(cells),
        0 <= y < cells.len() && 0 <= x < cells[y].len() && cells[y][x] != Tile::Passage
            ==> grid_solid(put_tile(cells, y, x, Tile::Passage)) < grid_solid(cells),
{
    if 0 <= y < cells.len() && 0 <= x < cells[y].len() {
        lemma_row_solid_update(cells[y], x, Tile::Passage);
        lemma_grid_solid_update(cells, y, cells[y].update(x, Tile::Passage));
    }
}

/// Row step of the `d`-th maze move (down, up, right, left by two cells).
pub open spec fn step_y(d: int) -> int {
    if d == 0 { 2 } else if d == 1 { -2 } else { 0 }
}

/// Column step of the `d`-th maze move.
pub open spec fn step_x(d: int) -> int {
    if d == 2 { 2 } else if d == 3 { -2 } else { 0 }
}

pub open spec fn in_area(y: int, x: int, max_y: int, max_x: int) -> bool {
    0 <= y <= max_y && 0 <= x <= max_x
}

pub open spec fn is_passage_at(cells: Seq<Seq<Tile>>, y: int, x: int) -> bool {
    cells[y][x] == Tile::Passage
}

/// Every in-area cell two steps away from `(y, x)` is already passage.
pub open spec fn finished(cells: Seq<Seq<Tile>>, y: int, x: int, max_y: int, max_x: int) -> bool {
    forall|d: int| 0 <= d < 4 && #[trigger] in_area(y + step_y(d), x + step_x(d), max_y, max_x)
        ==> is_passage_at(cells, y + step_y(d), x + step_x(d))
}

pub open spec fn even_cell(y: int, x: int) -> bool {
    y % 2 == 0 && x % 2 == 0
}

/// Every even passage cell is finished, or still waiting on the dig stack.
pub open spec fn dug_or_pending(cells: Seq<Seq<Tile>>, stack: Set<(int, int)>, max_y: int, max_x: int) -> bool {
    forall|y: int, x: int| #![trigger is_passage_at(cells, y, x)]
        in_area(y, x, max_y, max_x) && even_cell(y, x) && is_passage_at(cells, y, x)
            ==> finished(cells, y, x, max_y, max_x) || stack.contains((y, x))
}

/// `after` keeps every passage of `before`, and only adds passage cells.
pub open spec fn only_carved(before: Seq<Seq<Tile>>, after: Seq<Seq<Tile>>, max_y: int, max_x: int) -> bool {
    forall|y: int, x: int| #![trigger after[y][x]]
        in_area(y, x, max_y, max_x) ==> (after[y][x] == before[y][x] || after[y][x] == Tile::Passage)
}

/// The area `[0, max_y] x [0, max_x]` is the whole of `s`.
pub open spec fn maze_area(s: Structure, max_y: int, max_x: int) -> bool {
    &&& s.wf()
    &&& s.spec_height() == max_y + 1
    &&& s.spec_width() == max_x + 1
    &&& max_y < 0x4000_0000
    &&& max_x < 0x4000_0000
}

fn is_passage(structure: &Structure, y: i32, x: i32) -> (b: bool)
    requires
        structure.wf(),
        0 <= y < structure.spec_height(),
        0 <= x < structure.spec_width(),
    ensures
        b == is_passage_at(structure.cells(), y as int, x as int),
{
    proof { structure.lemma_shape(); }
    match structure.get(y as usize, x as usize) {
        Some(Tile::Passage) => true,
        _ => false,
    }
}

proof fn lemma_finished_monotone(before: Seq<Seq<Tile>>, after: Seq<Seq<Tile>>, y: int, x: int, max_y: int, max_x: int)
    requires
        finished(before, y, x, max_y, max_x),
        forall|yy: int, xx: int| #![trigger is_passage_at(after, yy, xx)]
            in_area(yy, xx, max_y, max_x) && is_passage_at(before, yy, xx) ==> is_passage_at(after, yy, xx),
    ensures
        finished(after, y, x, max_y, max_x),
{
    assert forall|d: int| 0 <= d < 4 && #[trigger] in_area(y + step_y(d), x + step_x(d), max_y, max_x)
        implies is_passage_at(after, y + step_y(d), x + step_x(d)) by {
        assert(is_passage_at(before, y + step_y(d), x + step_x(d)));
    }
}

fn move_dy(d: usize) -> (v: i32)
    ensures
        v == step_y(d as int),
{
    if d == 0 { 2 } else if d == 1 { -2 } else { 0 }
}

fn move_dx(d: usize) -> (v: i32)
    ensures
        v == step_x(d as int),
{
    if d == 2 { 2 } else if d == 3 { -2 } else { 0 }
}

/// Carve a maze outward from `(y, x)` by random depth-first search over the
/// cells with even coordinates, opening the cell between each pair.
fn dig_local(
    structure: &mut Structure,
    dice: &mut Dice,
    y: i32,
    x: i32,
    max_y: i32,
    max_x: i32,
    Ghost(stack): Ghost<Set<(int, int)>>,
    Ghost(origin): Ghost<(int, int)>,
)
    requires
        tree_shape(old(structure).cells(), max_y as int, max_x as int),
        tree_count(old(structure).cells()),
        all_joined(old(structure).cells(), origin, max_y as int, max_x as int),
        maze_area(*old(structure), max_y as int, max_x as int),
        in_area(y as int, x as int, max_y as int, max_x as int),
        even_cell(y as int, x as int),
        is_passage_at(old(structure).cells(), y as int, x as int),
        stack.contains((y as int, x as int)),
        forall|p: (int, int)| #[trigger] stack.contains(p) ==> in_area(p.0, p.1, max_y as int, max_x as int) && is_passage_at(old(structure).cells(), p.0, p.1),
        dug_or_pending(old(structure).cells(), stack, max_y as int, max_x as int),
    ensures
        maze_area(*final(structure), max_y as int, max_x as int),
        only_carved(old(structure).cells(), final(structure).cells(), max_y as int, max_x as int),
        finished(final(structure).cells(), y as int, x as int, max_y as int, max_x as int),
        dug_or_pending(final(structure).cells(), stack.remove((y as int, x as int)), max_y as int, max_x as int),
        grid_solid(final(structure).cells()) <= grid_solid(old(structure).cells()),
        tree_shape(final(structure).cells(), max_y as int, max_x as int),
        tree_count(final(structure).cells()),
        all_joined(final(structure).cells(), origin, max_y as int, max_x as int),
    decreases grid_solid(old(structure).cells()),
{
    let ghost entry = structure.cells();
    loop
        invariant
            maze_area(*structure, max_y as int, max_x as int),
            in_area(y as int, x as int, max_y as int, max_x as int),
            even_cell(y as int, x as int),
            entry == old(structure).cells(),
            grid_solid(structure.cells()) <= grid_solid(entry),
            only_carved(entry, structure.cells(), max_y as int, max_x as int),
            forall|p: (int, int)| #[trigger] stack.contains(p) ==> in_area(p.0, p.1, max_y as int, max_x as int) && is_passage_at(structure.cells(), p.0, p.1),
            dug_or_pending(structure.cells(), stack, max_y as int, max_x as int),
            tree_shape(structure.cells(), max_y as int, max_x as int),
            tree_count(structure.cells()),
            all_joined(structure.cells(), origin, max_y as int, max_x as int),
            stack.contains((y as int, x as int)),
        decreases grid_solid(structure.cells()),
    {
        let ghost round_start = grid_solid(structure.cells());
        let mut cnt: i32 = 0;
        let mut next_y: i32 = 0;
        let mut next_x: i32 = 0;
        let mut d: usize = 0;
        while d < 4
            invariant
                maze_area(*structure, max_y as int, max_x as int),
                in_area(y as int, x as int, max_y as int, max_x as int),
                even_cell(y as int, x as int),
                d <= 4,
                0 <= cnt <= d,
                cnt > 0 ==> exists|k: int| 0 <= k < d && next_y == y + step_y(k) && next_x == x + step_x(k)
                    && in_area(next_y as int, next_x as int, max_y as int, max_x as int)
                    && !is_passage_at(structure.cells(), next_y as int, next_x as int),
                cnt == 0 ==> forall|k: int| 0 <= k < d && #[trigger] in_area(y + step_y(k), x + step_x(k), max_y as int, max_x as int)
                    ==> is_passage_at(structure.cells(), y + step_y(k), x + step_x(k)),
            decreases 4 - d,
        {
            let new_y = y + move_dy(d);
            let new_x = x + move_dx(d);
            assert(new_y == y + step_y(d as int) && new_x == x + step_x(d as int));
            if new_y < 0 || new_y > max_y || new_x < 0 || new_x > max_x {
                d = d + 1;
                continue;
            }
            if is_passage(structure, new_y, new_x) {
                d = d + 1;
                continue;
            }
            cnt = cnt + 1;
            if rnd(dice, cnt) == 0 {
                next_y = new_y;
                next_x = new_x;
            }
            d = d + 1;
        }
        if cnt == 0 {
            return;
        }
        let ghost before = structure.cells();
        let ghost mut my: int = 0;
        let ghost mut mx: int = 0;
        proof {
            structure.lemma_shape();
            let k = choose|k: int| 0 <= k < 4 && next_y == y + step_y(k) && next_x == x + step_x(k)
                && in_area(next_y as int, next_x as int, max_y as int, max_x as int)
                && !is_passage_at(structure.cells(), next_y as int, next_x as int);
        }
        if next_y == y {
            let mid_x = (x + next_x) / 2;
            let _ = structure.set(y as usize, mid_x as usize, Tile::Passage);
            proof {
                lemma_carve_count(before, y as int, mid_x as int);
                my = y as int;
                mx = mid_x as int;
            }
        } else {
            let mid_y = (y + next_y) / 2;
            let _ = structure.set(mid_y as usize, x as usize, Tile::Passage);
            proof {
                lemma_carve_count(before, mid_y as int, x as int);
                my = mid_y as int;
                mx = x as int;
            }
        }
        let ghost middle = structure.cells();
        proof { structure.lemma_shape(); }
        let _ = structure.set(next_y as usize, next_x as usize, Tile::Passage);
        proof {
            lemma_carve_count(middle, next_y as int, next_x as int);
            assert(!is_passage_at(middle, next_y as int, next_x as int));
            structure.lemma_shape();
            let now = structure.cells();
            assert forall|yy: int, xx: int| #![trigger is_passage_at(now, yy, xx)]
                in_area(yy, xx, max_y as int, max_x as int) && is_passage_at(before, yy, xx) implies is_passage_at(now, yy, xx) by {
                assert(now[yy][xx] == before[yy][xx] || now[yy][xx] == Tile::Passage);
            }
            assert forall|yy: int, xx: int| #![trigger now[yy][xx]]
                in_area(yy, xx, max_y as int, max_x as int) implies (now[yy][xx] == entry[yy][xx] || now[yy][xx] == Tile::Passage) by {
                assert(before[yy][xx] == entry[yy][xx] || before[yy][xx] == Tile::Passage);
            }
            let s2 = stack.insert((next_y as int, next_x as int));
            assert forall|yy: int, xx: int| #![trigger is_passage_at(now, yy, xx)]
                in_area(yy, xx, max_y as int, max_x as int) && even_cell(yy, xx) && is_passage_at(now, yy, xx)
                implies finished(now, yy, xx, max_y as int, max_x as int) || s2.contains((yy, xx)) by {
                if yy == next_y && xx == next_x {
                } else if is_passage_at(before, yy, xx) {
                    if finished(before, yy, xx, max_y as int, max_x as int) {
                        lemma_finished_monotone(before, now, yy, xx, max_y as int, max_x as int);
                    }
                } else {
                    // only the odd middle cell was opened besides `next`
                    assert(false);
                }
            }
        }
        proof {
            let now = structure.cells();
            assert(dig_move(y as int, x as int, next_y as int, next_x as int, my, mx));
            assert(area_shape(before, max_y as int, max_x as int));
            assert(is_passage_at(before, y as int, x as int)) by {
                assert(stack.contains((y as int, x as int)));
            }
            lemma_dig_shape(before, now, y as int, x as int, next_y as int, next_x as int, my, mx, max_y as int, max_x as int);
            lemma_dig_count(before, now, y as int, x as int, next_y as int, next_x as int, my, mx, max_y as int, max_x as int);
            lemma_dig_joined(before, now, y as int, x as int, next_y as int, next_x as int, my, mx, max_y as int, max_x as int, origin);
        }
        assert(grid_solid(structure.cells()) < round_start);
        dig_local(structure, dice, next_y, next_x, max_y, max_x, Ghost(stack.insert((next_y as int, next_x as int))), Ghost(origin));
        proof {
            let now = structure.cells();
            assert(stack.insert((next_y as int, next_x as int)).remove((next_y as int, next_x as int)) =~= stack);
        }
    }
}

} // verus!

verus! {

proof fn lemma_reach_all(cells: Seq<Seq<Tile>>, y: int, x: int, ty: int, tx: int, max_y: int, max_x: int)
    requires
        in_area(y, x, max_y, max_x),
        even_cell(y, x),
        is_passage_at(cells, y, x),
        in_area(ty, tx, max_y, max_x),
        even_cell(ty, tx),
        dug_or_pending(cells, Set::empty(), max_y, max_x),
    ensures
        is_passage_at(cells, ty, tx),
    decreases (if y <= ty { ty - y } else { y - ty }) + (if x <= tx { tx - x } else { x - tx }),
{
    assert(finished(cells, y, x, max_y, max_x));
    if y < ty {
        assert(in_area(y + step_y(0), x + step_x(0), max_y, max_x));
        lemma_reach_all(cells, y + 2, x, ty, tx, max_y, max_x);
    } else if y > ty {
        assert(in_area(y + step_y(1), x + step_x(1), max_y, max_x));
        lemma_reach_all(cells, y - 2, x, ty, tx, max_y, max_x);
    } else if x < tx {
        assert(in_area(y + step_y(2), x + step_x(2), max_y, max_x));
        lemma_reach_all(cells, y, x + 2, ty, tx, max_y, max_x);
    } else if x > tx {
        assert(in_area(y + step_y(3), x + step_x(3), max_y, max_x));
        lemma_reach_all(cells, y, x - 2, ty, tx, max_y, max_x);
    }
}

/// Whether every cell of `s` is empty or passage.
pub open spec fn only_empty_or_passage(s: Structure) -> bool {
    forall|y: int, x: int| s.in_bounds(y, x) ==> (s.at(y, x) == Tile::Empty || s.at(y, x) == Tile::Passage)
}

/// Whether every cell of `s` whose row and column are both even is passage.
pub open spec fn even_cells_open(s: Structure) -> bool {
    forall|y: int, x: int| s.in_bounds(y, x) && even_cell(y, x) ==> s.at(y, x) == Tile::Passage
}

/// Build the tile model of a maze room: passages dug by a random depth-first
/// search from a random cell with even coordinates, empty elsewhere.
///
/// Every cell with even row and column ends up as passage, cells odd both
/// ways stay empty, and the passages form a spanning tree over the even
/// cells: one connected region of `2N - 1` cells for `N` even cells, each
/// even cell but the first joined to the tree by one cell between.
pub fn build_maze_structure(dice: &mut Dice, height: usize, width: usize) -> (s: Structure)
    requires
        height < 0x4000_0000,
        width < 0x4000_0000,
    ensures
        s.wf(),
        s.spec_height() == height,
        s.spec_width() == width,
        only_empty_or_passage(s),
        even_cells_open(s),
        odd_cells_closed(s),
        height > 0 && width > 0 ==> passage_count(s) == 2 * even_cell_count(height as int, width as int) - 1,
        passages_connected(s),
{
    let mut structure = Structure::new(height, width, Tile::Empty);
    if height == 0 || width == 0 {
        assert(reaches_all(structure, (0, 0)));
        return structure;
    }
    let max_y = height as i32 - 1;
    let max_x = width as i32 - 1;
    let start_y = if height > 1 {
        (rnd(dice, height as i32) / 2) * 2
    } else {
        0
    };
    let start_x = if width > 1 {
        (rnd(dice, width as i32) / 2) * 2
    } else {
        0
    };
    proof { structure.lemma_shape(); }
    let ghost blank = structure.cells();
    let ghost blank_s = structure;
    let _ = structure.set(start_y as usize, start_x as usize, Tile::Passage);
    proof {
        structure.lemma_shape();
        let cells = structure.cells();
        assert forall|yy: int, xx: int| #![trigger is_passage_at(cells, yy, xx)]
            in_area(yy, xx, max_y as int, max_x as int) && even_cell(yy, xx) && is_passage_at(cells, yy, xx)
            implies finished(cells, yy, xx, max_y as int, max_x as int) || set![(start_y as int, start_x as int)].contains((yy, xx)) by {
            if yy != start_y || xx != start_x {
                assert(blank_s.in_bounds(yy, xx));
                assert(blank_s.at(yy, xx) == Tile::Empty);
                assert(cells[yy][xx] == blank[yy][xx]);
            }
        }
    }
    let ghost seeded = structure.cells();
    let ghost first: Set<(int, int)> = set![(start_y as int, start_x as int)];
    let ghost origin: (int, int) = (start_y as int, start_x as int);
    proof {
        structure.lemma_shape();
        assert forall|yy: int, xx: int| in_area(yy, xx, max_y as int, max_x as int) implies #[trigger] blank[yy][xx] == Tile::Empty by {
            assert(blank_s.in_bounds(yy, xx));
        }
        lemma_seeded(blank, seeded, origin, max_y as int, max_x as int);
    }
    dig_local(&mut structure, dice, start_y, start_x, max_y, max_x, Ghost(first), Ghost(origin));
    proof {
        structure.lemma_shape();
        let cells = structure.cells();
        assert(set![(start_y as int, start_x as int)].remove((start_y as int, start_x as int)) =~= Set::<(int, int)>::empty());
        assert(is_passage_at(cells, start_y as int, start_x as int)) by {
            assert(cells[start_y as int][start_x as int] == seeded[start_y as int][start_x as int]
                || cells[start_y as int][start_x as int] == Tile::Passage);
        }
        assert forall|y: int, x: int| structure.in_bounds(y, x) && even_cell(y, x) implies structure.at(y, x) == Tile::Passage by {
            lemma_reach_all(cells, start_y as int, start_x as int, y, x, max_y as int, max_x as int);
        }
        assert forall|y: int, x: int| structure.in_bounds(y, x) implies (structure.at(y, x) == Tile::Empty || structure.at(y, x) == Tile::Passage) by {
            assert(cells[y][x] == seeded[y][x] || cells[y][x] == Tile::Passage);
            assert(seeded[y][x] == blank[y][x] || seeded[y][x] == Tile::Passage);
            assert(blank_s.in_bounds(y, x));
            assert(blank_s.at(y, x) == Tile::Empty);
        }
        lemma_maze_done(structure, origin);
    }
    structure
}

} // verus!

verus! {

/// Number of cells of row `y` (held in `row`) whose column and tile meet `f`.
pub open spec fn row_count(row: Seq<Tile>, y: int, f: spec_fn(int, int, Tile) -> bool) -> nat
    decreases row.len(),
{
    if row.len() == 0 {
        0
    } else {
        row_count(row.drop_last(), y, f) + (if f(y, row.len() - 1, row.last()) { 1nat } else { 0nat })
    }
}

/// Number of cells `(y, x)` of `cells` whose position and tile meet `f`.
pub open spec fn grid_count(cells: Seq<Seq<Tile>>, f: spec_fn(int, int, Tile) -> bool) -> nat
    decreases cells.len(),
{
    if cells.len() == 0 {
        0
    } else {
        grid_count(cells.drop_last(), f) + row_count(cells.last(), cells.len() - 1, f)
    }
}

/// A passage cell.
pub open spec fn passage_tile() -> spec_fn(int, int, Tile) -> bool {
    |y: int, x: int, t: Tile| t == Tile::Passage
}

/// A passage cell whose row and column are both even.
pub open spec fn even_passage_tile() -> spec_fn(int, int, Tile) -> bool {
    |y: int, x: int, t: Tile| even_cell(y, x) && t == Tile::Passage
}

/// A cell whose row and column are both even, whatever it holds.
pub open spec fn even_position() -> spec_fn(int, int, Tile) -> bool {
    |y: int, x: int, t: Tile| even_cell(y, x)
}

/// Whether two cells share a side.
pub open spec fn next_to(a: (int, int), b: (int, int)) -> bool {
    ||| (a.0 == b.0 && (a.1 - b.1 == 1 || b.1 - a.1 == 1))
    ||| (a.1 == b.1 && (a.0 - b.0 == 1 || b.0 - a.0 == 1))
}

/// Whether `path` is a walk over passage cells of `cells`, each step to a
/// cell that shares a side with the one before.
pub open spec fn passage_walk(cells: Seq<Seq<Tile>>, path: Seq<(int, int)>) -> bool {
    &&& path.len() >= 1
    &&& forall|i: int| 0 <= i < path.len() ==> 0 <= (#[trigger] path[i]).0 < cells.len() && 0 <= path[i].1 < cells[path[i].0].len()
        && cells[path[i].0][path[i].1] == Tile::Passage
    &&& forall|i: int| 0 <= i < path.len() - 1 ==> next_to(#[trigger] path[i], path[i + 1])
}

/// Whether a walk over passage cells leads from `a` to `b`.
pub open spec fn joined(cells: Seq<Seq<Tile>>, a: (int, int), b: (int, int)) -> bool {
    exists|path: Seq<(int, int)>| passage_walk(cells, path) && path[0] == a && path.last() == b
}

/// Number of passage cells of `s`.
pub open spec fn passage_count(s: Structure) -> nat {
    grid_count(s.cells(), passage_tile())
}

/// Number of cells of a `height` by `width` grid whose row and column are
/// both even.
pub open spec fn even_cell_count(height: int, width: int) -> int {
    ((height + 1) / 2) * ((width + 1) / 2)
}

/// Whether every cell of `s` whose row and column are both odd is empty.
pub open spec fn odd_cells_closed(s: Structure) -> bool {
    forall|y: int, x: int| s.in_bounds(y, x) && y % 2 == 1 && x % 2 == 1 ==> s.at(y, x) == Tile::Empty
}

/// Whether a walk over passage leads from `c` to every passage cell of `s`.
pub open spec fn reaches_all(s: Structure, c: (int, int)) -> bool {
    forall|y: int, x: int| s.in_bounds(y, x) && s.at(y, x) == Tile::Passage ==> #[trigger] joined(s.cells(), c, (y, x))
}

/// Whether one cell of `s` leads to every passage cell of `s`: the passage
/// cells form one connected region.
pub open spec fn passages_connected(s: Structure) -> bool {
    exists|c: (int, int)| reaches_all(s, c)
}

/// A passage cell off the even grid sits between two passage cells of it:
/// odd columns join the cells left and right, odd rows those above and
/// below; cells odd both ways stay empty.
pub open spec fn tree_shape(cells: Seq<Seq<Tile>>, max_y: int, max_x: int) -> bool {
    forall|y: int, x: int| in_area(y, x, max_y, max_x) ==> #[trigger] shape_at(cells, max_y, max_x, y, x)
}

/// What `tree_shape` asks of the cell `(y, x)`.
pub open spec fn shape_at(cells: Seq<Seq<Tile>>, max_y: int, max_x: int, y: int, x: int) -> bool {
    &&& (y % 2 == 1 && x % 2 == 1 ==> cells[y][x] == Tile::Empty)
    &&& (y % 2 == 0 && x % 2 == 1 && cells[y][x] == Tile::Passage
        ==> x + 1 <= max_x && cells[y][x - 1] == Tile::Passage && cells[y][x + 1] == Tile::Passage)
    &&& (y % 2 == 1 && x % 2 == 0 && cells[y][x] == Tile::Passage
        ==> y + 1 <= max_y && cells[y - 1][x] == Tile::Passage && cells[y + 1][x] == Tile::Passage)
}

/// Each passage cell off the even grid pairs with one on it, less one.
pub open spec fn tree_count(cells: Seq<Seq<Tile>>) -> bool {
    grid_count(cells, passage_tile()) + 1 == 2 * grid_count(cells, even_passage_tile())
}

/// Every passage cell in the area is reached from `origin`.
pub open spec fn all_joined(cells: Seq<Seq<Tile>>, origin: (int, int), max_y: int, max_x: int) -> bool {
    forall|y: int, x: int| #![trigger is_passage_at(cells, y, x)]
        in_area(y, x, max_y, max_x) && is_passage_at(cells, y, x) ==> joined(cells, origin, (y, x))
}

/// The grid `cells` is `max_y + 1` rows of `max_x + 1` cells.
pub open spec fn area_shape(cells: Seq<Seq<Tile>>, max_y: int, max_x: int) -> bool {
    &&& cells.len() == max_y + 1
    &&& forall|r: int| 0 <= r < cells.len() ==> #[trigger] cells[r].len() == max_x + 1
}

proof fn lemma_row_count_update(row: Seq<Tile>, y: int, i: int, t: Tile, f: spec_fn(int, int, Tile) -> bool)
    requires
        0 <= i < row.len(),
    ensures
        row_count(row.update(i, t), y, f) + (if f(y, i, row[i]) { 1int } else { 0int })
            == row_count(row, y, f) + (if f(y, i, t) { 1int } else { 0int }),
    decreases row.len(),
{
    let r2 = row.update(i, t);
    if i == row.len() - 1 {
        assert(r2.drop_last() =~= row.drop_last());
    } else {
        assert(r2.drop_last() =~= row.drop_last().update(i, t));
        lemma_row_count_update(row.drop_last(), y, i, t, f);
    }
}

proof fn lemma_grid_count_update(cells: Seq<Seq<Tile>>, y: int, row: Seq<Tile>, f: spec_fn(int, int, Tile) -> bool)
    requires
        0 <= y < cells.len(),
    ensures
        grid_count(cells.update(y, row), f) + row_count(cells[y], y, f) == grid_count(cells, f) + row_count(row, y, f),
    decreases cells.len(),
{
    let c2 = cells.update(y, row);
    if y == cells.len() - 1 {
        assert(c2.drop_last() =~= cells.drop_last());
    } else {
        assert(c2.drop_last() =~= cells.drop_last().update(y, row));
        lemma_grid_count_update(cells.drop_last(), y, row, f);
    }
}

/// Setting one cell moves a count by at most that cell.
proof fn lemma_put_count(cells: Seq<Seq<Tile>>, y: int, x: int, t: Tile, f: spec_fn(int, int, Tile) -> bool)
    requires
        0 <= y < cells.len(),
        0 <= x < cells[y].len(),
    ensures
        grid_count(put_tile(cells, y, x, t), f) + (if f(y, x, cells[y][x]) { 1int } else { 0int })
            == grid_count(cells, f) + (if f(y, x, t) { 1int } else { 0int }),
{
    lemma_row_count_update(cells[y], y, x, t, f);
    lemma_grid_count_update(cells, y, cells[y].update(x, t), f);
}

proof fn lemma_row_count_ext(row: Seq<Tile>, y: int, f: spec_fn(int, int, Tile) -> bool, g: spec_fn(int, int, Tile) -> bool)
    requires
        forall|x: int| 0 <= x < row.len() ==> f(y, x, #[trigger] row[x]) == g(y, x, row[x]),
    ensures
        row_count(row, y, f) == row_count(row, y, g),
    decreases row.len(),
{
    if row.len() > 0 {
        let r = row.drop_last();
        assert forall|x: int| 0 <= x < r.len() implies f(y, x, #[trigger] r[x]) == g(y, x, r[x]) by {
            assert(r[x] == row[x]);
        }
        lemma_row_count_ext(r, y, f, g);
        assert(f(y, row.len() - 1, row[row.len() - 1]) == g(y, row.len() - 1, row[row.len() - 1]));
    }
}

proof fn lemma_grid_count_ext(cells: Seq<Seq<Tile>>, f: spec_fn(int, int, Tile) -> bool, g: spec_fn(int, int, Tile) -> bool)
    requires
        forall|y: int, x: int| 0 <= y < cells.len() && 0 <= x < cells[y].len() ==> f(y, x, #[trigger] cells[y][x]) == g(y, x, cells[y][x]),
    ensures
        grid_count(cells, f) == grid_count(cells, g),
    decreases cells.len(),
{
    if cells.len() > 0 {
        let c = cells.drop_last();
        assert forall|y: int, x: int| 0 <= y < c.len() && 0 <= x < c[y].len() implies f(y, x, #[trigger] c[y][x]) == g(y, x, c[y][x]) by {
            assert(c[y] == cells[y]);
        }
        lemma_grid_count_ext(c, f, g);
        let y = cells.len() - 1;
        assert forall|x: int| 0 <= x < cells[y].len() implies f(y, x, #[trigger] cells[y][x]) == g(y, x, cells[y][x]) by {}
        lemma_row_count_ext(cells[y], y, f, g);
    }
}

proof fn lemma_row_count_none(row: Seq<Tile>, y: int, f: spec_fn(int, int, Tile) -> bool)
    requires
        forall|x: int| 0 <= x < row.len() ==> !f(y, x, #[trigger] row[x]),
    ensures
        row_count(row, y, f) == 0,
    decreases row.len(),
{
    if row.len() > 0 {
        let r = row.drop_last();
        assert forall|x: int| 0 <= x < r.len() implies !f(y, x, #[trigger] r[x]) by {
            assert(r[x] == row[x]);
        }
        lemma_row_count_none(r, y, f);
        assert(!f(y, row.len() - 1, row[row.len() - 1]));
    }
}

proof fn lemma_grid_count_none(cells: Seq<Seq<Tile>>, f: spec_fn(int, int, Tile) -> bool)
    requires
        forall|y: int, x: int| 0 <= y < cells.len() && 0 <= x < cells[y].len() ==> !f(y, x, #[trigger] cells[y][x]),
    ensures
        grid_count(cells, f) == 0,
    decreases cells.len(),
{
    if cells.len() > 0 {
        let c = cells.drop_last();
        assert forall|y: int, x: int| 0 <= y < c.len() && 0 <= x < c[y].len() implies !f(y, x, #[trigger] c[y][x]) by {
            assert(c[y] == cells[y]);
        }
        lemma_grid_count_none(c, f);
        let y = cells.len() - 1;
        assert forall|x: int| 0 <= x < cells[y].len() implies !f(y, x, #[trigger] cells[y][x]) by {}
        lemma_row_count_none(cells[y], y, f);
    }
}

proof fn lemma_row_even_count(row: Seq<Tile>, y: int)
    requires
        y >= 0,
    ensures
        row_count(row, y, even_position()) == (if y % 2 == 0 { (row.len() + 1) / 2 } else { 0 }),
    decreases row.len(),
{
    if row.len() > 0 {
        lemma_row_even_count(row.drop_last(), y);
    }
}

proof fn lemma_grid_even_count(cells: Seq<Seq<Tile>>, w: int)
    requires
        w >= 0,
        forall|r: int| 0 <= r < cells.len() ==> #[trigger] cells[r].len() == w,
    ensures
        grid_count(cells, even_position()) == even_cell_count(cells.len() as int, w),
    decreases cells.len(),
{
    if cells.len() > 0 {
        let h = cells.len() as int;
        let c = cells.drop_last();
        assert forall|r: int| 0 <= r < c.len() implies #[trigger] c[r].len() == w by {
            assert(c[r] == cells[r]);
        }
        lemma_grid_even_count(c, w);
        lemma_row_even_count(cells[h - 1], h - 1);
        let a = (w + 1) / 2;
        let b: int = if (h - 1) % 2 == 0 { 1 } else { 0 };
        assert(cells.last() == cells[h - 1]);
        assert(row_count(cells[h - 1], h - 1, even_position()) == b * a);
        assert(grid_count(cells, even_position()) == grid_count(c, even_position()) + row_count(cells[h - 1], h - 1, even_position()));
        assert(c.len() == h - 1);
        assert(grid_count(c, even_position()) == (h / 2) * a);
        assert(h / 2 + b == (h + 1) / 2);
        assert((h / 2) * a + b * a == ((h + 1) / 2) * a) by (nonlinear_arith)
            requires h / 2 + b == (h + 1) / 2;
        assert(grid_count(cells, even_position()) == (h / 2) * a + b * a);
        assert(even_cell_count(h, w) == ((h + 1) / 2) * a);
    } else {
        assert(even_cell_count(0, w) == 0 * ((w + 1) / 2));
    }
}

proof fn lemma_walk_monotone(before: Seq<Seq<Tile>>, after: Seq<Seq<Tile>>, path: Seq<(int, int)>)
    requires
        passage_walk(before, path),
        after.len() == before.len(),
        forall|r: int| 0 <= r < before.len() ==> #[trigger] after[r].len() == before[r].len(),
        forall|y: int, x: int| 0 <= y < before.len() && 0 <= x < before[y].len() && #[trigger] before[y][x] == Tile::Passage
            ==> after[y][x] == Tile::Passage,
    ensures
        passage_walk(after, path),
{
    assert forall|i: int| 0 <= i < path.len() implies 0 <= (#[trigger] path[i]).0 < after.len() && 0 <= path[i].1 < after[path[i].0].len()
        && after[path[i].0][path[i].1] == Tile::Passage by {
        assert(before[path[i].0][path[i].1] == Tile::Passage);
    }
}

proof fn lemma_walk_extend(cells: Seq<Seq<Tile>>, path: Seq<(int, int)>, p: (int, int))
    requires
        passage_walk(cells, path),
        0 <= p.0 < cells.len(),
        0 <= p.1 < cells[p.0].len(),
        cells[p.0][p.1] == Tile::Passage,
        next_to(path.last(), p),
    ensures
        passage_walk(cells, path.push(p)),
        path.push(p)[0] == path[0],
        path.push(p).last() == p,
{
    let q = path.push(p);
    assert forall|i: int| 0 <= i < q.len() implies 0 <= (#[trigger] q[i]).0 < cells.len() && 0 <= q[i].1 < cells[q[i].0].len()
        && cells[q[i].0][q[i].1] == Tile::Passage by {
        if i < path.len() {
            assert(q[i] == path[i]);
        }
    }
    assert forall|i: int| 0 <= i < q.len() - 1 implies next_to(#[trigger] q[i], q[i + 1]) by {
        assert(q[i] == path[i]);
        if i < path.len() - 1 {
            assert(q[i + 1] == path[i + 1]);
        }
    }
}

/// The cell `(my, mx)` between even cells `(y, x)` and `(ny, nx)`.
pub open spec fn dig_move(y: int, x: int, ny: int, nx: int, my: int, mx: int) -> bool {
    ||| (ny == y && (nx == x + 2 || nx == x - 2) && my == y && mx == (x + nx) / 2)
    ||| (nx == x && (ny == y + 2 || ny == y - 2) && mx == x && my == (y + ny) / 2)
}

proof fn lemma_dig_shape(before: Seq<Seq<Tile>>, now: Seq<Seq<Tile>>, y: int, x: int, ny: int, nx: int, my: int, mx: int, max_y: int, max_x: int)
    requires
        area_shape(before, max_y, max_x),
        in_area(y, x, max_y, max_x),
        even_cell(y, x),
        is_passage_at(before, y, x),
        in_area(ny, nx, max_y, max_x),
        even_cell(ny, nx),
        dig_move(y, x, ny, nx, my, mx),
        tree_shape(before, max_y, max_x),
        now == put_tile(put_tile(before, my, mx, Tile::Passage), ny, nx, Tile::Passage),
    ensures
        tree_shape(now, max_y, max_x),
{
    assert forall|yy: int, xx: int| in_area(yy, xx, max_y, max_x) implies #[trigger] shape_at(now, max_y, max_x, yy, xx) by {
        assert(shape_at(before, max_y, max_x, yy, xx));
        if !(yy == my && xx == mx) && !(yy == ny && xx == nx) {
            assert(now[yy][xx] == before[yy][xx]);
            if yy % 2 == 0 && xx % 2 == 1 && now[yy][xx] == Tile::Passage {
                assert(now[yy][xx - 1] == Tile::Passage);
                assert(now[yy][xx + 1] == Tile::Passage);
            }
            if yy % 2 == 1 && xx % 2 == 0 && now[yy][xx] == Tile::Passage {
                assert(now[yy - 1][xx] == Tile::Passage);
                assert(now[yy + 1][xx] == Tile::Passage);
            }
        }
    }
}

proof fn lemma_dig_count(before: Seq<Seq<Tile>>, now: Seq<Seq<Tile>>, y: int, x: int, ny: int, nx: int, my: int, mx: int, max_y: int, max_x: int)
    requires
        area_shape(before, max_y, max_x),
        in_area(y, x, max_y, max_x),
        even_cell(y, x),
        in_area(ny, nx, max_y, max_x),
        even_cell(ny, nx),
        !is_passage_at(before, ny, nx),
        dig_move(y, x, ny, nx, my, mx),
        tree_shape(before, max_y, max_x),
        tree_count(before),
        now == put_tile(put_tile(before, my, mx, Tile::Passage), ny, nx, Tile::Passage),
    ensures
        tree_count(now),
{
    let middle = put_tile(before, my, mx, Tile::Passage);
    assert(in_area(my, mx, max_y, max_x));
    assert(middle[ny][nx] == before[ny][nx]);
    // the middle cell was closed: else `(ny, nx)` would be open already
    assert(before[my][mx] != Tile::Passage) by {
        assert(shape_at(before, max_y, max_x, my, mx));
    }
    assert(!(my % 2 == 0 && mx % 2 == 0));
    lemma_put_count(before, my, mx, Tile::Passage, passage_tile());
    lemma_put_count(before, my, mx, Tile::Passage, even_passage_tile());
    lemma_put_count(middle, ny, nx, Tile::Passage, passage_tile());
    lemma_put_count(middle, ny, nx, Tile::Passage, even_passage_tile());
}

proof fn lemma_dig_joined(before: Seq<Seq<Tile>>, now: Seq<Seq<Tile>>, y: int, x: int, ny: int, nx: int, my: int, mx: int, max_y: int, max_x: int, origin: (int, int))
    requires
        area_shape(before, max_y, max_x),
        in_area(y, x, max_y, max_x),
        is_passage_at(before, y, x),
        in_area(ny, nx, max_y, max_x),
        dig_move(y, x, ny, nx, my, mx),
        all_joined(before, origin, max_y, max_x),
        now == put_tile(put_tile(before, my, mx, Tile::Passage), ny, nx, Tile::Passage),
    ensures
        all_joined(now, origin, max_y, max_x),
{
    assert(in_area(my, mx, max_y, max_x));
    assert forall|yy: int, xx: int| 0 <= yy < before.len() && 0 <= xx < before[yy].len() && #[trigger] before[yy][xx] == Tile::Passage
        implies now[yy][xx] == Tile::Passage by {}
    assert(joined(before, origin, (y, x)));
    let p = choose|path: Seq<(int, int)>| passage_walk(before, path) && path[0] == origin && path.last() == (y, x);
    lemma_walk_monotone(before, now, p);
    lemma_walk_extend(now, p, (my, mx));
    lemma_walk_extend(now, p.push((my, mx)), (ny, nx));
    assert forall|yy: int, xx: int| #![trigger is_passage_at(now, yy, xx)]
        in_area(yy, xx, max_y, max_x) && is_passage_at(now, yy, xx) implies joined(now, origin, (yy, xx)) by {
        if yy == my && xx == mx {
        } else if yy == ny && xx == nx {
        } else {
            assert(is_passage_at(before, yy, xx));
            assert(joined(before, origin, (yy, xx)));
            let q = choose|path: Seq<(int, int)>| passage_walk(before, path) && path[0] == origin && path.last() == (yy, xx);
            lemma_walk_monotone(before, now, q);
        }
    }
}

/// The grid `blank`, empty over the area, with passage put at the even cell
/// `origin`, is a one-cell tree reached from `origin`.
proof fn lemma_seeded(blank: Seq<Seq<Tile>>, seeded: Seq<Seq<Tile>>, origin: (int, int), my: int, mx: int)
    requires
        area_shape(blank, my, mx),
        forall|yy: int, xx: int| in_area(yy, xx, my, mx) ==> #[trigger] blank[yy][xx] == Tile::Empty,
        in_area(origin.0, origin.1, my, mx),
        even_cell(origin.0, origin.1),
        seeded == put_tile(blank, origin.0, origin.1, Tile::Passage),
    ensures
        tree_shape(seeded, my, mx),
        tree_count(seeded),
        all_joined(seeded, origin, my, mx),
{
    assert forall|yy: int, xx: int| 0 <= yy < blank.len() && 0 <= xx < blank[yy].len()
        implies !passage_tile()(yy, xx, #[trigger] blank[yy][xx]) by {
        assert(in_area(yy, xx, my, mx));
    }
    assert forall|yy: int, xx: int| 0 <= yy < blank.len() && 0 <= xx < blank[yy].len()
        implies !even_passage_tile()(yy, xx, #[trigger] blank[yy][xx]) by {
        assert(in_area(yy, xx, my, mx));
    }
    lemma_grid_count_none(blank, passage_tile());
    lemma_grid_count_none(blank, even_passage_tile());
    lemma_put_count(blank, origin.0, origin.1, Tile::Passage, passage_tile());
    lemma_put_count(blank, origin.0, origin.1, Tile::Passage, even_passage_tile());
    assert forall|yy: int, xx: int| in_area(yy, xx, my, mx) implies #[trigger] shape_at(seeded, my, mx, yy, xx) by {
        if yy != origin.0 || xx != origin.1 {
            assert(seeded[yy][xx] == Tile::Empty);
        }
    }
    let p = seq![origin];
    assert(passage_walk(seeded, p));
    assert forall|yy: int, xx: int| #![trigger is_passage_at(seeded, yy, xx)]
        in_area(yy, xx, my, mx) && is_passage_at(seeded, yy, xx) implies joined(seeded, origin, (yy, xx)) by {
        if yy != origin.0 || xx != origin.1 {
            assert(seeded[yy][xx] == Tile::Empty);
        }
        assert(p.last() == (yy, xx));
    }
}

/// A dug maze whose even cells are all open has the shape that
/// `build_maze_structure` promises.
proof fn lemma_maze_done(s: Structure, origin: (int, int))
    requires
        s.wf(),
        s.spec_height() > 0,
        s.spec_width() > 0,
        even_cells_open(s),
        tree_shape(s.cells(), s.spec_height() - 1, s.spec_width() - 1),
        tree_count(s.cells()),
        all_joined(s.cells(), origin, s.spec_height() - 1, s.spec_width() - 1),
    ensures
        odd_cells_closed(s),
        passage_count(s) == 2 * even_cell_count(s.spec_height() as int, s.spec_width() as int) - 1,
        passages_connected(s),
{
    s.lemma_shape();
    let cells = s.cells();
    let my = s.spec_height() - 1;
    let mx = s.spec_width() - 1;
    assert forall|y: int, x: int| s.in_bounds(y, x) && y % 2 == 1 && x % 2 == 1 implies s.at(y, x) == Tile::Empty by {
        assert(shape_at(cells, my, mx, y, x));
    }
    assert forall|y: int, x: int| 0 <= y < cells.len() && 0 <= x < cells[y].len()
        implies even_passage_tile()(y, x, #[trigger] cells[y][x]) == even_position()(y, x, cells[y][x]) by {
        if even_cell(y, x) {
            assert(s.in_bounds(y, x));
        }
    }
    lemma_grid_count_ext(cells, even_passage_tile(), even_position());
    lemma_grid_even_count(cells, s.spec_width() as int);
    assert(reaches_all(s, origin)) by {
        assert forall|y: int, x: int| s.in_bounds(y, x) && s.at(y, x) == Tile::Passage
            implies #[trigger] joined(s.cells(), origin, (y, x)) by {
            assert(is_passage_at(cells, y, x));
        }
    }
}

} // verus!
