use vstd::prelude::*;

use super::passages::{Passage, PassageLinks};
use super::roomgraph::{
    active, all_adjacent, count_if, laid_out, no_repeated_pair, parked, lemma_room_in_cell, lemma_rooms_apart, room_slots, spans_active_rooms,
    valid_cell_size, RoomGraph,
};
use super::rooms::{build_generated_rooms, rooms_built, same_room, Room, MAX_ROOMS};
use super::structure::{put_tile, stamp_cells, Structure};
use super::tile::Tile;
use crate::geom::IVec2;
use crate::rnd::Dice;

verus! {

/// Map height in cells: the largest on-screen area a dungeon level can
/// occupy.
pub const LEVEL_HEIGHT: usize = 32;
/// Map width in cells.
pub const LEVEL_WIDTH: usize = 80;

/// Number of cells of the level map.
pub open spec fn level_cells() -> int {
    (LEVEL_HEIGHT * LEVEL_WIDTH) as int
}

/// Per-cell flag data for the level, indexed `y * LEVEL_WIDTH + x`.
#[derive(Clone, Debug)]
pub struct LevelFlags {
    /// `false` marks a non-real (secret) wall or door cell.
    pub real: Vec<bool>,
    /// `true` marks a passage (`#`) cell.
    pub passage: Vec<bool>,
    /// `true` marks a cell already drawn.
    pub seen: Vec<bool>,
    /// Passage component number (0-15).
    pub passnum: Vec<u8>,
}

impl LevelFlags {
    /// One entry per map cell in each grid.
    pub open spec fn wf(&self) -> bool {
        &&& self.real@.len() == level_cells()
        &&& self.passage@.len() == level_cells()
        &&& self.seen@.len() == level_cells()
        &&& self.passnum@.len() == level_cells()
    }

    /// The flags of a fresh level: every cell real, nothing passage or seen,
    /// every component number zero.
    pub open spec fn is_cleared(&self) -> bool {
        &&& self.wf()
        &&& forall|i: int| 0 <= i < level_cells() ==> #[trigger] self.real@[i]
        &&& forall|i: int| 0 <= i < level_cells() ==> !#[trigger] self.passage@[i]
        &&& forall|i: int| 0 <= i < level_cells() ==> !#[trigger] self.seen@[i]
        &&& forall|i: int| 0 <= i < level_cells() ==> #[trigger] self.passnum@[i] == 0
    }

    /// Fresh-level flags.
    pub fn cleared() -> (f: LevelFlags)
        ensures
            f.is_cleared(),
    {
        let cells = LEVEL_HEIGHT * LEVEL_WIDTH;
        let mut real_flags: Vec<bool> = Vec::new();
        let mut passage: Vec<bool> = Vec::new();
        let mut seen: Vec<bool> = Vec::new();
        let mut passnum: Vec<u8> = Vec::new();
        let mut i: usize = 0;
        while i < cells
            invariant
                cells == level_cells(),
                i <= cells,
                real_flags@.len() == i,
                passage@.len() == i,
                seen@.len() == i,
                passnum@.len() == i,
                forall|k: int| 0 <= k < i ==> #[trigger] real_flags@[k],
                forall|k: int| 0 <= k < i ==> !#[trigger] passage@[k],
                forall|k: int| 0 <= k < i ==> !#[trigger] seen@[k],
                forall|k: int| 0 <= k < i ==> #[trigger] passnum@[k] == 0,
            decreases cells - i,
        {
            real_flags.push(true);
            passage.push(false);
            seen.push(false);
            passnum.push(0);
            i = i + 1;
        }
        LevelFlags { real: real_flags, passage, seen, passnum }
    }
}

/// In-memory dungeon level state.
pub struct Level {
    pub depth: i32,
    pub rooms: Vec<Room>,
    pub room_graph: RoomGraph,
    pub passages: Vec<Passage>,
    pub map: Structure,
    pub flags: LevelFlags,
    /// Door exits of each numbered passage component.
    pub passage_links: Vec<PassageLinks>,
}

/// `cells` with every active room of `rooms[..n]` stamped at its position,
/// in order, skipping rooms that do not fit a `height` x `width` map.
pub open spec fn stamp_rooms(cells: Seq<Seq<Tile>>, rooms: Seq<Room>, n: int, height: int, width: int) -> Seq<Seq<Tile>>
    decreases n,
{
    if n <= 0 {
        cells
    } else {
        let before = stamp_rooms(cells, rooms, n - 1, height, width);
        let r = rooms[n - 1];
        if stamps(r, height, width) {
            stamp_cells(before, r.position, r.structure.cells())
        } else {
            before
        }
    }
}

/// Whether room `r` is stamped on a `height` x `width` map: it is not
/// removed and its tiles fit.
pub open spec fn stamps(r: Room, height: int, width: int) -> bool {
    &&& !r.gone
    &&& r.position.y >= 0
    &&& r.position.x >= 0
    &&& r.position.y + r.structure.spec_height() <= height
    &&& r.position.x + r.structure.spec_width() <= width
}

/// Whether map cell `(y, x)` lies under room `r`'s tiles.
pub open spec fn covers(r: Room, y: int, x: int) -> bool {
    &&& r.position.y <= y < r.position.y + r.structure.spec_height()
    &&& r.position.x <= x < r.position.x + r.structure.spec_width()
}

/// Whether `cells` has `height` rows of `width` tiles.
pub open spec fn grid_shape(cells: Seq<Seq<Tile>>, height: int, width: int) -> bool {
    &&& cells.len() == height
    &&& forall|y: int| 0 <= y < height ==> #[trigger] cells[y].len() == width
}

proof fn lemma_stamp_rooms_shape(cells: Seq<Seq<Tile>>, rooms: Seq<Room>, n: int, height: int, width: int)
    requires
        grid_shape(cells, height, width),
    ensures
        grid_shape(stamp_rooms(cells, rooms, n, height, width), height, width),
    decreases n,
{
    if n > 0 {
        lemma_stamp_rooms_shape(cells, rooms, n - 1, height, width);
    }
}

/// After stamping `rooms[..n]`, a cell under room `i` that no later stamped
/// room covers shows room `i`'s tile.
proof fn lemma_stamp_rooms_cell(cells: Seq<Seq<Tile>>, rooms: Seq<Room>, n: int, height: int, width: int, i: int, y: int, x: int)
    requires
        grid_shape(cells, height, width),
        0 <= i < n <= rooms.len(),
        forall|k: int| 0 <= k < n ==> (#[trigger] rooms[k]).structure.wf(),
        stamps(rooms[i], height, width),
        covers(rooms[i], y, x),
        forall|k: int| i < k < n ==> !(stamps(#[trigger] rooms[k], height, width) && covers(rooms[k], y, x)),
    ensures
        stamp_rooms(cells, rooms, n, height, width)[y][x] == rooms[i].structure.at(y - rooms[i].position.y, x - rooms[i].position.x),
    decreases n,
{
    let r = rooms[n - 1];
    lemma_stamp_rooms_shape(cells, rooms, n - 1, height, width);
    r.structure.lemma_shape();
    if n - 1 > i {
        lemma_stamp_rooms_cell(cells, rooms, n - 1, height, width, i, y, x);
    }
}

fn copy_rooms(rooms: &[Room]) -> (out: Vec<Room>)
    ensures
        out@.len() == rooms@.len(),
        forall|i: int| 0 <= i < rooms@.len() ==> same_room(#[trigger] out@[i], rooms@[i]),
{
    let mut out: Vec<Room> = Vec::new();
    let mut i: usize = 0;
    while i < rooms.len()
        invariant
            i <= rooms@.len(),
            out@.len() == i,
            forall|k: int| 0 <= k < i ==> same_room(#[trigger] out@[k], rooms@[k]),
        decreases rooms@.len() - i,
    {
        out.push(rooms[i].clone());
        i = i + 1;
    }
    out
}

impl Level {
    /// A fresh level: depth 0, nine empty room slots at the origin, an empty
    /// room graph, no passages, an empty 32x80 map and cleared flags.
    pub fn new() -> (l: Level)
        ensures
            l.depth == 0,
            l.rooms@.len() == MAX_ROOMS,
            forall|i: int| 0 <= i < MAX_ROOMS ==> {
                let r = #[trigger] l.rooms@[i];
                &&& r.wf()
                &&& r.is_fresh()
                &&& r.position == IVec2 { x: 0, y: 0 }
                &&& r.size == IVec2 { x: 0, y: 0 }
            },
            l.room_graph.wf(),
            l.room_graph.spec_connections().len() == 0,
            l.passages@.len() == 0,
            l.map.wf(),
            l.map.spec_height() == LEVEL_HEIGHT,
            l.map.spec_width() == LEVEL_WIDTH,
            forall|y: int, x: int| l.map.in_bounds(y, x) ==> l.map.at(y, x) == Tile::Empty,
            l.flags.is_cleared(),
            l.passage_links@.len() == 0,
    {
        let mut rooms: Vec<Room> = Vec::new();
        let mut i: usize = 0;
        while i < MAX_ROOMS
            invariant
                i <= MAX_ROOMS,
                rooms@.len() == i,
                forall|k: int| 0 <= k < i ==> {
                    let r = #[trigger] rooms@[k];
                    &&& r.wf()
                    &&& r.is_fresh()
                    &&& r.position == IVec2 { x: 0, y: 0 }
                    &&& r.size == IVec2 { x: 0, y: 0 }
                },
            decreases MAX_ROOMS - i,
        {
            rooms.push(Room::new(IVec2::zero(), IVec2::zero()));
            i = i + 1;
        }
        Level {
            depth: 0,
            rooms,
            room_graph: RoomGraph::new(),
            passages: Vec::new(),
            map: Structure::new(LEVEL_HEIGHT, LEVEL_WIDTH, Tile::Empty),
            flags: LevelFlags::cleared(),
            passage_links: Vec::new(),
        }
    }

    /// Reset every flag grid to a fresh-level state.
    pub fn reset_flags(&mut self)
        ensures
            final(self).flags.is_cleared(),
            final(self).depth == old(self).depth,
            final(self).rooms == old(self).rooms,
            final(self).room_graph == old(self).room_graph,
            final(self).passages == old(self).passages,
            final(self).map == old(self).map,
            final(self).passage_links == old(self).passage_links,
    {
        self.flags = LevelFlags::cleared();
    }

    /// Lay out this depth's rooms, plan their connections, build each active
    /// room's tile model and stamp it onto the level map.
    ///
    /// Returns the generated rooms; `self.rooms` holds a copy of them.
    pub fn generate_rooms_and_connections(&mut self, dice: &mut Dice, rooms: Vec<Room>, bsze: IVec2) -> (generated: Vec<Room>)
        requires
            room_slots(rooms@),
            valid_cell_size(bsze),
            old(self).map.wf(),
        ensures
            final(self).room_graph.wf(),
            forall|i: int| 0 <= i < MAX_ROOMS ==> laid_out(#[trigger] rooms@[i], final(self).room_graph.spec_rooms()[i], i, bsze, old(self).depth as int),
            count_if(9, parked(final(self).room_graph.spec_rooms())) < 4,
            all_adjacent(final(self).room_graph.spec_connections()),
            no_repeated_pair(final(self).room_graph.spec_connections()),
            count_if(9, active(final(self).room_graph.spec_rooms())) >= 1
                ==> spans_active_rooms(final(self).room_graph.spec_rooms(), final(self).room_graph.spec_connections()),
            rooms_built(final(self).room_graph.spec_rooms(), generated@),
            final(self).rooms@.len() == generated@.len(),
            forall|i: int| 0 <= i < generated@.len() ==> same_room(#[trigger] final(self).rooms@[i], generated@[i]),
            final(self).map.wf(),
            final(self).map.spec_height() == old(self).map.spec_height(),
            final(self).map.spec_width() == old(self).map.spec_width(),
            final(self).map.cells() == stamp_rooms(old(self).map.cells(), generated@, MAX_ROOMS as int,
                old(self).map.spec_height() as int, old(self).map.spec_width() as int),
            bsze.x >= 4 && bsze.y >= 4 ==> forall|i: int, y: int, x: int|
                0 <= i < MAX_ROOMS && stamps(generated@[i], old(self).map.spec_height() as int, old(self).map.spec_width() as int)
                    && generated@[i].structure.in_bounds(y, x)
                ==> final(self).map.at(generated@[i].position.y + y, generated@[i].position.x + x)
                    == #[trigger] generated@[i].structure.at(y, x),
            bsze.x >= 4 && bsze.y >= 4 && 3 * bsze.x + 1 <= old(self).map.spec_width() && 3 * bsze.y <= old(self).map.spec_height()
                ==> forall|i: int| 0 <= i < MAX_ROOMS && !(#[trigger] generated@[i]).gone
                ==> stamps(generated@[i], old(self).map.spec_height() as int, old(self).map.spec_width() as int),
            final(self).depth == old(self).depth,
            final(self).passages == old(self).passages,
            final(self).flags == old(self).flags,
            final(self).passage_links == old(self).passage_links,
    {
        self.room_graph = RoomGraph::for_level(dice, rooms, bsze, self.depth);
        let ghost g0 = self.room_graph.spec_rooms();
        assert(forall|i: int| 0 <= i < MAX_ROOMS ==> laid_out(#[trigger] rooms@[i], g0[i], i, bsze, old(self).depth as int));
        self.room_graph.generate_connections_for_rooms(dice);
        let laid = copy_rooms(self.room_graph.rooms());
        proof {
            let g = self.room_graph.spec_rooms();
            assert forall|i: int| 0 <= i < laid@.len() implies (#[trigger] laid@[i]).wf() by {
                assert(g[i].wf());
            }
            assert forall|i: int| 0 <= i < laid@.len() && !(#[trigger] laid@[i]).gone && laid@[i].maze
                implies laid@[i].size.x < 0x4000_0000 && laid@[i].size.y < 0x4000_0000 by {
                assert(laid_out(rooms@[i], g0[i], i, bsze, old(self).depth as int));
            }
        }
        let generated = build_generated_rooms(dice, laid);
        proof {
            let g = self.room_graph.spec_rooms();
            assert forall|i: int| 0 <= i < 9 implies {
                let b = #[trigger] g[i];
                let a = generated@[i];
                &&& same_room(a, Room { structure: a.structure, ..b })
                &&& a.wf()
                &&& (b.gone || b.size.x <= 0 || b.size.y <= 0 ==> super::rooms::same_structure(a.structure, b.structure))
                &&& (!b.gone && b.size.x > 0 && b.size.y > 0 ==> super::rooms::is_room_model(a.structure, b.size, b.maze))
            } by {
                assert(same_room(laid@[i], g[i]));
                assert(rooms_built(laid@, generated@));
                let _ = laid@[i];
            }
            assert forall|k: int| 0 <= k < generated@.len() implies (#[trigger] generated@[k]).wf() by {
                let _ = laid@[k];
            }
        }
        self.rooms = copy_rooms(generated.as_slice());
        // Stamp every active room's tile model onto the level map.
        let ghost start = self.map.cells();
        let ghost graph = self.room_graph;
        let ghost copies = self.rooms;
        let mut i: usize = 0;
        while i < generated.len()
            invariant
                i <= generated@.len(),
                generated@.len() == MAX_ROOMS,
                forall|k: int| 0 <= k < generated@.len() ==> (#[trigger] generated@[k]).wf(),
                self.map.wf(),
                self.map.spec_height() == old(self).map.spec_height(),
                self.map.spec_width() == old(self).map.spec_width(),
                start == old(self).map.cells(),
                self.room_graph == graph,
                self.rooms == copies,
                self.depth == old(self).depth,
                self.passages == old(self).passages,
                self.flags == old(self).flags,
                self.passage_links == old(self).passage_links,
                self.map.cells() == stamp_rooms(start, generated@, i as int,
                    old(self).map.spec_height() as int, old(self).map.spec_width() as int),
            decreases generated@.len() - i,
        {
            if !generated[i].is_gone() {
                let _ = self.map.put_sub_structure(generated[i].position, &generated[i].structure);
            }
            i = i + 1;
        }
        proof {
            let h = old(self).map.spec_height() as int;
            let w = old(self).map.spec_width() as int;
            let g = graph.spec_rooms();
            let gen = generated@;
            if bsze.x >= 4 && bsze.y >= 4 && 3 * bsze.x + 1 <= w && 3 * bsze.y <= h {
                assert forall|i: int| 0 <= i < MAX_ROOMS && !(#[trigger] gen[i]).gone implies stamps(gen[i], h, w) by {
                    lemma_room_in_cell(rooms@[i], g[i], i, bsze, old(self).depth as int);
                    assert(rooms_built(g, gen));
                    let _ = g[i];
                }
            }
            if bsze.x >= 4 && bsze.y >= 4 {
                assert forall|i: int, y: int, x: int|
                    0 <= i < MAX_ROOMS && stamps(gen[i], h, w) && gen[i].structure.in_bounds(y, x)
                    implies self.map.at(gen[i].position.y + y, gen[i].position.x + x) == #[trigger] gen[i].structure.at(y, x) by {
                    let yy = gen[i].position.y + y;
                    let xx = gen[i].position.x + x;
                    assert forall|k: int| i < k < MAX_ROOMS implies !(stamps(#[trigger] gen[k], h, w) && covers(gen[k], yy, xx)) by {
                        if stamps(gen[k], h, w) {
                            lemma_rooms_apart(rooms@[i], g[i], i, rooms@[k], g[k], k, bsze, old(self).depth as int);
                            lemma_room_in_cell(rooms@[i], g[i], i, bsze, old(self).depth as int);
                            lemma_room_in_cell(rooms@[k], g[k], k, bsze, old(self).depth as int);
                            assert(rooms_built(g, gen));
                            let _ = g[i];
                            let _ = g[k];
                        }
                    }
                    old(self).map.lemma_shape();
                    lemma_stamp_rooms_cell(start, gen, MAX_ROOMS as int, h, w, i, yy, xx);
                    self.map.lemma_shape();
                }
            }
        }
        generated
    }
}

/// Stamp a passage tile at `pos`: the map cell becomes [`Tile::Passage`] and
/// its passage flag is set. Positions outside the map are ignored.
pub fn stamp_passage(map: &mut Structure, flags: &mut LevelFlags, pos: IVec2)
    requires
        old(map).wf(),
        old(flags).wf(),
        old(map).spec_height() <= LEVEL_HEIGHT,
        old(map).spec_width() <= LEVEL_WIDTH,
    ensures
        final(map).wf(),
        final(map).spec_height() == old(map).spec_height(),
        final(map).spec_width() == old(map).spec_width(),
        final(flags).wf(),
        old(map).in_bounds(pos.y as int, pos.x as int) ==> {
            &&& final(map).cells() == put_tile(old(map).cells(), pos.y as int, pos.x as int, Tile::Passage)
            &&& final(flags).passage@ == old(flags).passage@.update(pos.y * LEVEL_WIDTH + pos.x, true)
        },
        !old(map).in_bounds(pos.y as int, pos.x as int) ==> final(map).cells() == old(map).cells() && final(flags).passage@ == old(flags).passage@,
        final(flags).real == old(flags).real,
        final(flags).seen == old(flags).seen,
        final(flags).passnum == old(flags).passnum,
{
    if pos.y < 0 || pos.x < 0 {
        return;
    }
    let y = pos.y as usize;
    let x = pos.x as usize;
    proof { map.lemma_shape(); }
    if map.set(y, x, Tile::Passage) {
        flags.passage.set(y * LEVEL_WIDTH + x, true);
    }
}

} // verus!
