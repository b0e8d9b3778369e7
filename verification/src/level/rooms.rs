use vstd::prelude::*;

use super::maze::{build_maze_structure, even_cells_open, only_empty_or_passage};
use super::structure::{put_tile, Structure};
use crate::rnd::Dice;
use super::tile::Tile;
use crate::geom::IVec2;

verus! {

/// How a door placed on a room boundary is rendered.
#[derive(Clone, Copy, Debug, PartialEq, Eq, Structural)]
pub enum DoorKind {
    /// An open door, rendered as `+`.
    Open,
    /// A wall segment on a horizontal boundary, rendered as `-`.
    WallH,
    /// A wall segment on a vertical boundary, rendered as `|`.
    WallV,
}

/// A door placed on a room boundary while digging corridors.
///
/// `position` is relative to the room's top-left corner, matching the
/// room-local coordinates of [`Room::entry_points`] and `structure`.
#[derive(Clone, Copy, Debug, PartialEq, Eq, Structural)]
pub struct Door {
    pub position: IVec2,
    pub kind: DoorKind,
}

/// Logical room model used by level generation.
///
/// Coordinates are absolute map positions; `structure`, `entry_points`, and
/// `doors` store room-local tiles/coordinates.
#[derive(Debug)]
pub struct Room {
    /// Absolute map position of the room's top-left corner.
    pub position: IVec2,
    /// Room size in map cells.
    pub size: IVec2,
    /// Room-local tile model (walled room or maze passages).
    pub structure: Structure,
    /// Doors placed on this room's boundary, relative to `position`.
    pub doors: Vec<Door>,
    /// Doorway positions relative to `position`.
    pub entry_points: Vec<IVec2>,
    /// Absolute map position of the room's gold stash.
    pub gold: IVec2,
    /// Value of the room's gold stash; `0` when there is none.
    pub goldval: i32,
    /// Whether this room slot is removed for the level.
    pub gone: bool,
    /// Whether the room is generated dark.
    pub dark: bool,
    /// Whether the room is generated as a maze.
    pub maze: bool,
    /// Number of registered entry points.
    pub entry_point_count: i32,
}

/// The tile of a plain walled room of the given size at `(y, x)`: the
/// outer ring is wall, the inside is floor.
pub open spec fn room_tile(height: int, width: int, y: int, x: int) -> Tile {
    if y == 0 || y + 1 == height || x == 0 || x + 1 == width {
        Tile::Wall
    } else {
        Tile::Floor
    }
}

/// Whether `s` is the plain walled room of `height` rows and `width` columns.
pub open spec fn is_room_structure(s: Structure, height: int, width: int) -> bool {
    &&& s.wf()
    &&& s.spec_height() == height
    &&& s.spec_width() == width
    &&& forall|y: int, x: int| s.in_bounds(y, x) ==> s.at(y, x) == room_tile(height, width, y, x)
}

/// Whether the room-local coordinate `local` lies on the outer wall ring of a
/// room of the given `size`.
pub open spec fn on_room_boundary(size: IVec2, local: IVec2) -> bool {
    &&& 0 <= local.y < size.y
    &&& 0 <= local.x < size.x
    &&& (local.y == 0 || local.y + 1 == size.y || local.x == 0 || local.x + 1 == size.x)
}

/// Build the tile model of a plain room: wall on the outer ring, floor inside.
pub fn build_room_structure(height: usize, width: usize) -> (s: Structure)
    ensures
        is_room_structure(s, height as int, width as int),
{
    let mut structure = Structure::new(height, width, Tile::Empty);
    let mut y: usize = 0;
    while y < height
        invariant
            y <= height,
            structure.wf(),
            structure.spec_height() == height,
            structure.spec_width() == width,
            forall|yy: int, xx: int| structure.in_bounds(yy, xx) && yy < y ==> structure.at(yy, xx) == room_tile(height as int, width as int, yy, xx),
        decreases height - y,
    {
        let mut x: usize = 0;
        while x < width
            invariant
                y < height,
                x <= width,
                structure.wf(),
                structure.spec_height() == height,
                structure.spec_width() == width,
                forall|yy: int, xx: int| structure.in_bounds(yy, xx) && (yy < y || (yy == y && xx < x)) ==> structure.at(yy, xx) == room_tile(height as int, width as int, yy, xx),
            decreases width - x,
        {
            let tile = if y == 0 || y + 1 == height {
                Tile::Wall
            } else if x == 0 || x + 1 == width {
                Tile::Wall
            } else {
                Tile::Floor
            };
            proof { structure.lemma_shape(); }
            let ghost prev = structure;
            let _ = structure.set(y, x, tile);
            proof {
                structure.lemma_shape();
                assert forall|yy: int, xx: int| structure.in_bounds(yy, xx) && (yy < y || (yy == y && xx <= x))
                    implies structure.at(yy, xx) == room_tile(height as int, width as int, yy, xx) by {
                    if yy == y && xx == x {
                    } else {
                        assert(structure.at(yy, xx) == prev.at(yy, xx));
                    }
                }
            }
            x = x + 1;
        }
        y = y + 1;
    }
    structure
}

impl Room {
    /// The room's tile grid is well formed.
    pub open spec fn wf(&self) -> bool {
        self.structure.wf()
    }

    /// Create a room with tiles derived from its geometry.
    ///
    /// A positive `size` yields a plain walled room; a zero or negative size
    /// yields an empty structure.
    pub fn new(position: IVec2, size: IVec2) -> (r: Room)
        ensures
            r.wf(),
            r.position == position,
            r.size == size,
            size.x > 0 && size.y > 0 ==> is_room_structure(r.structure, size.y as int, size.x as int),
            !(size.x > 0 && size.y > 0) ==> r.structure.spec_height() == 0 && r.structure.spec_width() == 0,
            r.is_fresh(),
    {
        let structure = if size.x > 0 && size.y > 0 {
            build_room_structure(size.y as usize, size.x as usize)
        } else {
            Structure::new(0, 0, Tile::Empty)
        };
        Self::with_structure(position, size, structure)
    }

    /// No doors, entry points, gold or generation flags.
    pub open spec fn is_fresh(&self) -> bool {
        &&& self.doors@.len() == 0
        &&& self.entry_points@.len() == 0
        &&& self.gold == IVec2 { x: 0, y: 0 }
        &&& self.goldval == 0
        &&& !self.gone
        &&& !self.dark
        &&& !self.maze
        &&& self.entry_point_count == 0
    }

    /// Create a room from a pre-built tile structure.
    pub fn with_structure(position: IVec2, size: IVec2, structure: Structure) -> (r: Room)
        ensures
            r.position == position,
            r.size == size,
            r.structure == structure,
            r.is_fresh(),
    {
        Room {
            position,
            size,
            structure,
            doors: Vec::new(),
            entry_points: Vec::new(),
            gold: IVec2::zero(),
            goldval: 0,
            gone: false,
            dark: false,
            maze: false,
            entry_point_count: 0,
        }
    }

    /// Whether this room slot is removed for the level.
    pub fn is_gone(&self) -> (b: bool)
        ensures
            b == self.gone,
    {
        self.gone
    }

    /// Whether this room should be generated as a maze room.
    pub fn is_maze(&self) -> (b: bool)
        ensures
            b == self.maze,
    {
        self.maze
    }

    /// Mark this room slot as gone.
    pub fn mark_gone(&mut self)
        ensures
            *final(self) == (Room { gone: true, ..*old(self) }),
    {
        self.gone = true;
    }

    /// Mark this room as dark.
    pub fn mark_dark(&mut self)
        ensures
            *final(self) == (Room { dark: true, ..*old(self) }),
    {
        self.dark = true;
    }

    /// Convert this room into a maze room (overrides other room flags).
    pub fn set_maze(&mut self)
        ensures
            *final(self) == (Room { maze: true, dark: false, gone: false, ..*old(self) }),
    {
        self.maze = true;
        self.dark = false;
        self.gone = false;
    }

    /// Clear all generation flags before layout generation starts.
    pub fn clear_flags(&mut self)
        ensures
            *final(self) == (Room { maze: false, dark: false, gone: false, ..*old(self) }),
    {
        self.gone = false;
        self.dark = false;
        self.maze = false;
    }

    /// Register `relative_pos` as an entry point where a corridor joins the room.
    pub fn add_entry_point(&mut self, relative_pos: IVec2)
        requires
            old(self).entry_point_count < i32::MAX,
        ensures
            final(self).entry_points@ == old(self).entry_points@.push(relative_pos),
            final(self).entry_point_count == old(self).entry_point_count + 1,
            *final(self) == (Room { entry_points: final(self).entry_points, entry_point_count: final(self).entry_point_count, ..*old(self) }),
    {
        self.entry_points.push(relative_pos);
        self.entry_point_count = self.entry_point_count + 1;
    }

    /// Place a door on one of this room's walls.
    ///
    /// `local` is relative to this room's top-left corner. Returns `true`
    /// when `local` lands exactly on this room's outer wall row/column: the
    /// door is recorded, `Tile::Door` replaces the wall cell for open doors,
    /// and the coordinate is registered as an entry point. Returns `false`
    /// when `local` lies outside the room or in its interior, leaving the
    /// room unchanged.
    pub fn place_door(&mut self, local: IVec2, kind: DoorKind) -> (placed: bool)
        requires
            old(self).wf(),
            old(self).entry_point_count < i32::MAX,
        ensures
            final(self).wf(),
            placed == on_room_boundary(old(self).size, local),
            !placed ==> *final(self) == *old(self),
            placed ==> {
                &&& final(self).doors@ == old(self).doors@.push(Door { position: local, kind })
                &&& final(self).entry_points@ == old(self).entry_points@.push(local)
                &&& final(self).entry_point_count == old(self).entry_point_count + 1
                &&& final(self).structure.spec_height() == old(self).structure.spec_height()
                &&& final(self).structure.spec_width() == old(self).structure.spec_width()
                &&& final(self).structure.cells() == (if kind == DoorKind::Open {
                        put_tile(old(self).structure.cells(), local.y as int, local.x as int, Tile::Door)
                    } else {
                        old(self).structure.cells()
                    })
                &&& *final(self) == (Room {
                        structure: final(self).structure,
                        doors: final(self).doors,
                        entry_points: final(self).entry_points,
                        entry_point_count: final(self).entry_point_count,
                        ..*old(self)
                    })
            },
    {
        let local_y = local.y;
        let local_x = local.x;
        if local_y < 0 || local_x < 0 || local_y >= self.size.y || local_x >= self.size.x {
            return false;
        }
        let on_boundary = local_y == 0 || local_y + 1 == self.size.y || local_x == 0 || local_x + 1 == self.size.x;
        if !on_boundary {
            return false;
        }
        if kind == DoorKind::Open {
            let _ = self.structure.set(local_y as usize, local_x as usize, Tile::Door);
        }
        self.doors.push(Door { position: local, kind });
        self.add_entry_point(local);
        true
    }
}

} // verus!

verus! {

/// Maximum number of rooms on a level.
pub const MAX_ROOMS: usize = 9;

/// Whether `s` is a tile model that `build_room_model` may give a room of
/// `size`: the walled room, or for a maze a grid of that size whose cells are
/// empty or passage with every even cell open.
pub open spec fn is_room_model(s: Structure, size: IVec2, is_maze: bool) -> bool {
    if is_maze {
        &&& s.wf()
        &&& s.spec_height() == size.y
        &&& s.spec_width() == size.x
        &&& only_empty_or_passage(s)
        &&& even_cells_open(s)
    } else {
        is_room_structure(s, size.y as int, size.x as int)
    }
}

/// Build a [`Room`] model from its geometry: `None` for a non-positive size,
/// otherwise a fresh room whose structure is a maze or a plain walled room.
pub fn build_room_model(dice: &mut Dice, position: IVec2, size: IVec2, is_maze: bool) -> (r: Option<Room>)
    requires
        is_maze ==> size.x < 0x4000_0000 && size.y < 0x4000_0000,
    ensures
        r is None <==> size.x <= 0 || size.y <= 0,
        r matches Some(room) ==> {
            &&& room.position == position
            &&& room.size == size
            &&& room.is_fresh()
            &&& is_room_model(room.structure, size, is_maze)
        },
{
    if size.x <= 0 || size.y <= 0 {
        return None;
    }
    let structure = if is_maze {
        build_maze_structure(dice, size.y as usize, size.x as usize)
    } else {
        build_room_structure(size.y as usize, size.x as usize)
    };
    Some(Room::with_structure(position, size, structure))
}

/// Whether the rooms of `after` are those of `before` with each active
/// room's tile model rebuilt from its geometry and flags.
pub open spec fn rooms_built(before: Seq<Room>, after: Seq<Room>) -> bool {
    &&& after.len() == before.len()
    &&& forall|i: int| 0 <= i < before.len() ==> {
        let b = #[trigger] before[i];
        let a = after[i];
        &&& same_room(a, Room { structure: a.structure, ..b })
        &&& a.wf()
        &&& (b.gone || b.size.x <= 0 || b.size.y <= 0 ==> same_structure(a.structure, b.structure))
        &&& (!b.gone && b.size.x > 0 && b.size.y > 0 ==> is_room_model(a.structure, b.size, b.maze))
    }
}

/// Whether every active maze room is small enough to dig a maze into.
pub open spec fn rooms_fit(rooms: Seq<Room>) -> bool {
    forall|i: int| 0 <= i < rooms.len() && !(#[trigger] rooms[i]).gone && rooms[i].maze
        ==> rooms[i].size.x < 0x4000_0000 && rooms[i].size.y < 0x4000_0000
}

/// Fill each active room's tile structure from its geometry/flags.
pub fn build_generated_rooms(dice: &mut Dice, rooms: Vec<Room>) -> (out: Vec<Room>)
    requires
        forall|i: int| 0 <= i < rooms@.len() ==> (#[trigger] rooms@[i]).wf(),
        rooms_fit(rooms@),
    ensures
        rooms_built(rooms@, out@),
{
    let mut rooms = rooms;
    let ghost before = rooms@;
    let mut i: usize = 0;
    while i < rooms.len()
        invariant
            i <= rooms@.len(),
            rooms@.len() == before.len(),
            forall|k: int| 0 <= k < before.len() ==> (#[trigger] before[k]).wf(),
            rooms_fit(before),
            forall|k: int| i <= k < before.len() ==> #[trigger] rooms@[k] == before[k],
            rooms_built(before.subrange(0, i as int), rooms@.subrange(0, i as int)),
        decreases rooms@.len() - i,
    {
        if !rooms[i].is_gone() {
            let position = rooms[i].position;
            let size = rooms[i].size;
            let maze = rooms[i].is_maze();
            if let Some(model) = build_room_model(dice, position, size, maze) {
                rooms[i].structure = model.structure;
            }
        }
        proof {
            assert forall|k: int| 0 <= k < i + 1 implies {
                let b = #[trigger] before.subrange(0, i + 1)[k];
                let a = rooms@.subrange(0, i + 1)[k];
                &&& same_room(a, Room { structure: a.structure, ..b })
                &&& a.wf()
                &&& (b.gone || b.size.x <= 0 || b.size.y <= 0 ==> same_structure(a.structure, b.structure))
                &&& (!b.gone && b.size.x > 0 && b.size.y > 0 ==> is_room_model(a.structure, b.size, b.maze))
            } by {
                if k < i {
                    assert(before.subrange(0, i as int)[k] == before.subrange(0, i + 1)[k]);
                    assert(rooms@.subrange(0, i as int)[k] == rooms@.subrange(0, i + 1)[k]);
                }
            }
        }
        i = i + 1;
    }
    assert(before.subrange(0, before.len() as int) =~= before);
    assert(rooms@.subrange(0, rooms@.len() as int) =~= rooms@);
    rooms
}

} // verus!

verus! {

/// `a` and `b` hold the same grid of tiles.
pub open spec fn same_structure(a: Structure, b: Structure) -> bool {
    &&& a.spec_height() == b.spec_height()
    &&& a.spec_width() == b.spec_width()
    &&& a.cells() == b.cells()
    &&& (b.wf() ==> a.wf())
}

/// `a` and `b` describe the same room: equal geometry, flags, doors, entry
/// points, gold and tiles.
pub open spec fn same_room(a: Room, b: Room) -> bool {
    &&& a.position == b.position
    &&& a.size == b.size
    &&& same_structure(a.structure, b.structure)
    &&& a.doors@ == b.doors@
    &&& a.entry_points@ == b.entry_points@
    &&& a.gold == b.gold
    &&& a.goldval == b.goldval
    &&& a.gone == b.gone
    &&& a.dark == b.dark
    &&& a.maze == b.maze
    &&& a.entry_point_count == b.entry_point_count
}

fn copy_doors(doors: &Vec<Door>) -> (out: Vec<Door>)
    ensures
        out@ == doors@,
{
    let mut out: Vec<Door> = Vec::new();
    let mut i: usize = 0;
    while i < doors.len()
        invariant
            i <= doors@.len(),
            out@ == doors@.subrange(0, i as int),
        decreases doors@.len() - i,
    {
        out.push(doors[i]);
        i = i + 1;
    }
    assert(out@ =~= doors@);
    out
}

fn copy_points(points: &Vec<IVec2>) -> (out: Vec<IVec2>)
    ensures
        out@ == points@,
{
    let mut out: Vec<IVec2> = Vec::new();
    let mut i: usize = 0;
    while i < points.len()
        invariant
            i <= points@.len(),
            out@ == points@.subrange(0, i as int),
        decreases points@.len() - i,
    {
        out.push(points[i]);
        i = i + 1;
    }
    assert(out@ =~= points@);
    out
}

impl Clone for Room {
    /// A copy describing the same room.
    fn clone(&self) -> (c: Room)
        ensures
            same_room(c, *self),
    {
        Room {
            position: self.position,
            size: self.size,
            structure: self.structure.clone(),
            doors: copy_doors(&self.doors),
            entry_points: copy_points(&self.entry_points),
            gold: self.gold,
            goldval: self.goldval,
            gone: self.gone,
            dark: self.dark,
            maze: self.maze,
            entry_point_count: self.entry_point_count,
        }
    }
}

} // verus!
