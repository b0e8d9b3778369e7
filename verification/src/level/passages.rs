use vstd::prelude::*;

use crate::geom::IVec2;

verus! {

/// A corridor connecting two rooms: a bounding box (`position`/`size`) plus
/// the coordinates of every passage tile and entry point, relative to
/// `position`.
#[derive(Clone, Debug)]
pub struct Passage {
    pub position: IVec2,
    pub size: IVec2,
    /// Coordinates of every passage tile, relative to `position`.
    pub tiles: Vec<IVec2>,
    /// Coordinates of the doors joining adjacent rooms, relative to `position`.
    pub entry_points: Vec<IVec2>,
}

/// Door exits of one numbered passage component.
#[derive(Clone, Debug)]
pub struct PassageLinks {
    /// Absolute map coordinates of the component's doorways.
    pub exits: Vec<IVec2>,
}

impl PassageLinks {
    /// A component with no exits.
    pub fn new() -> (l: PassageLinks)
        ensures
            l.exits@.len() == 0,
    {
        PassageLinks { exits: Vec::new() }
    }
}

/// Map coordinates small enough for passage arithmetic.
pub open spec fn map_coord(p: IVec2) -> bool {
    0 <= p.x < 0x4000_0000 && 0 <= p.y < 0x4000_0000
}

pub open spec fn min_x(s: Seq<IVec2>) -> int
    decreases s.len(),
{
    if s.len() <= 1 {
        if s.len() == 1 { s[0].x as int } else { 0 }
    } else {
        let m = min_x(s.drop_last());
        if s.last().x < m { s.last().x as int } else { m }
    }
}

pub open spec fn min_y(s: Seq<IVec2>) -> int
    decreases s.len(),
{
    if s.len() <= 1 {
        if s.len() == 1 { s[0].y as int } else { 0 }
    } else {
        let m = min_y(s.drop_last());
        if s.last().y < m { s.last().y as int } else { m }
    }
}

pub open spec fn max_x(s: Seq<IVec2>) -> int
    decreases s.len(),
{
    if s.len() <= 1 {
        if s.len() == 1 { s[0].x as int } else { 0 }
    } else {
        let m = max_x(s.drop_last());
        if s.last().x > m { s.last().x as int } else { m }
    }
}

pub open spec fn max_y(s: Seq<IVec2>) -> int
    decreases s.len(),
{
    if s.len() <= 1 {
        if s.len() == 1 { s[0].y as int } else { 0 }
    } else {
        let m = max_y(s.drop_last());
        if s.last().y > m { s.last().y as int } else { m }
    }
}

/// `points` moved so that `origin` becomes `(0, 0)`.
pub open spec fn relative_to(points: Seq<IVec2>, origin: IVec2) -> Seq<IVec2> {
    points.map_values(|p: IVec2| IVec2 { x: (p.x - origin.x) as i32, y: (p.y - origin.y) as i32 })
}

/// The passage model of a corridor given by its absolute tiles and entry
/// points: the tiles' bounding box, with every coordinate made relative to
/// the box's top-left corner.
pub open spec fn passage_model(tiles: Seq<IVec2>, entry_points: Seq<IVec2>) -> (IVec2, IVec2, Seq<IVec2>, Seq<IVec2>) {
    let origin = IVec2 { x: min_x(tiles) as i32, y: min_y(tiles) as i32 };
    let size = IVec2 { x: (max_x(tiles) - min_x(tiles) + 1) as i32, y: (max_y(tiles) - min_y(tiles) + 1) as i32 };
    (origin, size, relative_to(tiles, origin), relative_to(entry_points, origin))
}

proof fn lemma_bounds_step(s: Seq<IVec2>)
    requires
        s.len() >= 1,
        forall|i: int| 0 <= i < s.len() ==> map_coord(#[trigger] s[i]),
    ensures
        0 <= min_x(s) <= max_x(s) < 0x4000_0000,
        0 <= min_y(s) <= max_y(s) < 0x4000_0000,
    decreases s.len(),
{
    if s.len() > 1 {
        let t = s.drop_last();
        assert forall|i: int| 0 <= i < t.len() implies map_coord(#[trigger] t[i]) by {
            assert(t[i] == s[i]);
        }
        lemma_bounds_step(t);
        assert(map_coord(s[s.len() - 1]));
    } else {
        assert(map_coord(s[0]));
    }
}

/// Wrap generated corridor tiles into a [`Passage`] whose coordinates are
/// relative to the tiles' bounding-box origin; `None` for an empty tile list.
pub fn build_passage(tiles: Vec<IVec2>, entry_points: Vec<IVec2>) -> (p: Option<Passage>)
    requires
        forall|i: int| 0 <= i < tiles@.len() ==> map_coord(#[trigger] tiles@[i]),
        forall|i: int| 0 <= i < entry_points@.len() ==> map_coord(#[trigger] entry_points@[i]),
    ensures
        p is None <==> tiles@.len() == 0,
        p matches Some(passage) ==> {
            let (origin, size, rel_tiles, rel_entries) = passage_model(tiles@, entry_points@);
            &&& passage.position == origin
            &&& passage.size == size
            &&& passage.tiles@ == rel_tiles
            &&& passage.entry_points@ == rel_entries
        },
{
    if tiles.len() == 0 {
        return None;
    }
    let mut lo_x = tiles[0].x;
    let mut lo_y = tiles[0].y;
    let mut hi_x = tiles[0].x;
    let mut hi_y = tiles[0].y;
    let mut i: usize = 1;
    while i < tiles.len()
        invariant
            1 <= i <= tiles@.len(),
            forall|k: int| 0 <= k < tiles@.len() ==> map_coord(#[trigger] tiles@[k]),
            lo_x == min_x(tiles@.subrange(0, i as int)),
            lo_y == min_y(tiles@.subrange(0, i as int)),
            hi_x == max_x(tiles@.subrange(0, i as int)),
            hi_y == max_y(tiles@.subrange(0, i as int)),
        decreases tiles@.len() - i,
    {
        let t = tiles[i];
        proof {
            assert(tiles@.subrange(0, i + 1).drop_last() =~= tiles@.subrange(0, i as int));
        }
        if t.x < lo_x { lo_x = t.x; }
        if t.y < lo_y { lo_y = t.y; }
        if t.x > hi_x { hi_x = t.x; }
        if t.y > hi_y { hi_y = t.y; }
        i = i + 1;
    }
    proof {
        assert(tiles@.subrange(0, tiles@.len() as int) =~= tiles@);
        lemma_bounds_step(tiles@);
    }
    let origin = IVec2::new(lo_x, lo_y);
    let rel_tiles = relative_points(&tiles, origin);
    let rel_entries = relative_points(&entry_points, origin);
    Some(Passage {
        position: origin,
        size: IVec2::new(hi_x - lo_x + 1, hi_y - lo_y + 1),
        tiles: rel_tiles,
        entry_points: rel_entries,
    })
}

fn relative_points(points: &Vec<IVec2>, origin: IVec2) -> (out: Vec<IVec2>)
    requires
        forall|i: int| 0 <= i < points@.len() ==> map_coord(#[trigger] points@[i]),
        map_coord(origin),
    ensures
        out@ == relative_to(points@, origin),
{
    let mut out: Vec<IVec2> = Vec::new();
    let mut i: usize = 0;
    while i < points.len()
        invariant
            i <= points@.len(),
            forall|k: int| 0 <= k < points@.len() ==> map_coord(#[trigger] points@[k]),
            map_coord(origin),
            out@ == relative_to(points@.subrange(0, i as int), origin),
        decreases points@.len() - i,
    {
        let p = points[i];
        out.push(IVec2::new(p.x - origin.x, p.y - origin.y));
        proof {
            assert(relative_to(points@.subrange(0, i + 1), origin) =~= relative_to(points@.subrange(0, i as int), origin).push(
                IVec2 { x: (p.x - origin.x) as i32, y: (p.y - origin.y) as i32 }));
        }
        i = i + 1;
    }
    assert(points@.subrange(0, points@.len() as int) =~= points@);
    out
}

} // verus!
