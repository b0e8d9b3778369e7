use rogue::geom::IVec2;
use rogue::level::structure::Structure;
use rogue::level::tile::Tile;

#[test]
fn put_sub_structure_copies_tiles_at_position() {
    let mut map = Structure::new(6, 6, Tile::Empty);
    let mut room = Structure::new(2, 2, Tile::Floor);
    room.set(0, 0, Tile::Wall);

    let ok = map.put_sub_structure(IVec2::new(2, 3), &room);

    assert!(ok);
    assert_eq!(map.get(3, 2), Some(Tile::Wall));
    assert_eq!(map.get(3, 3), Some(Tile::Floor));
    assert_eq!(map.get(4, 2), Some(Tile::Floor));
    assert_eq!(map.get(4, 3), Some(Tile::Floor));
    assert_eq!(map.get(0, 0), Some(Tile::Empty));
}

#[test]
fn put_sub_structure_rejects_out_of_bounds_placement() {
    let mut map = Structure::new(3, 3, Tile::Empty);
    let room = Structure::new(2, 2, Tile::Floor);

    assert!(!map.put_sub_structure(IVec2::new(2, 2), &room));
    assert!(!map.put_sub_structure(IVec2::new(-1, 0), &room));
    assert!(map.tiles().iter().all(|row| row.iter().all(|&t| t == Tile::Empty)));
}

#[test]
fn put_sub_structure_accepts_exactly_fitting_placement() {
    let mut map = Structure::new(4, 4, Tile::Empty);
    let room = Structure::new(4, 4, Tile::Floor);

    assert!(map.put_sub_structure(IVec2::new(0, 0), &room));
    assert_eq!(map.get(3, 3), Some(Tile::Floor));
}

#[test]
fn structure_get_and_set_stay_in_bounds() {
    let mut s = Structure::new(2, 3, Tile::Empty);
    assert!(s.set(1, 2, Tile::Stairs));
    assert!(!s.set(2, 0, Tile::Stairs));
    assert_eq!(s.get(1, 2), Some(Tile::Stairs));
    assert_eq!(s.get(0, 3), None);
}

#[test]
fn tile_codes_read_back() {
    let all = [
        Tile::Empty,
        Tile::Floor,
        Tile::Passage,
        Tile::Door,
        Tile::Wall,
        Tile::HiddenDoor,
        Tile::Stairs,
        Tile::Trap,
    ];
    for t in all {
        assert_eq!(Tile::from_u8(t.to_u8()), Some(t));
    }
    assert_eq!(Tile::from_u8(200), None);
}
