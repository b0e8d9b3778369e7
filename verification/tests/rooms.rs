use rogue::geom::IVec2;
use rogue::level::maze::build_maze_structure;
use rogue::level::rooms::{build_room_structure, DoorKind, Room};
use rogue::level::tile::Tile;
use rogue::rnd::Dice;

fn test_room() -> Room {
    Room::new(IVec2::new(10, 20), IVec2::new(6, 4))
}

#[test]
fn place_door_records_door_and_registers_entry_point() {
    let mut room = test_room();

    assert!(room.place_door(IVec2::new(1, 0), DoorKind::Open));
    assert!(room.place_door(IVec2::new(5, 1), DoorKind::WallV));
    assert!(room.place_door(IVec2::new(2, 3), DoorKind::Open));
    assert!(room.place_door(IVec2::new(0, 2), DoorKind::Open));

    assert_eq!(room.entry_points.len(), 4);
    assert_eq!(room.entry_point_count, 4);
    assert_eq!(room.doors.len(), 4);

    let expected: [IVec2; 4] = [
        IVec2::new(1, 0),
        IVec2::new(5, 1),
        IVec2::new(2, 3),
        IVec2::new(0, 2),
    ];
    for (door, exp) in room.doors.iter().zip(expected) {
        assert_eq!(door.position, exp);
    }
    assert_eq!(room.doors[1].kind, DoorKind::WallV, "right wall door keeps its kind");

    assert_eq!(room.structure.get(0, 1), Some(Tile::Door));
    assert_eq!(room.structure.get(1, 5), Some(Tile::Wall));
    assert_eq!(room.structure.get(3, 2), Some(Tile::Door));
    assert_eq!(room.structure.get(2, 0), Some(Tile::Door));
}

#[test]
fn place_door_rejects_interior_and_out_of_bounds() {
    let mut room = test_room();

    assert!(!room.place_door(IVec2::new(2, 2), DoorKind::Open));
    assert!(!room.place_door(IVec2::new(-1, 1), DoorKind::Open));
    assert!(!room.place_door(IVec2::new(6, 1), DoorKind::Open));
    assert!(!room.place_door(IVec2::new(1, -1), DoorKind::Open));
    assert!(!room.place_door(IVec2::new(1, 4), DoorKind::Open));

    assert!(room.entry_points.is_empty());
    assert!(room.entry_point_count == 0);
    assert!(room.doors.is_empty());
    assert_eq!(room.structure.get(2, 2), Some(Tile::Floor));
}

#[test]
fn room_structure_has_walls_around_floor() {
    let s = build_room_structure(4, 5);
    assert_eq!(s.height(), 4);
    assert_eq!(s.width(), 5);
    for y in 0..4 {
        for x in 0..5 {
            let edge = y == 0 || y == 3 || x == 0 || x == 4;
            let want = if edge { Tile::Wall } else { Tile::Floor };
            assert_eq!(s.get(y, x), Some(want));
        }
    }
}

#[test]
fn maze_opens_every_even_cell() {
    let mut dice = Dice::new();
    let s = build_maze_structure(&mut dice, 7, 11);
    assert_eq!(s.height(), 7);
    assert_eq!(s.width(), 11);
    for y in 0..7 {
        for x in 0..11 {
            let t = s.get(y, x).unwrap();
            assert!(t == Tile::Empty || t == Tile::Passage);
            if y % 2 == 0 && x % 2 == 0 {
                assert_eq!(t, Tile::Passage, "even cell ({y},{x}) left closed");
            }
        }
    }
}

#[test]
fn room_flags_follow_their_setters() {
    let mut room = test_room();
    assert!(!room.is_gone());
    assert!(!room.is_maze());
    room.mark_gone();
    room.mark_dark();
    assert!(room.is_gone());
    assert!(room.dark);
    // A maze overrides the other flags.
    room.set_maze();
    assert!(room.is_maze());
    assert!(!room.is_gone() && !room.dark);
    room.mark_gone();
    room.clear_flags();
    assert!(!room.is_gone() && !room.is_maze() && !room.dark);
}

#[test]
fn a_one_by_three_maze_is_all_passage() {
    let mut dice = Dice::new();
    let s = build_maze_structure(&mut dice, 1, 3);
    for x in 0..3usize {
        assert_eq!(s.get(0, x), Some(Tile::Passage));
    }
}

#[test]
fn a_maze_is_a_spanning_tree_over_its_even_cells() {
    let mut dice = Dice::new();
    let (h, w) = (7usize, 9usize);
    let s = build_maze_structure(&mut dice, h, w);
    let mut dug = 0;
    for y in 0..h {
        for x in 0..w {
            let t = s.get(y, x);
            if y % 2 == 0 && x % 2 == 0 {
                assert_eq!(t, Some(Tile::Passage));
            }
            if y % 2 == 1 && x % 2 == 1 {
                assert_eq!(t, Some(Tile::Empty));
            }
            if t == Some(Tile::Passage) {
                dug += 1;
            }
        }
    }
    // 4 even rows times 5 even columns: 20 cells and 19 links between them.
    assert_eq!(dug, 39);
}
