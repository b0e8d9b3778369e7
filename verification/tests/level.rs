use rogue::geom::IVec2;
use rogue::level::level::{stamp_passage, Level, LEVEL_WIDTH};
use rogue::level::passages::build_passage;
use rogue::level::rooms::Room;
use rogue::level::tile::Tile;
use rogue::rnd::Dice;

#[test]
fn generation_stamps_rooms_into_map() {
    let mut level = Level::new();
    level.depth = 1;
    let mut dice = Dice::new();

    let rooms: Vec<Room> = (0..9).map(|_| Room::new(IVec2::zero(), IVec2::zero())).collect();
    let bsze = IVec2::new(26, 8);

    let generated = level.generate_rooms_and_connections(&mut dice, rooms, bsze);

    for room in generated.iter().filter(|r| !r.is_gone()) {
        for local_y in 0..room.size.y as usize {
            for local_x in 0..room.size.x as usize {
                let expected = room.structure.get(local_y, local_x).unwrap();
                let actual = level
                    .map
                    .get(room.position.y as usize + local_y, room.position.x as usize + local_x)
                    .unwrap();
                assert_eq!(
                    actual, expected,
                    "room at {:?} cell ({local_y},{local_x}) not stamped",
                    room.position
                );
            }
        }
    }
}

#[test]
fn putpass_stamps_passage_into_map() {
    let mut level = Level::new();
    stamp_passage(&mut level.map, &mut level.flags, IVec2::new(5, 7));

    assert_eq!(level.map.get(7, 5), Some(Tile::Passage));
    assert!(level.flags.passage[7 * LEVEL_WIDTH + 5]);
    assert!(level.flags.real[7 * LEVEL_WIDTH + 5]);
}

#[test]
fn putpass_ignores_out_of_bounds_positions() {
    let mut level = Level::new();

    stamp_passage(&mut level.map, &mut level.flags, IVec2::new(-1, 7));
    assert_eq!(level.map.get(7, 0), Some(Tile::Empty));

    stamp_passage(&mut level.map, &mut level.flags, IVec2::new(5, -3));
    assert_eq!(level.map.get(0, 5), Some(Tile::Empty));
}

#[test]
fn build_passage_builds_relative_passage() {
    let passage = build_passage(
        vec![IVec2::new(2, 3), IVec2::new(3, 3), IVec2::new(4, 3), IVec2::new(4, 4)],
        vec![IVec2::new(2, 3)],
    )
    .expect("passage should be built");

    assert_eq!(passage.position, IVec2::new(2, 3));
    assert_eq!(passage.size, IVec2::new(3, 2));
    assert_eq!(
        passage.tiles,
        vec![IVec2::new(0, 0), IVec2::new(1, 0), IVec2::new(2, 0), IVec2::new(2, 1)]
    );
    assert_eq!(passage.entry_points, vec![IVec2::new(0, 0)]);
}

#[test]
fn build_passage_ignores_empty_tiles() {
    let passage = build_passage(Vec::new(), Vec::new());
    assert!(passage.is_none());
}

#[test]
fn generation_keeps_rooms_apart_and_connects_them() {
    let mut level = Level::new();
    level.depth = 3;
    let mut dice = Dice::new();
    let rooms: Vec<Room> = (0..9).map(|_| Room::new(IVec2::zero(), IVec2::zero())).collect();
    let generated = level.generate_rooms_and_connections(&mut dice, rooms, IVec2::new(26, 8));
    assert_eq!(generated.len(), 9);
    let active = generated.iter().filter(|r| !r.is_gone()).count();
    assert!(active >= 1);
    let conns = level.room_graph.connections();
    // A spanning set of connections over the active rooms has one link fewer
    // than there are rooms, at least.
    assert!(conns.len() + 1 >= active);
    for &(a, b) in conns {
        assert!(!generated[a].is_gone());
        assert!(!generated[b].is_gone());
    }
}

use rogue::level::draw::{draw_room, tile_glyph};
use rogue::level::level::LevelFlags;
use rogue::level::maze::build_maze_structure;
use rogue::ui::terminal::Terminal;

#[test]
fn tile_characters() {
    assert_eq!(tile_glyph(Tile::Floor, 1, 4), Some(b'.'));
    assert_eq!(tile_glyph(Tile::Wall, 0, 4), Some(b'-'));
    assert_eq!(tile_glyph(Tile::Wall, 3, 4), Some(b'-'));
    assert_eq!(tile_glyph(Tile::Wall, 1, 4), Some(b'|'));
    assert_eq!(tile_glyph(Tile::HiddenDoor, 2, 4), Some(b'|'));
    assert_eq!(tile_glyph(Tile::Door, 0, 4), Some(b'+'));
    assert_eq!(tile_glyph(Tile::Passage, 0, 4), Some(b'#'));
    assert_eq!(tile_glyph(Tile::Empty, 0, 4), None);
}

#[test]
fn drawn_room_shows_walls_and_floor() {
    let mut term = Terminal::new();
    let mut flags = LevelFlags::cleared();
    let room = Room::new(IVec2::new(10, 5), IVec2::new(5, 4));
    draw_room(&mut term, &mut flags, &room);
    let row = |y: i32| -> String { (9..16).map(|x| term.glyph_at(IVec2::new(x, y))).collect() };
    assert_eq!(row(5), " ----- ");
    assert_eq!(row(6), " |...| ");
    assert_eq!(row(7), " |...| ");
    assert_eq!(row(8), " ----- ");
    assert!(flags.passage.iter().all(|&p| !p));
}

#[test]
fn drawn_maze_marks_its_passages() {
    let mut term = Terminal::new();
    let mut flags = LevelFlags::cleared();
    let mut dice = Dice::new();
    let structure = build_maze_structure(&mut dice, 5, 7);
    let mut room = Room::with_structure(IVec2::new(3, 2), IVec2::new(7, 5), structure);
    room.set_maze();
    draw_room(&mut term, &mut flags, &room);
    // The maze's corner cell is always dug.
    assert_eq!(term.glyph_at(IVec2::new(3, 2)), '#');
    assert!(flags.passage[2 * LEVEL_WIDTH + 3]);
    for y in 0..5usize {
        for x in 0..7usize {
            let dug = room.structure.get(y, x) == Some(Tile::Passage);
            assert_eq!(flags.passage[(2 + y) * LEVEL_WIDTH + 3 + x], dug);
        }
    }
}

#[test]
fn gone_room_draws_nothing() {
    let mut term = Terminal::new();
    let mut flags = LevelFlags::cleared();
    let mut room = Room::new(IVec2::new(1, 1), IVec2::new(4, 4));
    room.mark_gone();
    draw_room(&mut term, &mut flags, &room);
    assert_eq!(term.glyph_at(IVec2::new(1, 1)), ' ');
}

#[test]
fn generation_parks_at_most_three_rooms_and_never_repeats_a_link() {
    for seed in 0..40 {
        let mut level = Level::new();
        level.depth = 5;
        let mut dice = Dice::new();
        rogue::rnd::set_seed(&mut dice, seed);
        let rooms: Vec<Room> = (0..9).map(|_| Room::new(IVec2::zero(), IVec2::zero())).collect();
        let generated = level.generate_rooms_and_connections(&mut dice, rooms, IVec2::new(26, 8));
        let parked = generated.iter().filter(|r| r.is_gone() && r.size.x < 0).count();
        assert!(parked < 4);
        let conns = level.room_graph.connections();
        for i in 0..conns.len() {
            for j in 0..i {
                let (a, b) = conns[i];
                assert!(conns[j] != (a, b) && conns[j] != (b, a));
            }
        }
    }
}
