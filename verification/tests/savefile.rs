use rogue::savefile::{FieldKind, SaveField};
use rogue::geom::IVec2;
use rogue::level::rooms::Room;
use rogue::savefile::{SaveReader, SaveWriter};

#[test]
fn numbers_are_little_endian() {
    let mut w = SaveWriter::new();
    w.write_int(0x01020304);
    w.write_int(-2);
    w.write_short(-3);
    w.write_ushort(0xabcd);
    w.write_uint(7);
    w.write_boolean(true);
    w.write_boolean(false);
    assert_eq!(
        w.bytes().clone(),
        vec![4, 3, 2, 1, 0xfe, 0xff, 0xff, 0xff, 0xfd, 0xff, 0xcd, 0xab, 7, 0, 0, 0, 1, 0]
    );
}

#[test]
fn values_read_back_in_order() {
    let mut w = SaveWriter::new();
    w.write_marker(0x7bcd0001);
    w.write_int(i32::MIN);
    w.write_uint(u32::MAX);
    w.write_boolean(true);
    w.write_coord(IVec2::new(-5, 17));
    w.write_chars(b"abc");
    w.write_string(Some(b"slime-mold"));
    w.write_string(None);
    let mut r = SaveReader::new(w.bytes().clone());
    r.read_marker(0x7bcd0001);
    assert_eq!(r.status(), 0);
    assert_eq!(r.read_int(), Some(i32::MIN));
    assert_eq!(r.read_uint(), Some(u32::MAX));
    assert_eq!(r.read_boolean(), Some(true));
    assert_eq!(r.read_coord(), Some(IVec2::new(-5, 17)));
    assert_eq!(r.read_chars(3), Some(b"abc".to_vec()));
    assert_eq!(r.read_string(1024), Some(b"slime-mold\0".to_vec()));
    assert_eq!(r.read_string(1024), None);
    assert_eq!(r.status(), 0);
}

#[test]
fn wrong_marker_is_a_format_error_that_stops_reading() {
    let mut w = SaveWriter::new();
    w.write_marker(1);
    w.write_int(99);
    let mut r = SaveReader::new(w.bytes().clone());
    r.read_marker(2);
    assert_eq!(r.status(), 1);
    assert_eq!(r.read_int(), None);
}

#[test]
fn short_data_is_a_read_error() {
    let mut r = SaveReader::new(vec![9, 0]);
    assert_eq!(r.read_int(), Some(9));
    assert_eq!(r.status(), 1);
    assert_eq!(r.read_boolean(), None);
}

#[test]
fn string_longer_than_allowed_is_refused() {
    let mut w = SaveWriter::new();
    w.write_string(Some(b"toolong"));
    let mut r = SaveReader::new(w.bytes().clone());
    assert_eq!(r.read_string(4), None);
    assert_eq!(r.status(), 1);
}

#[test]
fn room_reads_back() {
    let mut room = Room::new(IVec2::new(3, 4), IVec2::new(6, 5));
    room.gold = IVec2::new(5, 6);
    room.goldval = 42;
    room.mark_dark();
    room.add_entry_point(IVec2::new(0, 2));
    room.add_entry_point(IVec2::new(5, 3));
    let mut w = SaveWriter::new();
    w.write_room(&room);
    assert_eq!(w.bytes().len(), 131);
    let mut back = Room::new(IVec2::zero(), IVec2::zero());
    let mut r = SaveReader::new(w.bytes().clone());
    r.read_room(&mut back);
    assert_eq!(r.status(), 0);
    assert_eq!(back.position, room.position);
    assert_eq!(back.size, room.size);
    assert_eq!(back.gold, room.gold);
    assert_eq!(back.goldval, 42);
    assert!(back.dark && !back.gone && !back.maze);
    assert_eq!(back.entry_point_count, 2);
    assert_eq!(back.entry_points, room.entry_points);
}

use rogue::ui::terminal::Terminal;

#[test]
fn screen_reads_back_without_standout() {
    let mut t = Terminal::new();
    t.init();
    t.set_standout(true);
    t.write_text("the dungeon");
    t.set_standout(false);
    t.write_text(" awaits");
    let mut w = SaveWriter::new();
    w.write_window(&t);
    assert_eq!(w.bytes().len(), 12 + 4 * 24 * 80);
    let mut back = Terminal::new();
    back.init();
    back.write_text("xxxxxxxxxxxxxxxxxxxxxxxxxx");
    let mut r = SaveReader::new(w.bytes().clone());
    r.read_window(&mut back);
    assert_eq!(r.status(), 0);
    for y in 0..24 {
        for x in 0..80 {
            let c = back.cell(y, x);
            assert_eq!(c.ch, t.cell(y, x).ch);
            assert!(!c.standout);
        }
    }
    assert_eq!(back.cell(0, 0).ch, b't');
    assert_eq!(back.cell(0, 12).ch, b'a');
}

fn sample_field(i: usize, k: FieldKind) -> SaveField {
    match k {
        FieldKind::Bool => SaveField::Bool(i % 3 == 0),
        FieldKind::Char => SaveField::Char((i % 200) as u8),
        FieldKind::Chars(n) => SaveField::Chars((0..n).map(|j| (j % 7) as u8 + b'a').collect()),
        FieldKind::Int => SaveField::Int(i as i32 * 1000 - 7),
        FieldKind::Marker(n) => SaveField::Marker(n),
        FieldKind::Text => if i % 2 == 0 { SaveField::Text(None) } else { SaveField::Text(Some(b"staff".to_vec())) },
        FieldKind::Coord => SaveField::Coord(IVec2::new(i as i32, -(i as i32))),
        FieldKind::Short => SaveField::Short(-(i as i16)),
        FieldKind::Uint => SaveField::Uint(i as u32 * 3),
        FieldKind::AtMost(n) => SaveField::Int(n - 1),
    }
}

fn field_bytes(f: &SaveField) -> Vec<u8> {
    match f {
        SaveField::Bool(b) => vec![*b as u8],
        SaveField::Char(c) => vec![*c],
        SaveField::Chars(v) => v.clone(),
        SaveField::Int(i) | SaveField::Marker(i) => i.to_le_bytes().to_vec(),
        SaveField::Text(None) => vec![],
        SaveField::Text(Some(t)) => t.clone(),
        SaveField::Coord(c) => vec![c.x as u8, c.y as u8],
        SaveField::Short(v) => v.to_le_bytes().to_vec(),
        SaveField::Uint(v) => v.to_le_bytes().to_vec(),
    }
}

fn sample_record(layout: &[FieldKind], salt: usize) -> Vec<SaveField> {
    layout.iter().enumerate().map(|(i, k)| sample_field(i + salt, *k)).collect()
}

fn sample_game() -> rogue::savefile::SavedGame {
    let objects = rogue::savefile::object_kinds();
    let heroes = rogue::savefile::hero_kinds();
    let head = rogue::savefile::SavedHead {
        globals: sample_record(&rogue::savefile::globals_kinds(), 0),
        hero: sample_record(&heroes, 3),
        pack: vec![sample_record(&objects, 1), sample_record(&objects, 2)],
        pack_refs: sample_record(&rogue::savefile::pack_ref_kinds(), 5),
        level_objects: vec![sample_record(&objects, 9)],
    };
    let monster = rogue::savefile::SavedThing { fields: sample_record(&heroes, 4), pack: vec![sample_record(&objects, 6)] };
    let exit = vec![FieldKind::Coord];
    rogue::savefile::SavedGame {
        head,
        monsters: vec![monster, rogue::savefile::SavedThing { fields: sample_record(&heroes, 8), pack: vec![] }],
        map: sample_record(&rogue::savefile::map_kinds(), 2),
        links: vec![vec![sample_record(&exit, 1), sample_record(&exit, 2)], vec![]],
        rest: sample_record(&rogue::savefile::rest_kinds(), 7),
    }
}

fn same_fields(a: &[SaveField], b: &[SaveField]) -> bool {
    a.len() == b.len() && a.iter().zip(b.iter()).all(|(x, y)| field_bytes(x) == field_bytes(y))
}

#[test]
fn a_saved_game_reads_back_as_written() {
    let g = sample_game();
    let bytes = rogue::savefile::encode_game(&g);
    let back = rogue::savefile::decode_game_from(bytes.clone()).unwrap();
    assert!(same_fields(&back.head.globals, &g.head.globals));
    assert!(same_fields(&back.head.hero, &g.head.hero));
    assert_eq!(back.head.pack.len(), 2);
    assert!(same_fields(&back.head.pack[1], &g.head.pack[1]));
    assert!(same_fields(&back.head.pack_refs, &g.head.pack_refs));
    assert_eq!(back.head.level_objects.len(), 1);
    assert_eq!(back.monsters.len(), 2);
    assert!(same_fields(&back.monsters[0].pack[0], &g.monsters[0].pack[0]));
    assert!(back.monsters[1].pack.is_empty());
    assert!(same_fields(&back.map, &g.map));
    assert_eq!(back.links.len(), 2);
    assert!(same_fields(&back.links[0][1], &g.links[0][1]));
    assert!(same_fields(&back.rest, &g.rest));
    assert!(rogue::savefile::decode_game_from(bytes[..bytes.len() - 1].to_vec()).is_none());
    let mut wrong = bytes.clone();
    wrong[34] = 25;
    assert!(rogue::savefile::decode_game_from(wrong).is_none());
}
