use rogue::reading::{
    creation_spot, read_item, read_scroll, LevelMonster, Neighbour, ReadItem, ISHELD, S_SCARE, Reader, ScrollWork, Wielded, WornArmor, CANHUH, S_ARMOR, S_CONFUSE,
    S_CREATE, S_ENCH, S_FDET, S_HOLD, S_ID_POTION, S_PROTECT, S_REMOVE, S_SLEEP,
};
use rogue::pack::{Pack, PackItem};
use rogue::rnd::Dice;

fn reader() -> Reader {
    Reader {
        flags: 0,
        armor: Some(WornArmor { arm: 5, flags: 1 }),
        wielded: Some(Wielded { is_weapon: true, hplus: 1, dplus: 1, flags: 1 }),
        left_ring: Some(1),
        right_ring: None,
        hallucinating: false,
    }
}

fn open_ground() -> Vec<Neighbour> {
    vec![Neighbour { ch: b'.', scare: false }; 8]
}

#[test]
fn monster_confusion_makes_the_hands_glow_red() {
    let mut dice = Dice::new();
    let s = read_scroll(&mut dice, reader(), S_CONFUSE, &open_ground(), 5, 5, &mut Vec::new(), false, false, "", "plaid");
    assert_eq!(s.message, "your hands begin to glow red");
    assert_eq!(s.reader.flags & CANHUH, CANHUH);
    let mut r = reader();
    r.hallucinating = true;
    let s = read_scroll(&mut dice, r, S_CONFUSE, &open_ground(), 5, 5, &mut Vec::new(), false, false, "", "plaid");
    assert_eq!(s.message, "your hands begin to glow plaid");
}

#[test]
fn enchant_armor_lowers_its_class_and_lifts_the_curse() {
    let mut dice = Dice::new();
    let s = read_scroll(&mut dice, reader(), S_ARMOR, &open_ground(), 5, 5, &mut Vec::new(), false, false, "", "");
    assert_eq!(s.reader.armor, Some(WornArmor { arm: 4, flags: 0 }));
    assert_eq!(s.message, "your armor glows silver for a moment");
}

#[test]
fn hold_monster_freezes_or_feels_a_loss() {
    let mut dice = Dice::new();
    let running = 0o20000;
    let mut monsters = vec![
        LevelMonster { y: 3, x: 7, flags: running },
        LevelMonster { y: 6, x: 4, flags: running | 1 },
        LevelMonster { y: 8, x: 5, flags: running },
        LevelMonster { y: 5, x: 6, flags: 0 },
    ];
    let s = read_scroll(&mut dice, reader(), S_HOLD, &open_ground(), 5, 5, &mut monsters, false, false, "", "");
    assert_eq!(s.message, "the monsters around you freeze");
    assert!(s.known);
    assert_eq!(monsters[0].flags, ISHELD);
    assert_eq!(monsters[1].flags, ISHELD | 1);
    assert_eq!(monsters[2].flags, running);
    assert_eq!(monsters[3].flags, 0);
    let s = read_scroll(&mut dice, reader(), S_HOLD, &open_ground(), 5, 5, &mut monsters, false, false, "", "");
    assert_eq!(s.message, "you feel a strange sense of loss");
    assert!(!s.known);
}

#[test]
fn a_read_scroll_leaves_the_pack() {
    let mut dice = Dice::new();
    let mut pack = Pack::new();
    pack.add_pack(PackItem { kind: b'?' as i32, which: S_SCARE, count: 2, group: 0, flags: 0, letter: 0 });
    let out = read_item(&mut dice, &mut pack, 0, false, false, reader(), &open_ground(), 5, 5, &mut Vec::new(), false, false, "", "");
    match out {
        ReadItem::Read { read, discard, unwield } => {
            assert_eq!(read.message, "you hear maniacal laughter in the distance");
            assert!(!discard && !unwield);
        }
        _ => panic!("a scroll should be read"),
    }
    assert_eq!(pack.items()[0].count, 1);
    let out = read_item(&mut dice, &mut pack, 0, true, false, reader(), &open_ground(), 5, 5, &mut Vec::new(), false, false, "", "");
    assert!(matches!(out, ReadItem::Read { discard: true, unwield: true, .. }));
    assert!(pack.items().is_empty());
    pack.add_pack(PackItem { kind: b'!' as i32, which: 1, count: 1, group: 0, flags: 0, letter: 0 });
    let out = read_item(&mut dice, &mut pack, 0, false, true, reader(), &open_ground(), 5, 5, &mut Vec::new(), false, false, "", "");
    assert!(matches!(out, ReadItem::NotAScroll { message: "nothing to read" }));
    assert_eq!(pack.items().len(), 1);
}

#[test]
fn sleep_lasts_four_to_eight_turns() {
    let mut dice = Dice::new();
    let s = read_scroll(&mut dice, reader(), S_SLEEP, &open_ground(), 5, 5, &mut Vec::new(), false, false, "", "");
    match s.work[..] {
        [ScrollWork::Sleep { turns }] => assert!((4..9).contains(&turns)),
        _ => panic!("sleep expected"),
    }
    assert_eq!(s.message, "you fall asleep");
}

#[test]
fn create_monster_needs_a_free_square() {
    let mut dice = Dice::new();
    let mut ns = vec![Neighbour { ch: b'|', scare: false }; 8];
    ns[6] = Neighbour { ch: b'?', scare: true };
    assert_eq!(creation_spot(&mut dice, &ns, 5, 5), None);
    let s = read_scroll(&mut dice, reader(), S_CREATE, &ns, 5, 5, &mut Vec::new(), false, false, "", "");
    assert_eq!(s.message, "you hear a faint cry of anguish in the distance");
    ns[7] = Neighbour { ch: b'.', scare: false };
    assert_eq!(creation_spot(&mut dice, &ns, 5, 5), Some((6, 6)));
}

#[test]
fn identify_names_the_scroll() {
    let mut dice = Dice::new();
    let s = read_scroll(&mut dice, reader(), S_ID_POTION, &open_ground(), 5, 5, &mut Vec::new(), false, false, "identify potion", "");
    assert_eq!(s.message, "this scroll is an identify potion scroll");
    assert_eq!(s.work, vec![ScrollWork::Identify { kind: b'!' as i32 }]);
}

#[test]
fn food_detection_without_food_tingles() {
    let mut dice = Dice::new();
    let s = read_scroll(&mut dice, reader(), S_FDET, &open_ground(), 5, 5, &mut Vec::new(), false, false, "", "");
    assert_eq!(s.message, "your nose tingles");
    assert!(!s.known);
}

#[test]
fn enchant_weapon_adds_one_bonus() {
    let mut dice = Dice::new();
    let s = read_scroll(&mut dice, reader(), S_ENCH, &open_ground(), 5, 5, &mut Vec::new(), false, false, "mace", "");
    let w = s.reader.wielded.unwrap();
    assert_eq!(w.hplus + w.dplus, 3);
    assert_eq!(w.flags, 0);
    assert_eq!(s.message, "your mace glows blue for a moment");
}

#[test]
fn remove_curse_and_protect_armor() {
    let mut dice = Dice::new();
    let s = read_scroll(&mut dice, reader(), S_REMOVE, &open_ground(), 5, 5, &mut Vec::new(), false, false, "", "");
    assert_eq!(s.reader.left_ring, Some(0));
    assert_eq!(s.reader.armor.unwrap().flags, 0);
    assert_eq!(s.message, "you feel as if somebody is watching over you");
    let mut r = reader();
    r.armor = None;
    let s = read_scroll(&mut dice, r, S_PROTECT, &open_ground(), 5, 5, &mut Vec::new(), false, false, "", "");
    assert_eq!(s.message, "you feel a strange sense of loss");
    let s = read_scroll(&mut dice, reader(), S_PROTECT, &open_ground(), 5, 5, &mut Vec::new(), false, false, "", "");
    assert_eq!(s.reader.armor.unwrap().flags, 1 | 0o40);
    assert_eq!(s.message, "your armor is covered by a shimmering gold shield");
}
