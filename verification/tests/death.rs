use rogue::rip::{center, death_monst, death_reason, insert_score, killname, names_killer, rip_art, shown_scores, ScoreEntry};
use rogue::rnd::{rnd, Dice};
use rogue::score::{parse_score_text, parse_scoreline};
use rogue::wizard::{item_type_name, ARMOR, POTION, R_OR_S, SCROLL};

#[test]
fn center_keeps_text_centered() {
    assert_eq!(center("You"), 28 - ((("You".len() as i32) + 1) / 2));
}

#[test]
fn killname_uses_monster_names() {
    let s = killname(b'F', false);
    assert!(!s.is_empty());
    assert_eq!(s, "venus flytrap");
}

#[test]
fn killname_articles() {
    assert_eq!(killname(b'A', true), "an aquator");
    assert_eq!(killname(b'B', true), "a bat");
    assert_eq!(killname(b'a', true), "an arrow");
    assert_eq!(killname(b'd', true), "a dart");
    assert_eq!(killname(b's', true), "starvation");
    assert_eq!(killname(b'h', false), "hypothermia");
    assert_eq!(killname(b'?', true), "Wally the Wonder Badger");
}

#[test]
fn type_name_matches_expected_strings() {
    assert_eq!(item_type_name(POTION), Some("potion"));
    assert_eq!(item_type_name(SCROLL), Some("scroll"));
    assert_eq!(item_type_name(ARMOR), Some("suit of armor"));
    assert_eq!(item_type_name(R_OR_S), Some("ring, wand or staff"));
    assert_eq!(item_type_name(b'%' as i32), None);
}

#[test]
fn tombstone_has_thirteen_lines() {
    let art = rip_art();
    assert_eq!(art.len(), 13);
    assert_eq!(art[2], "                     /    REST    \\\n");
}

#[test]
fn demo_death_picks_a_known_cause() {
    let mut dice = Dice::new();
    for _ in 0..50 {
        let c = death_monst(&mut dice);
        assert!(c.is_ascii_uppercase() || b"abhds \0".contains(&c));
    }
}

#[test]
fn rnd_stays_in_range() {
    let mut dice = Dice::new();
    assert_eq!(rnd(&mut dice, 0), 0);
    for _ in 0..100 {
        let v = rnd(&mut dice, 7);
        assert!((0..7).contains(&v));
        let w = rnd(&mut dice, -5);
        assert!((0..5).contains(&w));
    }
}

fn entry(uid: u32, score: i32, flags: u32) -> ScoreEntry {
    ScoreEntry { uid, score, flags, monster: 0, name: b"x".to_vec(), level: 1, time: 9 }
}

#[test]
fn new_score_enters_in_order() {
    let mut table = vec![entry(1, 500, 0), entry(2, 300, 0), entry(3, 100, 0), entry(0, 0, 0)];
    let placed = insert_score(&mut table, 400, 0, b'K', 7, b"rodney", 5, 9, true);
    assert_eq!(placed, Some(1));
    let scores: Vec<i32> = table.iter().map(|e| e.score).collect();
    assert_eq!(scores, vec![500, 400, 300, 100]);
    assert_eq!(table[1].uid, 7);
    assert_eq!(table[1].name, b"rodney".to_vec());
    assert_eq!(table[1].level, 5);
    assert_eq!(table[1].monster, b'K' as u16);
    assert_eq!(table[1].time, 9);
    assert_eq!(shown_scores(&table), 4);
}

#[test]
fn winner_records_deepest_level() {
    let mut table = vec![entry(1, 50, 0), entry(0, 0, 0)];
    assert_eq!(insert_score(&mut table, 900, 2, b' ', 1, b"w", 5, 26, false), Some(0));
    assert_eq!(table[0].level, 26);
    assert_eq!(table[0].flags, 2);
}

#[test]
fn earlier_entry_of_same_player_keeps_score_out() {
    let mut table = vec![entry(7, 500, 0), entry(2, 300, 0), entry(0, 0, 0)];
    assert_eq!(insert_score(&mut table, 400, 0, b'K', 7, b"r", 1, 1, false), None);
    assert_eq!(table[1].score, 300);
    // With every score kept, it goes in.
    assert_eq!(insert_score(&mut table, 400, 0, b'K', 7, b"r", 1, 1, true), Some(1));
}

#[test]
fn low_score_does_not_enter() {
    let mut table = vec![entry(1, 500, 0), entry(2, 300, 0)];
    assert_eq!(insert_score(&mut table, 10, 0, b'K', 3, b"r", 1, 1, true), None);
    assert_eq!(shown_scores(&table), 2);
}

#[test]
fn reasons_and_killer_lines() {
    assert_eq!(death_reason(0), "killed");
    assert_eq!(death_reason(1), "quit");
    assert_eq!(death_reason(2), "A total winner");
    assert_eq!(death_reason(3), "killed with Amulet");
    assert!(names_killer(3));
    assert!(!names_killer(1));
}

#[test]
fn score_line_fields_are_read() {
    let mut line = b" 1000 2345 0 75 9 5f3a1b2c \n".to_vec();
    line.resize(100, 0);
    assert_eq!(parse_scoreline(&line), Some((1000, 2345, 0, 75, 9, 0x5f3a1b2c)));
}

#[test]
fn score_line_needs_six_good_fields() {
    assert_eq!(parse_score_text("1 2 3 4 5"), None);
    assert_eq!(parse_score_text("-1 2 3 4 5 6"), None);
    assert_eq!(parse_score_text("1 -2 3 4 -5 ff"), Some((1, -2, 3, 4, -5, 255)));
    assert_eq!(parse_score_text("+1 2 3 70000 5 6"), None);
    assert_eq!(parse_score_text("\u{a0}1\t2 3 4 5 6 extra"), Some((1, 2, 3, 4, 5, 6)));
    assert_eq!(parse_score_text("1 2 3 4 5 g"), None);
    assert_eq!(parse_score_text("4294967296 2 3 4 5 6"), None);
}

use rogue::score::{entry_record, read_entry, scoreline_bytes, ENTRY_LEN};

#[test]
fn written_score_line_reads_back() {
    let entries = [
        ScoreEntry { uid: 1000, score: 2345, flags: 0, monster: b'K' as u16, name: b"rodney".to_vec(), level: 9, time: 0x5f3a1b2c },
        ScoreEntry { uid: u32::MAX, score: i32::MIN, flags: 3, monster: u16::MAX, name: Vec::new(), level: i32::MAX, time: u32::MAX },
        ScoreEntry { uid: 0, score: -1, flags: 1, monster: 0, name: b"x".to_vec(), level: -7, time: 0 },
    ];
    for e in &entries {
        let line = scoreline_bytes(e);
        assert_eq!(line.len(), 100);
        assert_eq!(parse_scoreline(&line), Some((e.uid, e.score, e.flags, e.monster, e.level, e.time)));
    }
    let text = String::from_utf8(scoreline_bytes(&entries[0])).unwrap();
    assert!(text.starts_with(" 1000 2345 0 75 9 5f3a1b2c \n\0"));
}

#[test]
fn written_entry_reads_back() {
    let e = ScoreEntry { uid: 42, score: 7777, flags: 2, monster: b' ' as u16, name: b"Wizard of Yendor".to_vec(), level: 26, time: 0xbeef };
    let record = entry_record(&e);
    assert_eq!(record.len(), ENTRY_LEN);
    let back = read_entry(&record);
    assert_eq!(back.name, e.name);
    assert_eq!((back.uid, back.score, back.flags, back.monster, back.level, back.time), (42, 7777, 2, 32, 26, 0xbeef));
}

#[test]
fn unreadable_entry_line_reads_as_zeros() {
    let mut record = vec![0u8; ENTRY_LEN];
    record[0] = b'a';
    record[1024] = b'?';
    let e = read_entry(&record);
    assert_eq!(e.name, b"a".to_vec());
    assert_eq!((e.uid, e.score, e.time), (0, 0, 0));
}

use rogue::geom::IVec2;
use rogue::rip::{death_purse, draw_death_line, draw_tombstone};
use rogue::ui::terminal::Terminal;

fn row(term: &Terminal, y: i32, from: i32, n: i32) -> String {
    (from..from + n).map(|x| term.glyph_at(IVec2::new(x, y))).collect()
}

#[test]
fn dying_costs_a_tenth_of_the_gold() {
    assert_eq!(death_purse(100), 90);
    assert_eq!(death_purse(19), 18);
    assert_eq!(death_purse(5), 5);
    assert_eq!(death_purse(-19), -18);
}

#[test]
fn tombstone_names_killer_hero_and_gold() {
    let mut term = Terminal::new();
    let killer = killname(b'A', false);
    draw_tombstone(&mut term, b'A', &killer, "Rodney", 250);
    // The stone's top row.
    assert_eq!(row(&term, 0, 23, 10), "__________");
    // "aquator" (7 bytes) is centred at column 24.
    assert_eq!(row(&term, 17, 24, 7), "aquator");
    // The article row: "n" then the killer, from column 33.
    assert_eq!(row(&term, 16, 33, 8), "naquator");
    assert_eq!(row(&term, 14, 25, 6), "Rodney");
    assert_eq!(row(&term, 15, 25, 6), "250 Au");
    assert_eq!(row(&term, 18, 26, 4), "1900");
}

#[test]
fn starvation_tombstone_blanks_the_article() {
    let mut term = Terminal::new();
    let killer = killname(b's', false);
    draw_tombstone(&mut term, b's', &killer, "Rodney", 0);
    assert_eq!(row(&term, 17, 23, 10), "starvation");
    assert_eq!(term.glyph_at(IVec2::new(32, 16)), ' ');
}

#[test]
fn death_line_without_tombstone() {
    let mut term = Terminal::new();
    let killer = killname(b'E', false);
    draw_death_line(&mut term, b'E', &killer, 42);
    assert_eq!(row(&term, 23, 0, 30), "Killed by an emu with 42 gold ");
    let mut term = Terminal::new();
    let killer = killname(b'h', false);
    draw_death_line(&mut term, b'h', &killer, 7);
    assert_eq!(row(&term, 23, 0, 34), "Killed by hypothermia with 7 gold ");
}

use rogue::rip::{gold_line, item_worth, winner_art, worth_line};

#[test]
fn winners_sell_their_food() {
    assert_eq!(item_worth(58, 3), 6);
    assert_eq!(item_worth(58, -2), 0);
    assert_eq!(item_worth(33, 3), 0);
    assert_eq!(worth_line(b'a', 6, "Some food"), "97 )     6  Some food\n");
    assert_eq!(worth_line(200, 123456, "x"), "-56 ) 123456  x\n");
    assert_eq!(gold_line(150), "     150  Gold Pieces          ");
    let art = winner_art();
    assert_eq!(art.len(), 10);
    assert!(art[9].contains("Congratulations"));
}

use rogue::wizard::{set_know, ObjInfo, ISKNOW};

#[test]
fn set_know_marks_object_known() {
    let mut info = vec![ObjInfo { name: String::new(), prob: 0, worth: 0, guess: None, know: false }];
    let flags = set_know(0, 0, &mut info);
    assert!(info[0].know);
    assert!((flags & ISKNOW) != 0);
}

#[test]
fn knowing_a_sort_drops_the_guess() {
    let mut info = vec![
        ObjInfo { name: "healing".to_string(), prob: 10, worth: 5, guess: Some("red?".to_string()), know: false },
        ObjInfo { name: "gain strength".to_string(), prob: 20, worth: 7, guess: Some("strong".to_string()), know: false },
    ];
    let flags = set_know(1, 1, &mut info);
    assert_eq!(flags, 1 | ISKNOW);
    assert!(info[1].know);
    assert_eq!(info[1].guess, None);
    assert_eq!(info[1].name, "gain strength");
    assert!(!info[0].know);
    assert_eq!(info[0].guess.as_deref(), Some("red?"));
}
