use rogue::mapping::{reveal_square, Square, F_PASS, F_REAL, F_SEEN};

fn sq(glyph: u8, flags: u8) -> Square {
    Square { glyph, flags }
}

#[test]
fn magic_mapping_finds_secret_doors_and_traps() {
    assert_eq!(reveal_square(sq(b'-', 0)), (sq(b'+', F_REAL), b'+'));
    assert_eq!(reveal_square(sq(b'|', F_REAL)), (sq(b'|', F_REAL), b'|'));
    assert_eq!(reveal_square(sq(b'.', 0x03)), (sq(b'^', 0x03 | F_SEEN | F_REAL), b'^'));
    assert_eq!(reveal_square(sq(b'.', F_REAL)), (sq(b'.', F_REAL), b' '));
}

#[test]
fn magic_mapping_shows_corridors() {
    assert_eq!(reveal_square(sq(b' ', 0)), (sq(b'#', F_SEEN | F_REAL), b'#'));
    assert_eq!(reveal_square(sq(b' ', F_REAL | F_PASS)), (sq(b' ', F_REAL | F_PASS | F_SEEN), b'#'));
    assert_eq!(reveal_square(sq(b' ', F_REAL)), (sq(b' ', F_REAL), b' '));
    assert_eq!(reveal_square(sq(b'#', 0)), (sq(b'#', F_SEEN | F_REAL), b'#'));
    assert_eq!(reveal_square(sq(b'K', F_PASS)), (sq(b'#', F_PASS | F_SEEN | F_REAL), b'#'));
    assert_eq!(reveal_square(sq(b'K', F_PASS | F_REAL)), (sq(b'K', F_PASS | F_SEEN | F_REAL), b'#'));
    assert_eq!(reveal_square(sq(b'K', 0)), (sq(b'K', 0), b' '));
    assert_eq!(reveal_square(sq(b'%', 0)), (sq(b'%', 0), b'%'));
    assert_eq!(reveal_square(sq(b'+', 0)), (sq(b'+', 0), b'+'));
}
