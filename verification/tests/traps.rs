use rogue::rnd::{roll, spread, Dice};
use rogue::traps::{mystery_message, rust_armor, rusting_message, search_square, trap_kind, Find, Rusting, T_MYST, T_RUST};

#[test]
fn trap_kinds_live_in_the_low_bits() {
    assert_eq!(trap_kind(0x16), T_RUST);
    assert_eq!(trap_kind(0x47), T_MYST);
    assert_eq!(trap_kind(0x40), 0);
}

#[test]
fn mysterious_traps_show_strange_sights() {
    assert_eq!(mystery_message(0, "red"), "you are suddenly in a parallel dimension");
    assert_eq!(mystery_message(1, "red"), "the light in here suddenly seems red");
    assert_eq!(mystery_message(4, "blue"), "a blue light flashes in your eyes");
    assert_eq!(mystery_message(6, "gold"), "gold sparks dance across your armor");
    assert_eq!(mystery_message(10, "pink"), "you pack turns pink!");
    assert_eq!(mystery_message(11, "pink"), "");
}

#[test]
fn rust_weakens_unprotected_metal_armor() {
    assert_eq!(rust_armor(true, 3, 4, false, false), (Rusting::Weakened, 5));
    assert_eq!(rust_armor(true, 0, 4, false, false), (Rusting::Unharmed, 4));
    assert_eq!(rust_armor(true, 3, 9, false, false), (Rusting::Unharmed, 9));
    assert_eq!(rust_armor(false, 3, 4, false, false), (Rusting::Unharmed, 4));
    assert_eq!(rust_armor(true, 3, 4, true, false), (Rusting::Resisted, 4));
    assert_eq!(rust_armor(true, 3, 4, false, true), (Rusting::Resisted, 4));
    assert_eq!(rusting_message(Rusting::Weakened, true, false), Some("your armor weakens"));
    assert_eq!(rusting_message(Rusting::Weakened, false, false), Some("your armor appears to be weaker now. Oh my!"));
    assert_eq!(rusting_message(Rusting::Resisted, false, true), None);
    assert_eq!(rusting_message(Rusting::Resisted, false, false), Some("the rust vanishes instantly"));
    assert_eq!(rusting_message(Rusting::Unharmed, false, false), None);
}

#[test]
fn dice_add_up_within_their_range() {
    let mut dice = Dice::new();
    for _ in 0..50 {
        let r = roll(&mut dice, 3, 6);
        assert!((3..=18).contains(&r));
        let s = spread(&mut dice, 100);
        assert!((95..105).contains(&s));
    }
    assert_eq!(roll(&mut dice, 0, 6), 0);
    assert_eq!(roll(&mut dice, -2, 6), 0);
    assert_eq!(roll(&mut dice, 4, 0), 4);
    assert_eq!(spread(&mut dice, 5), 5);
}

#[test]
fn searching_finds_only_what_is_hidden() {
    let mut dice = Dice::new();
    for _ in 0..40 {
        assert_eq!(search_square(&mut dice, b'-', true, false, false), None);
        assert_eq!(search_square(&mut dice, b'!', false, false, false), None);
        let d = search_square(&mut dice, b'|', false, false, false);
        assert!(d.is_none() || d == Some(Find::SecretDoor));
        let t = search_square(&mut dice, b'.', false, true, true);
        assert!(t.is_none() || t == Some(Find::Trap));
        let p = search_square(&mut dice, b' ', false, false, true);
        assert!(p.is_none() || p == Some(Find::SecretPassage));
    }
    let mut found = false;
    for _ in 0..200 {
        if search_square(&mut dice, b'.', false, false, false) == Some(Find::Trap) {
            found = true;
        }
    }
    assert!(found);
}
