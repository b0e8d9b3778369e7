use rogue::rnd::Dice;
use rogue::scrolls::{
    enchant_armor, enchant_weapon, glow_message, protect_armor, remove_curse_message, uncurse, unreadable_message, Glow,
    ISCURSED, ISPROT,
};

#[test]
fn scrolls_improve_and_uncurse_equipment() {
    assert_eq!(uncurse(ISCURSED | 0o200), 0o200);
    assert_eq!(enchant_armor(6, ISCURSED), (5, 0));
    assert_eq!(protect_armor(ISCURSED), ISCURSED | ISPROT);
    let mut dice = Dice::new();
    let mut hit = false;
    let mut dam = false;
    for _ in 0..50 {
        let (h, d, f) = enchant_weapon(&mut dice, 1, 2, ISCURSED);
        assert_eq!(f, 0);
        assert!((h, d) == (2, 2) || (h, d) == (1, 3));
        hit |= h == 2;
        dam |= d == 3;
    }
    assert!(hit && dam);
}

#[test]
fn scrolls_have_their_words() {
    assert_eq!(glow_message(Glow::Hands, "red", ""), "your hands begin to glow red");
    assert_eq!(glow_message(Glow::Armor, "silver", ""), "your armor glows silver for a moment");
    assert_eq!(glow_message(Glow::Weapon, "blue", "mace"), "your mace glows blue for a moment");
    assert_eq!(glow_message(Glow::Shield, "gold", ""), "your armor is covered by a shimmering gold shield");
    assert_eq!(remove_curse_message(false), "you feel as if somebody is watching over you");
    assert_eq!(remove_curse_message(true), "you feel in touch with the Universal Onenes");
    assert_eq!(unreadable_message(true), "nothing to read");
    assert_eq!(unreadable_message(false), "there is nothing on it to read");
}
