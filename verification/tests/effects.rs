use rogue::effects::{add_str, raise_exp, change_strength, check_level, doctor, heal, hold_message, identify_kind};
use rogue::rnd::Dice;
use rogue::wizard::{ARMOR, POTION, R_OR_S, SCROLL, WEAPON};

#[test]
fn healing_tops_up_and_raises_the_maximum() {
    assert_eq!(heal(5, 12, 4, 3, false), (9, 12));
    assert_eq!(heal(10, 12, 4, 3, false), (13, 13));
    assert_eq!(heal(10, 12, 4, 3, true), (13, 13));
    assert_eq!(heal(10, 12, 20, 3, true), (14, 14));
    assert_eq!(heal(10, 12, 20, 3, false), (13, 13));
    assert_eq!(heal(12, 12, 0, 3, true), (12, 12));
}

#[test]
fn strength_stays_between_three_and_thirty_one() {
    assert_eq!(change_strength(16, 0, None, None, 16), (16, 16));
    assert_eq!(change_strength(16, 1, None, None, 16), (17, 17));
    assert_eq!(change_strength(16, -3, None, None, 16), (13, 16));
    assert_eq!(change_strength(4, -5, None, None, 16), (3, 16));
    assert_eq!(change_strength(30, 5, None, None, 16), (31, 31));
}

#[test]
fn worn_rings_do_not_count_toward_the_best_strength() {
    assert_eq!(change_strength(18, 1, Some(2), None, 16), (19, 17));
    assert_eq!(change_strength(18, 1, Some(2), Some(1), 16), (19, 16));
    assert_eq!(change_strength(4, 1, Some(3), None, 2), (5, 3));
    assert_eq!(change_strength(18, 1, None, Some(-2), 16), (19, 21));
}

#[test]
fn hold_monster_tells_how_many_froze() {
    assert_eq!(hold_message(0), "you feel a strange sense of loss");
    assert_eq!(hold_message(1), "the monster freezes");
    assert_eq!(hold_message(3), "the monsters around you freeze");
}

#[test]
fn identify_scrolls_ask_for_their_kind() {
    assert_eq!(identify_kind(5), POTION);
    assert_eq!(identify_kind(6), SCROLL);
    assert_eq!(identify_kind(7), WEAPON);
    assert_eq!(identify_kind(8), ARMOR);
    assert_eq!(identify_kind(9), R_OR_S);
    assert_eq!(identify_kind(2), 0);
}

#[test]
fn experience_brings_levels_and_hit_points() {
    let mut dice = Dice::new();
    assert_eq!(check_level(&mut dice, 1, 0, 12, 12), (1, 12, 12));
    assert_eq!(check_level(&mut dice, 1, 9, 12, 12), (1, 12, 12));
    let (lvl, hp, max) = check_level(&mut dice, 1, 25, 12, 12);
    assert_eq!(lvl, 3);
    assert!(hp - 12 >= 2 && hp - 12 <= 20);
    assert_eq!(hp - 12, max - 12);
    assert_eq!(check_level(&mut dice, 5, 25, 7, 30), (3, 7, 30));
    assert_eq!(check_level(&mut dice, 21, 9000000, 50, 60), (21, 50, 60));
}

#[test]
fn resting_brings_hit_points_back() {
    let mut dice = Dice::new();
    assert_eq!(doctor(&mut dice, 1, 5, 12, 17, false, false), (5, 18));
    assert_eq!(doctor(&mut dice, 1, 5, 12, 18, false, false), (6, 0));
    assert_eq!(doctor(&mut dice, 1, 5, 12, 0, true, false), (6, 0));
    assert_eq!(doctor(&mut dice, 1, 12, 12, 0, true, true), (12, 0));
    assert_eq!(doctor(&mut dice, 10, 5, 30, 0, false, false), (5, 1));
    for _ in 0..20 {
        let (hp, quiet) = doctor(&mut dice, 10, 5, 30, 2, false, false);
        assert!((6..=8).contains(&hp));
        assert_eq!(quiet, 0);
    }
}

#[test]
fn raising_a_level_sets_experience_just_past_its_step() {
    assert_eq!(raise_exp(1), 11);
    assert_eq!(raise_exp(3), 41);
    assert_eq!(raise_exp(20), 8000001);
    assert_eq!(raise_exp(21), 1);
}

#[test]
fn stored_strength_wraps_then_stays_in_range() {
    assert_eq!(add_str(16, 2), 18);
    assert_eq!(add_str(30, 5), 31);
    assert_eq!(add_str(4, -1), 3);
    assert_eq!(add_str(3, -5), 31);
    assert_eq!(add_str(1, 0), 3);
}
