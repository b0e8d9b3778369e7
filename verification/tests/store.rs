use rogue::sticks::{StickType, MAXSTICKS};
use rogue::things::ThingStore;
use rogue::vers::{release, set_release, Release};

#[test]
fn store_counts_live_things() {
    let mut store = ThingStore::new();
    assert_eq!(store.allocated_count(), 0);
    let a = store.new_item();
    let b = store.new_item();
    assert_ne!(a, b);
    assert_eq!(store.allocated_count(), 2);
    assert!(store.discard(a));
    assert!(!store.discard(a));
    assert_eq!(store.allocated_count(), 1);
    assert!(store.discard(b));
    assert_eq!(store.allocated_count(), 0);
}

#[test]
fn stick_kinds_read_back() {
    for v in 0..MAXSTICKS as i32 {
        let t = StickType::from_raw(v).unwrap();
        assert_eq!(t.index() as i32, v);
    }
    assert_eq!(StickType::from_raw(14), None);
    assert_eq!(StickType::from_raw(-1), None);
    assert_eq!(StickType::from_raw(3), Some(StickType::Fire));
}

#[test]
fn release_defaults_then_follows_setting() {
    let mut holder = Release::new();
    assert_eq!(release(&mut holder), "5.4.4");
    set_release(&mut holder, String::from("5.4.5"));
    assert_eq!(release(&mut holder), "5.4.5");
}

use rogue::rnd::Dice;
use rogue::things::{new_thing_kind, pick_by_roll, pick_one};

#[test]
fn rolls_pick_the_first_entry_above_them() {
    let probs = [30, 60, 100];
    assert_eq!(pick_by_roll(&probs, 0), 0);
    assert_eq!(pick_by_roll(&probs, 29), 0);
    assert_eq!(pick_by_roll(&probs, 30), 1);
    assert_eq!(pick_by_roll(&probs, 99), 2);
    assert_eq!(pick_by_roll(&probs, 100), 0);
    assert_eq!(pick_by_roll(&[], 5), 0);
}

#[test]
fn starving_heroes_find_food() {
    let mut dice = Dice::new();
    let kinds = [26, 62, 78, 86, 95, 98, 100];
    assert_eq!(new_thing_kind(&mut dice, 4, &kinds), 2);
    for _ in 0..50 {
        assert!(new_thing_kind(&mut dice, 0, &kinds) < 7);
        assert!(pick_one(&mut dice, &[50, 100]) < 2);
    }
}

use rogue::sticks::{bolt_name, zap_check, ZapCheck};

#[test]
fn zapping_needs_a_charged_stick() {
    assert_eq!(zap_check(33, 3, None, 10), ZapCheck::NotAStick);
    assert_eq!(zap_check(47, 0, Some(StickType::Fire), 10), ZapCheck::Empty);
    assert_eq!(zap_check(47, 2, Some(StickType::Drain), 1), ZapCheck::TooWeak);
    assert_eq!(zap_check(47, 2, Some(StickType::Drain), 2), ZapCheck::Zap);
    assert_eq!(zap_check(47, 2, None, 1), ZapCheck::Zap);
}

#[test]
fn bolts_are_named_by_their_stick() {
    assert_eq!(bolt_name(StickType::Elect), Some("bolt"));
    assert_eq!(bolt_name(StickType::Fire), Some("flame"));
    assert_eq!(bolt_name(StickType::Cold), Some("ice"));
    assert_eq!(bolt_name(StickType::Light), None);
}

use rogue::sticks::{charge_str, fix_stick};

#[test]
fn sticks_come_charged() {
    let mut dice = Dice::new();
    for _ in 0..30 {
        let (c, d) = fix_stick(&mut dice, Some(StickType::Light));
        assert!((10..20).contains(&c));
        assert_eq!(d, "2x3");
        let (c, d) = fix_stick(&mut dice, Some(StickType::Fire));
        assert!((3..8).contains(&c));
        assert_eq!(d, "1x1");
    }
    assert_eq!(charge_str(false, false, 4), "");
    assert_eq!(charge_str(true, true, 4), " [4]");
    assert_eq!(charge_str(true, false, 4), " [4 charges]");
}

#[test]
fn free_list_drops_each_listed_thing() {
    let mut s = ThingStore::new();
    let a = s.new_item();
    let b = s.new_item();
    let c = s.new_item();
    assert_eq!(s.allocated_count(), 3);
    s.free_list(&vec![a, c]);
    assert_eq!(s.allocated_count(), 1);
    assert!(!s.discard(a));
    assert!(s.discard(b));
    assert_eq!(s.allocated_count(), 0);
}
