use rogue::potions::{Haste, CANSEE, ISHALU, P_BLIND, P_CONFUSE, P_SEEINVIS};
use rogue::quaff::{
    quaff, Drinker, Followup, WornRing, ISHASTE, P_HASTE, P_HEALING, P_MFIND, P_POISON, P_RESTORE, P_STRENGTH, P_TFIND,
    P_XHEAL, SEEMONST,
};
use rogue::pack::{Pack, PackItem};
use rogue::quaff::{drink_item, DrinkItem};
use rogue::rnd::Dice;

fn hero() -> Drinker {
    Drinker {
        hp: 10,
        max_hp: 12,
        level: 3,
        strength: 16,
        max_strength: 16,
        flags: 0,
        left_ring: None,
        right_ring: None,
        sustain: false,
    }
}

#[test]
fn healing_past_the_maximum_raises_it_by_one() {
    let mut dice = Dice::new();
    let mut d = hero();
    d.hp = 12;
    let q = quaff(&mut dice, d, P_HEALING, false, false, "x");
    assert_eq!(q.drinker.max_hp, 13);
    assert_eq!(q.drinker.hp, 13);
    assert!(q.known);
    assert_eq!(q.message, "you begin to feel better");
    assert_eq!(q.followups, vec![Followup::Sight]);
}

#[test]
fn extra_healing_also_ends_a_trip() {
    let mut dice = Dice::new();
    let q = quaff(&mut dice, hero(), P_XHEAL, false, false, "x");
    assert!(q.drinker.hp >= 12 && q.drinker.max_hp >= 12);
    assert_eq!(q.followups, vec![Followup::Sight, Followup::ComeDown]);
}

#[test]
fn poison_takes_one_to_three_strength() {
    let mut dice = Dice::new();
    let q = quaff(&mut dice, hero(), P_POISON, false, false, "x");
    assert!((13..=15).contains(&q.drinker.strength));
    assert_eq!(q.message, "you feel very sick now");
    assert_eq!(q.followups, vec![Followup::ComeDown]);
}

#[test]
fn sustain_strength_wards_off_poison() {
    let mut dice = Dice::new();
    let mut d = hero();
    d.sustain = true;
    let q = quaff(&mut dice, d, P_POISON, false, false, "x");
    assert_eq!(q.drinker, d);
    assert_eq!(q.message, "you feel momentarily sick");
}

#[test]
fn strength_adds_one_and_raises_the_best() {
    let mut dice = Dice::new();
    let q = quaff(&mut dice, hero(), P_STRENGTH, false, false, "x");
    assert_eq!(q.drinker.strength, 17);
    assert_eq!(q.drinker.max_strength, 17);
}

#[test]
fn restore_strength_brings_back_the_best_under_the_rings() {
    let mut dice = Dice::new();
    let mut d = hero();
    d.strength = 12;
    d.max_strength = 16;
    d.left_ring = Some(WornRing { bonus: 2, adds_strength: true });
    let q = quaff(&mut dice, d, P_RESTORE, false, false, "x");
    assert_eq!(q.drinker.strength, 18);
    assert!(!q.known);
}

#[test]
fn confusion_starts_a_timer_of_about_twenty_turns() {
    let mut dice = Dice::new();
    let q = quaff(&mut dice, hero(), P_CONFUSE, false, false, "x");
    assert_eq!(q.message, "wait, what's going on here. Huh? What? Who?");
    assert!(q.known);
    match q.followups[..] {
        [Followup::StartTimer { state, turns }] => {
            assert_eq!(state, 0o1000);
            assert!((19..21).contains(&turns));
        }
        _ => panic!("one timer expected"),
    }
}

#[test]
fn blindness_twice_lengthens_the_timer() {
    let mut dice = Dice::new();
    let first = quaff(&mut dice, hero(), P_BLIND, false, false, "x");
    let second = quaff(&mut dice, first.drinker, P_BLIND, false, false, "x");
    assert!(matches!(second.followups[..], [Followup::Lengthen { .. }]));
}

#[test]
fn see_invisible_tastes_of_the_fruit() {
    let mut dice = Dice::new();
    let q = quaff(&mut dice, hero(), P_SEEINVIS, false, false, "this potion tastes like kiwi juice");
    assert_eq!(q.message, "this potion tastes like kiwi juice");
    assert_eq!(q.drinker.flags & CANSEE, CANSEE);
    assert!(!q.known);
    assert_eq!(q.followups.len(), 3);
}

#[test]
fn monster_detection_with_nothing_to_sense_passes() {
    let mut dice = Dice::new();
    let q = quaff(&mut dice, hero(), P_MFIND, false, false, "x");
    assert_eq!(q.message, "you have a normal feeling for a moment, then it passes");
    assert_eq!(q.drinker.flags & SEEMONST, SEEMONST);
    let mut d = hero();
    d.flags = ISHALU;
    let q = quaff(&mut dice, d, P_TFIND, false, false, "x");
    assert_eq!(q.message, "you have a strange feeling for a moment, then it passes");
    assert!(!q.known);
    let q = quaff(&mut dice, hero(), P_TFIND, false, true, "x");
    assert_eq!(q.followups, vec![Followup::ShowMagic]);
    assert!(q.known);
}

#[test]
fn haste_twice_exhausts_the_hero() {
    let mut dice = Dice::new();
    let q = quaff(&mut dice, hero(), P_HASTE, false, false, "x");
    assert_eq!(q.drinker.flags & ISHASTE, ISHASTE);
    let again = quaff(&mut dice, q.drinker, P_HASTE, false, false, "x");
    assert_eq!(again.drinker.flags & ISHASTE, 0);
    assert!(matches!(again.followups[1], Followup::Haste(Haste::Exhausted { .. })));
}

#[test]
fn an_unknown_potion_tastes_odd() {
    let mut dice = Dice::new();
    let q = quaff(&mut dice, hero(), 14, false, false, "x");
    assert!(q.odd);
    assert_eq!(q.message, "what an odd tasting potion!");
}

#[test]
fn a_drunk_potion_leaves_the_pack() {
    let mut dice = Dice::new();
    let mut pack = Pack::new();
    pack.add_pack(PackItem { kind: b'!' as i32, which: P_HEALING, count: 2, group: 0, flags: 0, letter: 0 });
    let out = drink_item(&mut dice, &mut pack, 0, false, false, hero(), false, false, "x");
    match out {
        DrinkItem::Drunk { quaffed, discard, .. } => {
            assert!(quaffed.known);
            assert!(!discard);
        }
        _ => panic!("a potion should be drunk"),
    }
    assert_eq!(pack.items()[0].count, 1);
    let out = drink_item(&mut dice, &mut pack, 0, false, false, hero(), false, false, "x");
    assert!(matches!(out, DrinkItem::Drunk { discard: true, .. }));
    assert!(pack.items().is_empty());
    pack.add_pack(PackItem { kind: b'?' as i32, which: 1, count: 1, group: 0, flags: 0, letter: 0 });
    let out = drink_item(&mut dice, &mut pack, 0, false, false, hero(), false, false, "x");
    assert!(matches!(out, DrinkItem::NotAPotion { message: "yuk! Why would you want to drink that?" }));
    assert_eq!(pack.items().len(), 1);
}
