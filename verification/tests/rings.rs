use rogue::rings::{
    drop_check, hand_answer, in_use_message, hand_question, ring_effect, ring_off_hand, ring_on_hand, Hand, Letting, RingEffect, Slot,
};

#[test]
fn rings_go_on_a_free_hand() {
    assert_eq!(ring_on_hand(false, false), Hand::Ask);
    assert_eq!(ring_on_hand(true, false), Hand::Right);
    assert_eq!(ring_on_hand(false, true), Hand::Left);
    assert_eq!(ring_on_hand(true, true), Hand::Neither);
}

#[test]
fn rings_come_off_a_worn_hand() {
    assert_eq!(ring_off_hand(false, false), Hand::Neither);
    assert_eq!(ring_off_hand(true, false), Hand::Left);
    assert_eq!(ring_off_hand(false, true), Hand::Right);
    assert_eq!(ring_off_hand(true, true), Hand::Ask);
}

#[test]
fn hands_are_named_by_their_initial() {
    assert_eq!(hand_answer(b'l'), Hand::Left);
    assert_eq!(hand_answer(b'R'), Hand::Right);
    assert_eq!(hand_answer(27), Hand::Neither);
    assert_eq!(hand_answer(b'x'), Hand::Ask);
    assert_eq!(hand_question(true), "left or right ring? ");
    assert_eq!(hand_question(false), "left hand or right hand? ");
}

#[test]
fn some_rings_act_at_once() {
    assert_eq!(ring_effect(1), RingEffect::Strength);
    assert_eq!(ring_effect(4), RingEffect::SeeInvisible);
    assert_eq!(ring_effect(6), RingEffect::Aggravate);
    assert_eq!(ring_effect(0), RingEffect::Nothing);
}

#[test]
fn cursed_things_stay_on() {
    assert_eq!(drop_check(Slot::Free, true, 0), Letting::Go);
    assert_eq!(drop_check(Slot::Weapon, true, 0), Letting::Cursed);
    assert_eq!(drop_check(Slot::Weapon, false, 0), Letting::Unwield);
    assert_eq!(drop_check(Slot::Armor, false, 3), Letting::TakeOff);
    assert_eq!(drop_check(Slot::LeftRing, false, 0), Letting::RingOff { left: true, strength: true });
    assert_eq!(drop_check(Slot::RightRing, false, 2), Letting::RingOff { left: false, strength: false });
}

#[test]
fn using_twice_is_refused() {
    assert_eq!(in_use_message(false), "That's already in use");
    assert_eq!(in_use_message(true), "in use");
}
