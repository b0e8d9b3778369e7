//! Putting rings on and taking them off, and letting go of worn items: which
//! hand, what the hero is asked or told, and what changes.

use vstd::prelude::*;

verus! {

/// The ring of adding strength.
pub const R_ADDSTR: i32 = 1;
/// The ring of seeing invisible things.
pub const R_SEEINVIS: i32 = 4;
/// The ring of aggravating monsters.
pub const R_AGGR: i32 = 6;

/// A hand, or what to do to find one.
#[derive(Clone, Copy, Debug, PartialEq, Eq, Structural)]
pub enum Hand {
    Left,
    Right,
    /// Ask the hero which hand.
    Ask,
    /// No hand will do.
    Neither,
}

/// The hand a ring goes on: the hero is asked when both are free, the free
/// one is taken when only one is, and none when both wear a ring.
pub open spec fn ring_on_hand_of(left_worn: bool, right_worn: bool) -> Hand {
    if !left_worn && !right_worn {
        Hand::Ask
    } else if !left_worn {
        Hand::Left
    } else if !right_worn {
        Hand::Right
    } else {
        Hand::Neither
    }
}

/// See `ring_on_hand_of`.
pub fn ring_on_hand(left_worn: bool, right_worn: bool) -> (h: Hand)
    ensures
        h == ring_on_hand_of(left_worn, right_worn),
{
    if !left_worn && !right_worn {
        Hand::Ask
    } else if !left_worn {
        Hand::Left
    } else if !right_worn {
        Hand::Right
    } else {
        Hand::Neither
    }
}

/// The hand a ring comes off: none when no ring is worn, the one that wears
/// a ring when only one does, and the hero is asked when both do.
pub open spec fn ring_off_hand_of(left_worn: bool, right_worn: bool) -> Hand {
    if !left_worn && !right_worn {
        Hand::Neither
    } else if !left_worn {
        Hand::Right
    } else if !right_worn {
        Hand::Left
    } else {
        Hand::Ask
    }
}

/// See `ring_off_hand_of`.
pub fn ring_off_hand(left_worn: bool, right_worn: bool) -> (h: Hand)
    ensures
        h == ring_off_hand_of(left_worn, right_worn),
{
    if !left_worn && !right_worn {
        Hand::Neither
    } else if !left_worn {
        Hand::Right
    } else if !right_worn {
        Hand::Left
    } else {
        Hand::Ask
    }
}

/// The answer to "which hand": `l` or `L` the left, `r` or `R` the right,
/// Escape none (the hero gave up); any other key asks again.
pub open spec fn hand_answer_of(c: u8) -> Hand {
    if c == 27 {
        Hand::Neither
    } else if c == 108 || c == 76 {
        Hand::Left
    } else if c == 114 || c == 82 {
        Hand::Right
    } else {
        Hand::Ask
    }
}

/// See `hand_answer_of`.
pub fn hand_answer(c: u8) -> (h: Hand)
    ensures
        h == hand_answer_of(c),
{
    if c == 27 {
        Hand::Neither
    } else if c == 108 || c == 76 {
        Hand::Left
    } else if c == 114 || c == 82 {
        Hand::Right
    } else {
        Hand::Ask
    }
}

/// The question asked for a hand.
pub open spec fn hand_question_text(terse: bool) -> Seq<char> {
    if terse { "left or right ring? "@ } else { "left hand or right hand? "@ }
}

/// See `hand_question_text`.
pub fn hand_question(terse: bool) -> (q: &'static str)
    ensures
        q@ == hand_question_text(terse),
{
    if terse { "left or right ring? " } else { "left hand or right hand? " }
}

/// What putting on a ring does at once.
#[derive(Clone, Copy, Debug, PartialEq, Eq, Structural)]
pub enum RingEffect {
    /// Strength changes by the ring's bonus.
    Strength,
    /// Invisible monsters show.
    SeeInvisible,
    /// Monsters are angered.
    Aggravate,
    Nothing,
}

/// The immediate effect of putting on a ring of kind `which`.
pub open spec fn ring_effect_of(which: i32) -> RingEffect {
    if which == R_ADDSTR {
        RingEffect::Strength
    } else if which == R_SEEINVIS {
        RingEffect::SeeInvisible
    } else if which == R_AGGR {
        RingEffect::Aggravate
    } else {
        RingEffect::Nothing
    }
}

/// See `ring_effect_of`.
pub fn ring_effect(which: i32) -> (e: RingEffect)
    ensures
        e == ring_effect_of(which),
{
    if which == R_ADDSTR {
        RingEffect::Strength
    } else if which == R_SEEINVIS {
        RingEffect::SeeInvisible
    } else if which == R_AGGR {
        RingEffect::Aggravate
    } else {
        RingEffect::Nothing
    }
}

/// Where an item the hero lets go of is worn.
#[derive(Clone, Copy, Debug, PartialEq, Eq, Structural)]
pub enum Slot {
    Free,
    Weapon,
    Armor,
    LeftRing,
    RightRing,
}

/// What letting go of an item does.
#[derive(Clone, Copy, Debug, PartialEq, Eq, Structural)]
pub enum Letting {
    /// Not worn: nothing to undo.
    Go,
    /// Cursed: it cannot be let go of.
    Cursed,
    /// The weapon is no longer wielded.
    Unwield,
    /// The armor comes off, which takes a turn.
    TakeOff,
    /// The ring comes off that hand; `strength` tells that the hero loses the
    /// ring's bonus to strength.
    RingOff { left: bool, strength: bool },
}

/// What letting go of an item worn in `slot`, cursed or not, does; a ring
/// of kind `which` 0 takes its bonus off strength as it comes off.
pub open spec fn letting_of(slot: Slot, cursed: bool, which: i32) -> Letting {
    match slot {
        Slot::Free => Letting::Go,
        _ => if cursed {
            Letting::Cursed
        } else {
            match slot {
                Slot::Weapon => Letting::Unwield,
                Slot::Armor => Letting::TakeOff,
                Slot::LeftRing => Letting::RingOff { left: true, strength: which == 0 },
                _ => Letting::RingOff { left: false, strength: which == 0 },
            }
        },
    }
}

/// See `letting_of`.
pub fn drop_check(slot: Slot, cursed: bool, which: i32) -> (l: Letting)
    ensures
        l == letting_of(slot, cursed, which),
{
    match slot {
        Slot::Free => Letting::Go,
        _ => {
            if cursed {
                Letting::Cursed
            } else {
                match slot {
                    Slot::Weapon => Letting::Unwield,
                    Slot::Armor => Letting::TakeOff,
                    Slot::LeftRing => Letting::RingOff { left: true, strength: which == 0 },
                    _ => Letting::RingOff { left: false, strength: which == 0 },
                }
            }
        },
    }
}

/// What the hero is told when he tries to use again what he already uses.
pub open spec fn in_use_text(terse: bool) -> Seq<char> {
    if terse { "in use"@ } else { "That's already in use"@ }
}

/// See `in_use_text`.
pub fn in_use_message(terse: bool) -> (m: &'static str)
    ensures
        m@ == in_use_text(terse),
{
    if terse { "in use" } else { "That's already in use" }
}

/// A ring goes on a free hand and comes off a hand that wears one: when
/// exactly one hand will do, it is that hand; the hero is asked only when
/// both will do, and no hand is given only when none will; putting on and
/// taking off agree on which hands will do.
pub proof fn law_ring_hands(left_worn: bool, right_worn: bool)
    ensures
        ring_on_hand_of(left_worn, right_worn) is Left ==> !left_worn && right_worn,
        ring_on_hand_of(left_worn, right_worn) is Right ==> !right_worn && left_worn,
        ring_on_hand_of(left_worn, right_worn) is Ask <==> !left_worn && !right_worn,
        ring_on_hand_of(left_worn, right_worn) is Neither <==> left_worn && right_worn,
        ring_off_hand_of(left_worn, right_worn) is Left ==> left_worn && !right_worn,
        ring_off_hand_of(left_worn, right_worn) is Right ==> right_worn && !left_worn,
        ring_off_hand_of(left_worn, right_worn) is Ask <==> left_worn && right_worn,
        ring_off_hand_of(left_worn, right_worn) is Neither <==> !left_worn && !right_worn,
        ring_on_hand_of(left_worn, right_worn) == ring_off_hand_of(!left_worn, !right_worn),
{
}

/// Letting go of an item: an item not worn just goes; a cursed worn item
/// cannot be let go of; otherwise what was worn comes off its own slot, a
/// ring from its own hand.
pub proof fn law_letting(slot: Slot, cursed: bool, which: i32)
    ensures
        slot is Free ==> letting_of(slot, cursed, which) is Go,
        !(slot is Free) && cursed ==> letting_of(slot, cursed, which) is Cursed,
        letting_of(slot, cursed, which) is Unwield ==> slot is Weapon && !cursed,
        letting_of(slot, cursed, which) is TakeOff ==> slot is Armor && !cursed,
        letting_of(slot, cursed, which) matches Letting::RingOff { left, .. } ==> !cursed
            && (left ==> slot is LeftRing) && (!left ==> slot is RightRing),
{
}

} // verus!
