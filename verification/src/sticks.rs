//! The kinds of wands and staves.

use vstd::prelude::*;

use crate::format::{decimal, decimal_chars, push_chars};
use crate::rnd::{rnd, Dice};
use crate::text::push_text;

verus! {

/// What a wand or staff does when zapped.
#[derive(Clone, Copy, Debug, PartialEq, Eq, Structural)]
pub enum StickType {
    Light,
    Invis,
    Elect,
    Fire,
    Cold,
    Polymorph,
    Missile,
    HasteM,
    SlowM,
    Drain,
    Nop,
    TelAway,
    TelTo,
    Cancel,
}

/// The number of kinds of wands and staves.
pub const MAXSTICKS: usize = 14;

/// The number a kind is stored as: its place in the list, from 0.
pub open spec fn stick_number(t: StickType) -> int {
    match t {
        StickType::Light => 0,
        StickType::Invis => 1,
        StickType::Elect => 2,
        StickType::Fire => 3,
        StickType::Cold => 4,
        StickType::Polymorph => 5,
        StickType::Missile => 6,
        StickType::HasteM => 7,
        StickType::SlowM => 8,
        StickType::Drain => 9,
        StickType::Nop => 10,
        StickType::TelAway => 11,
        StickType::TelTo => 12,
        StickType::Cancel => 13,
    }
}

impl StickType {
    /// The kind stored as `value`, if `value` names one.
    pub fn from_raw(value: i32) -> (t: Option<StickType>)
        ensures
            match t {
                Some(k) => stick_number(k) == value,
                None => !(0 <= value < MAXSTICKS),
            },
    {
        match value {
            0 => Some(StickType::Light),
            1 => Some(StickType::Invis),
            2 => Some(StickType::Elect),
            3 => Some(StickType::Fire),
            4 => Some(StickType::Cold),
            5 => Some(StickType::Polymorph),
            6 => Some(StickType::Missile),
            7 => Some(StickType::HasteM),
            8 => Some(StickType::SlowM),
            9 => Some(StickType::Drain),
            10 => Some(StickType::Nop),
            11 => Some(StickType::TelAway),
            12 => Some(StickType::TelTo),
            13 => Some(StickType::Cancel),
            _ => None,
        }
    }

    /// The number this kind is stored as.
    pub fn index(self) -> (i: usize)
        ensures
            i == stick_number(self),
            i < MAXSTICKS,
    {
        match self {
            StickType::Light => 0,
            StickType::Invis => 1,
            StickType::Elect => 2,
            StickType::Fire => 3,
            StickType::Cold => 4,
            StickType::Polymorph => 5,
            StickType::Missile => 6,
            StickType::HasteM => 7,
            StickType::SlowM => 8,
            StickType::Drain => 9,
            StickType::Nop => 10,
            StickType::TelAway => 11,
            StickType::TelTo => 12,
            StickType::Cancel => 13,
        }
    }
}

/// Every kind reads back from the number it is stored as, and every stored
/// number names exactly one kind.
pub proof fn lemma_stick_number_round_trip(t: StickType, u: StickType)
    ensures
        0 <= stick_number(t) < MAXSTICKS,
        stick_number(t) == stick_number(u) ==> t == u,
{
}

/// Whether a zap goes ahead.
#[derive(Clone, Copy, Debug, PartialEq, Eq, Structural)]
pub enum ZapCheck {
    /// The item chosen is not a wand or staff.
    NotAStick,
    /// It has no charges left: nothing happens.
    Empty,
    /// A drain-life stick needs the hero to have at least 2 hit points.
    TooWeak,
    /// The zap goes ahead, and uses a charge.
    Zap,
}

/// Whether zapping an item of kind `kind` (its map glyph) with `charges`
/// charges, of stick kind `stick`, goes ahead for a hero with `hp` hit
/// points.
pub open spec fn zap_check_of(kind: i32, charges: int, stick: Option<StickType>, hp: int) -> ZapCheck {
    if kind != 47 {
        ZapCheck::NotAStick
    } else if charges == 0 {
        ZapCheck::Empty
    } else if stick == Some(StickType::Drain) && hp < 2 {
        ZapCheck::TooWeak
    } else {
        ZapCheck::Zap
    }
}

/// See `zap_check_of`.
pub fn zap_check(kind: i32, charges: i32, stick: Option<StickType>, hp: i32) -> (c: ZapCheck)
    ensures
        c == zap_check_of(kind, charges as int, stick, hp as int),
{
    if kind != 47 {
        ZapCheck::NotAStick
    } else if charges == 0 {
        ZapCheck::Empty
    } else {
        match stick {
            Some(StickType::Drain) => if hp < 2 { ZapCheck::TooWeak } else { ZapCheck::Zap },
            _ => ZapCheck::Zap,
        }
    }
}

/// The name of the bolt a stick fires: lightning is a `bolt`, fire a
/// `flame`, cold `ice`; the other sticks fire none.
pub open spec fn bolt_of(t: StickType) -> Option<Seq<char>> {
    match t {
        StickType::Elect => Some("bolt"@),
        StickType::Fire => Some("flame"@),
        StickType::Cold => Some("ice"@),
        _ => None,
    }
}

/// See `bolt_of`.
pub fn bolt_name(t: StickType) -> (n: Option<&'static str>)
    ensures
        match n {
            Some(s) => bolt_of(t) == Some(s@),
            None => bolt_of(t) is None,
        },
{
    match t {
        StickType::Elect => Some("bolt"),
        StickType::Fire => Some("flame"),
        StickType::Cold => Some("ice"),
        _ => None,
    }
}

/// The charges a new stick gets, where `roll` is the draw made for it: a
/// wand of light 10 to 19 (a draw from `[0, 10)` plus 10), any other 3 to 7
/// (a draw from `[0, 5)` plus 3).
pub open spec fn charges_of(t: Option<StickType>, roll: int) -> int {
    if t == Some(StickType::Light) { roll + 10 } else { roll + 3 }
}

/// The damage a stick does when wielded: a wand of light hits `2x3`, any
/// other `1x1`; thrown, any stick does `1x1`.
pub open spec fn stick_damage_of(t: Option<StickType>) -> Seq<char> {
    if t == Some(StickType::Light) { "2x3"@ } else { "1x1"@ }
}

/// Charge a new stick (see `charges_of` and `stick_damage_of`): its
/// charges and its damage when wielded.
pub fn fix_stick(dice: &mut Dice, t: Option<StickType>) -> (r: (i32, &'static str))
    ensures
        exists|roll: int|
            0 <= roll < (if t == Some(StickType::Light) { 10int } else { 5int }) && r.0 == #[trigger] charges_of(t, roll),
        r.1@ == stick_damage_of(t),
{
    match t {
        Some(StickType::Light) => {
            let roll = rnd(dice, 10);
            assert(roll + 10 == charges_of(t, roll as int));
            (roll + 10, "2x3")
        },
        _ => {
            let roll = rnd(dice, 5);
            assert(roll + 3 == charges_of(t, roll as int));
            (roll + 3, "1x1")
        },
    }
}

/// The note on a stick's charges in its name: none until the stick is
/// known, then ` [n]` tersely or ` [n charges]`.
pub open spec fn charges_text(known: bool, terse: bool, charges: int) -> Seq<char> {
    if !known {
        Seq::empty()
    } else if terse {
        " ["@ + decimal(charges) + "]"@
    } else {
        " ["@ + decimal(charges) + " charges]"@
    }
}

/// See `charges_text`.
pub fn charge_str(known: bool, terse: bool, charges: i32) -> (s: String)
    ensures
        s@ == charges_text(known, terse, charges as int),
{
    let mut s = String::new();
    if known {
        push_text(&mut s, " [");
        let d = decimal_chars(charges as i64);
        push_chars(&mut s, &d);
        if terse {
            push_text(&mut s, "]");
        } else {
            push_text(&mut s, " charges]");
        }
    }
    s
}

} // verus!
