//! The potions that change the hero's state for a while: which state each
//! sets, for how long, and what the hero feels.

use vstd::prelude::*;

use crate::rnd::{rnd, Dice};
use crate::text::push_text;

verus! {

pub const P_CONFUSE: i32 = 0;
pub const P_LSD: i32 = 1;
pub const P_SEEINVIS: i32 = 4;
pub const P_BLIND: i32 = 12;
pub const P_LEVIT: i32 = 13;

/// The hero is confused.
pub const ISHUH: i32 = 0o1000;
/// The hero is hallucinating.
pub const ISHALU: i32 = 0o4000;
/// The hero sees invisible things.
pub const CANSEE: i32 = 0o2;
/// The hero is blind.
pub const ISBLIND: i32 = 0o4;
/// The hero floats.
pub const ISLEVIT: i32 = 0o10;

pub const HUHDURATION: i32 = 20;
pub const SEEDURATION: i32 = 850;
pub const HEALTIME: i32 = 30;

/// The state a potion of kind `kind` puts the hero in and the time it lasts
/// before spreading: confusion, hallucination, seeing the invisible,
/// blindness, floating; the other potions set none of these.
pub open spec fn trip_of(kind: i32) -> Option<(i32, i32)> {
    if kind == P_CONFUSE {
        Some((ISHUH, HUHDURATION))
    } else if kind == P_LSD {
        Some((ISHALU, SEEDURATION))
    } else if kind == P_SEEINVIS {
        Some((CANSEE, SEEDURATION))
    } else if kind == P_BLIND {
        Some((ISBLIND, SEEDURATION))
    } else if kind == P_LEVIT {
        Some((ISLEVIT, HEALTIME))
    } else {
        None
    }
}

/// See `trip_of`.
pub fn potion_trip(kind: i32) -> (t: Option<(i32, i32)>)
    ensures
        t == trip_of(kind),
{
    if kind == P_CONFUSE {
        Some((ISHUH, HUHDURATION))
    } else if kind == P_LSD {
        Some((ISHALU, SEEDURATION))
    } else if kind == P_SEEINVIS {
        Some((CANSEE, SEEDURATION))
    } else if kind == P_BLIND {
        Some((ISBLIND, SEEDURATION))
    } else if kind == P_LEVIT {
        Some((ISLEVIT, HEALTIME))
    } else {
        None
    }
}

/// What the hero feels on drinking a potion of kind `kind`, in the words of
/// a hallucinating hero when `tripping`; the potion of see invisible tastes
/// of `taste`.
pub open spec fn trip_text(kind: i32, tripping: bool, taste: Seq<char>) -> Seq<char> {
    if kind == P_CONFUSE {
        if tripping { "what a tripy feeling!"@ } else { "wait, what's going on here. Huh? What? Who?"@ }
    } else if kind == P_LSD {
        "Oh, wow!  Everything seems so cosmic!"@
    } else if kind == P_SEEINVIS {
        taste
    } else if kind == P_BLIND {
        if tripping { "oh, bummer!  Everything is dark!  Help!"@ } else { "a cloak of darkness falls around you"@ }
    } else if kind == P_LEVIT {
        if tripping { "oh, wow!  You're floating in the air!"@ } else { "you start to float in the air"@ }
    } else {
        Seq::empty()
    }
}

/// See `trip_text`.
pub fn trip_message(kind: i32, tripping: bool, taste: &str) -> (m: String)
    ensures
        m@ == trip_text(kind, tripping, taste@),
{
    let mut m = String::new();
    if kind == P_CONFUSE {
        if tripping {
            push_text(&mut m, "what a tripy feeling!");
        } else {
            push_text(&mut m, "wait, what's going on here. Huh? What? Who?");
        }
    } else if kind == P_LSD {
        push_text(&mut m, "Oh, wow!  Everything seems so cosmic!");
    } else if kind == P_SEEINVIS {
        push_text(&mut m, taste);
    } else if kind == P_BLIND {
        if tripping {
            push_text(&mut m, "oh, bummer!  Everything is dark!  Help!");
        } else {
            push_text(&mut m, "a cloak of darkness falls around you");
        }
    } else if kind == P_LEVIT {
        if tripping {
            push_text(&mut m, "oh, wow!  You're floating in the air!");
        } else {
            push_text(&mut m, "you start to float in the air");
        }
    }
    m
}

/// What a state-changing potion does to the hero's flags `flags`: when he
/// is not yet in its state, the state starts (and a timer is set to end
/// it); when he is, the timer is only lengthened.
pub open spec fn trip_flags(flags: i32, state: i32) -> (i32, bool) {
    if flags & state == 0 { (flags | state, true) } else { (flags, false) }
}

/// See `trip_flags`: the new flags and whether a new timer starts.
pub fn start_trip(flags: i32, state: i32) -> (r: (i32, bool))
    ensures
        r == trip_flags(flags, state),
{
    if flags & state == 0 {
        (flags | state, true)
    } else {
        (flags, false)
    }
}

/// What haste does.
#[derive(Clone, Copy, Debug, PartialEq, Eq, Structural)]
pub enum Haste {
    /// The hero was hasted already: he faints from exhaustion for this many
    /// more turns, and is no longer hasted nor running.
    Exhausted { lost: i32 },
    /// He is now hasted; from a potion, for this many turns.
    Hasted { turns: Option<i32> },
}

/// Whether `h` is what hasting does, where `lost` and `turns` are the draws
/// from `[0, 8)` and `[4, 8)`: an already hasted hero is exhausted, another
/// is hasted, for a while when it comes from a potion.
pub open spec fn haste_of(hasted: bool, potion: bool, lost: int, turns: int) -> Haste {
    if hasted {
        Haste::Exhausted { lost: lost as i32 }
    } else if potion {
        Haste::Hasted { turns: Some(turns as i32) }
    } else {
        Haste::Hasted { turns: None }
    }
}

/// Haste the hero (see `haste_of`).
pub fn add_haste(dice: &mut Dice, hasted: bool, potion: bool) -> (h: Haste)
    ensures
        exists|lost: int, turns: int| 0 <= lost < 8 && 4 <= turns < 8 && h == #[trigger] haste_of(hasted, potion, lost, turns),
{
    if hasted {
        let lost = rnd(dice, 8);
        assert(Haste::Exhausted { lost } == haste_of(hasted, potion, lost as int, 4));
        Haste::Exhausted { lost }
    } else if potion {
        let turns = rnd(dice, 4) + 4;
        assert(Haste::Hasted { turns: Some(turns) } == haste_of(hasted, potion, 0, turns as int));
        Haste::Hasted { turns: Some(turns) }
    } else {
        assert(Haste::Hasted { turns: None } == haste_of(hasted, potion, 0, 4));
        Haste::Hasted { turns: None }
    }
}

} // verus!
