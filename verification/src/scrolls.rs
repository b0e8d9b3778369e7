//! What the scrolls that work on the hero's equipment do: enchanting and
//! protecting armor, enchanting a weapon, lifting curses, and the words
//! each scroll has for the hero.

use vstd::prelude::*;

use crate::rnd::{rnd, Dice};
use crate::text::push_text;

verus! {

/// The flag of a cursed item.
pub const ISCURSED: i32 = 0o1;
/// The flag of armor that rust cannot harm.
pub const ISPROT: i32 = 0o40;

/// `flags` without the curse.
pub open spec fn uncursed(flags: i32) -> i32 {
    flags & !ISCURSED
}

/// Lift the curse off an item with flags `flags`.
pub fn uncurse(flags: i32) -> (f: i32)
    ensures
        f == uncursed(flags),
{
    flags & !ISCURSED
}

/// Enchant armor of class `arm` with flags `flags`: its class drops by one
/// (lower is better) and its curse is lifted.
pub fn enchant_armor(arm: i32, flags: i32) -> (r: (i32, i32))
    requires
        arm > i32::MIN,
    ensures
        r.0 == arm - 1,
        r.1 == uncursed(flags),
{
    (arm - 1, flags & !ISCURSED)
}

/// Protect armor with flags `flags`: rust can no longer harm it.
pub fn protect_armor(flags: i32) -> (f: i32)
    ensures
        f == flags | ISPROT,
{
    flags | ISPROT
}

/// A weapon with hit and damage bonuses `hplus` and `dplus` and flags
/// `flags` after enchanting, where `roll` is a draw from `[0, 2)`: the curse
/// is lifted and, on a zero, the hit bonus grows by one, otherwise the
/// damage bonus.
pub open spec fn enchanted_weapon(hplus: int, dplus: int, flags: i32, roll: int) -> (int, int, i32) {
    if roll == 0 { (hplus + 1, dplus, uncursed(flags)) } else { (hplus, dplus + 1, uncursed(flags)) }
}

/// Enchant a weapon (see `enchanted_weapon`).
pub fn enchant_weapon(dice: &mut Dice, hplus: i32, dplus: i32, flags: i32) -> (r: (i32, i32, i32))
    requires
        hplus < i32::MAX,
        dplus < i32::MAX,
    ensures
        exists|roll: int|
            0 <= roll < 2 && (r.0 as int, r.1 as int, r.2) == #[trigger] enchanted_weapon(
                hplus as int,
                dplus as int,
                flags,
                roll,
            ),
{
    let roll = rnd(dice, 2);
    let r = if roll == 0 {
        (hplus + 1, dplus, flags & !ISCURSED)
    } else {
        (hplus, dplus + 1, flags & !ISCURSED)
    };
    assert((r.0 as int, r.1 as int, r.2) == enchanted_weapon(hplus as int, dplus as int, flags, roll as int));
    r
}

/// What a scroll shows the hero as it glows on something.
#[derive(Clone, Copy, Debug, PartialEq, Eq, Structural)]
pub enum Glow {
    /// Monster confusion: his hands.
    Hands,
    /// Enchant armor: his armor.
    Armor,
    /// Enchant weapon: his weapon.
    Weapon,
    /// Protect armor: a shield over his armor.
    Shield,
}

/// The words of a glowing scroll, in colour `color`; `weapon` is the name of
/// the weapon enchanted.
pub open spec fn glow_text(g: Glow, color: Seq<char>, weapon: Seq<char>) -> Seq<char> {
    match g {
        Glow::Hands => "your hands begin to glow "@ + color,
        Glow::Armor => "your armor glows "@ + color + " for a moment"@,
        Glow::Weapon => "your "@ + weapon + " glows "@ + color + " for a moment"@,
        Glow::Shield => "your armor is covered by a shimmering "@ + color + " shield"@,
    }
}

/// See `glow_text`.
pub fn glow_message(g: Glow, color: &str, weapon: &str) -> (m: String)
    ensures
        m@ == glow_text(g, color@, weapon@),
{
    let mut m = String::new();
    match g {
        Glow::Hands => {
            push_text(&mut m, "your hands begin to glow ");
            push_text(&mut m, color);
        },
        Glow::Armor => {
            push_text(&mut m, "your armor glows ");
            push_text(&mut m, color);
            push_text(&mut m, " for a moment");
        },
        Glow::Weapon => {
            push_text(&mut m, "your ");
            push_text(&mut m, weapon);
            push_text(&mut m, " glows ");
            push_text(&mut m, color);
            push_text(&mut m, " for a moment");
        },
        Glow::Shield => {
            push_text(&mut m, "your armor is covered by a shimmering ");
            push_text(&mut m, color);
            push_text(&mut m, " shield");
        },
    }
    m
}

/// What a scroll of remove curse tells the hero, hallucinating or not.
pub open spec fn remove_curse_text(tripping: bool) -> Seq<char> {
    if tripping {
        "you feel in touch with the Universal Onenes"@
    } else {
        "you feel as if somebody is watching over you"@
    }
}

/// See `remove_curse_text`.
pub fn remove_curse_message(tripping: bool) -> (m: &'static str)
    ensures
        m@ == remove_curse_text(tripping),
{
    if tripping {
        "you feel in touch with the Universal Onenes"
    } else {
        "you feel as if somebody is watching over you"
    }
}

/// What reading a scroll that is no scroll tells the hero.
pub open spec fn unreadable_text(terse: bool) -> Seq<char> {
    if terse { "nothing to read"@ } else { "there is nothing on it to read"@ }
}

/// See `unreadable_text`.
pub fn unreadable_message(terse: bool) -> (m: &'static str)
    ensures
        m@ == unreadable_text(terse),
{
    if terse { "nothing to read" } else { "there is nothing on it to read" }
}

} // verus!
