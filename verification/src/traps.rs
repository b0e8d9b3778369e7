//! Traps: their kinds, what a mysterious trap shows the hero, and what a
//! rust trap does to his armor.

use vstd::prelude::*;

use crate::rnd::{rnd, Dice};
use crate::text::push_text;

verus! {

pub const T_DOOR: u8 = 0;
pub const T_ARROW: u8 = 1;
pub const T_SLEEP: u8 = 2;
pub const T_BEAR: u8 = 3;
pub const T_TELEP: u8 = 4;
pub const T_DART: u8 = 5;
pub const T_RUST: u8 = 6;
pub const T_MYST: u8 = 7;
/// The bits of a map square's flags that hold its trap's kind.
pub const F_TMASK: u8 = 7;

/// The kind of trap a map square with flags `flags` holds.
pub fn trap_kind(flags: u8) -> (t: u8)
    ensures
        t == flags & F_TMASK,
        t <= T_MYST,
{
    assert(flags & 7 <= 7) by (bit_vector);
    flags & F_TMASK
}

/// What a mysterious trap shows the hero, by the draw `n` from `[0, 11)`
/// and, for the sights that have one, a colour.
pub open spec fn mystery_text(n: int, color: Seq<char>) -> Seq<char> {
    if n == 0 {
        "you are suddenly in a parallel dimension"@
    } else if n == 1 {
        "the light in here suddenly seems "@ + color
    } else if n == 2 {
        "you feel a sting in the side of your neck"@
    } else if n == 3 {
        "multi-colored lines swirl around you, then fade"@
    } else if n == 4 {
        "a "@ + color + " light flashes in your eyes"@
    } else if n == 5 {
        "a spike shoots past your ear!"@
    } else if n == 6 {
        color + " sparks dance across your armor"@
    } else if n == 7 {
        "you suddenly feel very thirsty"@
    } else if n == 8 {
        "you feel time speed up suddenly"@
    } else if n == 9 {
        "time now seems to be going slower"@
    } else if n == 10 {
        "you pack turns "@ + color + "!"@
    } else {
        Seq::empty()
    }
}

/// See `mystery_text`.
pub fn mystery_message(n: i32, color: &str) -> (m: String)
    ensures
        m@ == mystery_text(n as int, color@),
{
    let mut m = String::new();
    if n == 0 {
        push_text(&mut m, "you are suddenly in a parallel dimension");
    } else if n == 1 {
        push_text(&mut m, "the light in here suddenly seems ");
        push_text(&mut m, color);
    } else if n == 2 {
        push_text(&mut m, "you feel a sting in the side of your neck");
    } else if n == 3 {
        push_text(&mut m, "multi-colored lines swirl around you, then fade");
    } else if n == 4 {
        push_text(&mut m, "a ");
        push_text(&mut m, color);
        push_text(&mut m, " light flashes in your eyes");
    } else if n == 5 {
        push_text(&mut m, "a spike shoots past your ear!");
    } else if n == 6 {
        push_text(&mut m, color);
        push_text(&mut m, " sparks dance across your armor");
    } else if n == 7 {
        push_text(&mut m, "you suddenly feel very thirsty");
    } else if n == 8 {
        push_text(&mut m, "you feel time speed up suddenly");
    } else if n == 9 {
        push_text(&mut m, "time now seems to be going slower");
    } else if n == 10 {
        push_text(&mut m, "you pack turns ");
        push_text(&mut m, color);
        push_text(&mut m, "!");
    }
    m
}

/// What water does to the armor the hero wears.
#[derive(Clone, Copy, Debug, PartialEq, Eq, Structural)]
pub enum Rusting {
    /// No armor, leather, or armor already as weak as it gets (class 9).
    Unharmed,
    /// Protected armor, or a ring of maintain armor: the rust vanishes.
    Resisted,
    /// The armor class goes up by one.
    Weakened,
}

/// What rust does to armor of kind `which` and class `arm` (`worn` tells
/// whether the hero wears armor): leather (kind 0) does not rust, nor does
/// armor of class 9 or worse; protected armor or a ring of maintain armor
/// keeps it off.
pub open spec fn rusting_of(worn: bool, which: int, arm: int, protected: bool, maintained: bool) -> Rusting {
    if !worn || which == 0 || arm >= 9 {
        Rusting::Unharmed
    } else if protected || maintained {
        Rusting::Resisted
    } else {
        Rusting::Weakened
    }
}

/// Rust the hero's armor: returns what happened and the armor's new class.
pub fn rust_armor(worn: bool, which: i32, arm: i32, protected: bool, maintained: bool) -> (r: (Rusting, i32))
    ensures
        r.0 == rusting_of(worn, which as int, arm as int, protected, maintained),
        r.1 == (if r.0 == Rusting::Weakened { arm + 1 } else { arm as int }),
{
    if !worn || which == 0 || arm >= 9 {
        (Rusting::Unharmed, arm)
    } else if protected || maintained {
        (Rusting::Resisted, arm)
    } else {
        (Rusting::Weakened, arm + 1)
    }
}

/// What the hero is told when his armor meets rust: nothing when unharmed,
/// nor when resisting while fighting to the death.
pub open spec fn rusting_text(r: Rusting, terse: bool, to_death: bool) -> Option<Seq<char>> {
    match r {
        Rusting::Unharmed => None,
        Rusting::Resisted => if to_death { None } else { Some("the rust vanishes instantly"@) },
        Rusting::Weakened => if terse {
            Some("your armor weakens"@)
        } else {
            Some("your armor appears to be weaker now. Oh my!"@)
        },
    }
}

/// See `rusting_text`.
pub fn rusting_message(r: Rusting, terse: bool, to_death: bool) -> (m: Option<&'static str>)
    ensures
        match m {
            Some(s) => rusting_text(r, terse, to_death) == Some(s@),
            None => rusting_text(r, terse, to_death) is None,
        },
{
    match r {
        Rusting::Unharmed => None,
        Rusting::Resisted => if to_death { None } else { Some("the rust vanishes instantly") },
        Rusting::Weakened => if terse { Some("your armor weakens") } else { Some("your armor appears to be weaker now. Oh my!") },
    }
}

/// What searching can turn up on a square next to the hero.
#[derive(Clone, Copy, Debug, PartialEq, Eq, Structural)]
pub enum Find {
    /// A wall that is a secret door.
    SecretDoor,
    /// A hidden trap in the floor.
    Trap,
    /// Rock that hides a corridor.
    SecretPassage,
}

/// What a search may find on a square showing `glyph` (`plain` when nothing
/// is hidden there), and the odds against: one chance in 5 for a secret
/// door in a wall, in 2 for a trap under the floor, in 3 for a corridor
/// under rock, each made 3 longer when hallucinating and 2 longer when
/// blind.
pub open spec fn search_chance(glyph: u8, plain: bool, halu: bool, blind: bool) -> Option<(Find, int)> {
    let bonus = (if halu { 3int } else { 0int }) + (if blind { 2int } else { 0int });
    if plain {
        None
    } else if glyph == 124 || glyph == 45 {
        Some((Find::SecretDoor, 5 + bonus))
    } else if glyph == 46 {
        Some((Find::Trap, 2 + bonus))
    } else if glyph == 32 {
        Some((Find::SecretPassage, 3 + bonus))
    } else {
        None
    }
}

/// What a draw of `roll` finds where `f` is hidden: it, on a zero.
pub open spec fn found_by(f: Find, roll: int) -> Option<Find> {
    if roll == 0 { Some(f) } else { None }
}

/// Whether `r` is a possible result of searching a square showing `glyph`
/// (see `search_square`).
pub open spec fn search_may_give(glyph: u8, plain: bool, halu: bool, blind: bool, r: Option<Find>) -> bool {
    match search_chance(glyph, plain, halu, blind) {
        None => r is None,
        Some((f, n)) => exists|roll: int| 0 <= roll < n && r == #[trigger] found_by(f, roll),
    }
}

/// What searching a square can turn up: behind a wall, vertical (`|`) or
/// horizontal (`-`) alike, a secret door; under floor (`.`) a trap; under
/// rock (` `) a corridor. A search may find it or miss it, and never finds
/// anything else; a square with nothing hidden, or any other square, gives
/// nothing.
pub proof fn law_search_finds(glyph: u8, plain: bool, halu: bool, blind: bool)
    ensures
        !plain && (glyph == 124 || glyph == 45) ==> search_may_give(glyph, plain, halu, blind, Some(Find::SecretDoor)),
        !plain && glyph == 46 ==> search_may_give(glyph, plain, halu, blind, Some(Find::Trap)),
        !plain && glyph == 32 ==> search_may_give(glyph, plain, halu, blind, Some(Find::SecretPassage)),
        search_may_give(glyph, plain, halu, blind, None),
        forall|r: Option<Find>| #[trigger] search_may_give(glyph, plain, halu, blind, r) ==> match r {
            None => true,
            Some(Find::SecretDoor) => !plain && (glyph == 124 || glyph == 45),
            Some(Find::Trap) => !plain && glyph == 46,
            Some(Find::SecretPassage) => !plain && glyph == 32,
        },
        search_may_give(124, plain, halu, blind, Some(Find::SecretDoor)) == search_may_give(45, plain, halu, blind, Some(Find::SecretDoor)),
{
    assert(found_by(Find::SecretDoor, 0) == Some(Find::SecretDoor));
    assert(found_by(Find::Trap, 0) == Some(Find::Trap));
    assert(found_by(Find::SecretPassage, 0) == Some(Find::SecretPassage));
    assert(found_by(Find::SecretDoor, 1) is None);
    assert(found_by(Find::Trap, 1) is None);
    assert(found_by(Find::SecretPassage, 1) is None);
    assert(found_by(Find::SecretDoor, 0) == Some(Find::SecretDoor) && found_by(Find::SecretDoor, 1) is None);
}

/// Search one square next to the hero (see `search_chance`): what was found
/// there, if the draw came up.
pub fn search_square(dice: &mut Dice, glyph: u8, plain: bool, halu: bool, blind: bool) -> (r: Option<Find>)
    ensures
        match search_chance(glyph, plain, halu, blind) {
            None => r is None,
            Some((f, n)) => exists|roll: int| 0 <= roll < n && r == #[trigger] found_by(f, roll),
        },
        search_may_give(glyph, plain, halu, blind, r),
{
    let bonus: i32 = (if halu { 3 } else { 0 }) + (if blind { 2 } else { 0 });
    if plain {
        return None;
    }
    let (find, odds) = if glyph == 124 || glyph == 45 {
        (Find::SecretDoor, 5 + bonus)
    } else if glyph == 46 {
        (Find::Trap, 2 + bonus)
    } else if glyph == 32 {
        (Find::SecretPassage, 3 + bonus)
    } else {
        return None;
    };
    let roll = rnd(dice, odds);
    let r = if roll == 0 { Some(find) } else { None };
    assert(r == found_by(find, roll as int));
    r
}

/// Rust only ever makes armor one class worse, and only unprotected metal
/// armor that is not already as bad as it gets; protection or a ring of
/// maintain armor makes the rust vanish; without armor nothing happens.
pub proof fn law_rust(worn: bool, which: int, arm: int, protected: bool, maintained: bool)
    ensures
        rusting_of(worn, which, arm, protected, maintained) is Weakened
            <==> worn && which != 0 && arm < 9 && !protected && !maintained,
        rusting_of(worn, which, arm, protected, maintained) is Resisted
            ==> worn && which != 0 && arm < 9 && (protected || maintained),
        !worn ==> rusting_of(worn, which, arm, protected, maintained) is Unharmed,
{
}

} // verus!
