//! The hero's stomach: food used up each turn, the rings that eat more or
//! less of it, and the pangs of hunger, weakness and fainting.

use vstd::prelude::*;

use crate::rnd::{rnd, rnd_result, Dice};
use crate::text::push_text;

verus! {

/// Below this much food left the hero is weak; below twice as much, hungry.
pub const MORETIME: i32 = 150;
/// How far below nothing the food left may go before the hero starves.
pub const STARVETIME: i32 = 850;
/// The ring of slow digestion.
pub const R_DIGEST: i32 = 10;
/// The number of kinds of rings.
pub const MAXRINGS: i32 = 14;

/// How much food a ring of kind `which` eats each turn: a positive amount
/// every turn, or, when negative, one with a chance of one in its size.
pub open spec fn ring_uses(which: int) -> int {
    if which == 0 || which == 1 || which == 2 || which == 12 || which == 13 { 1 }
    else if which == 3 || which == 7 || which == 8 { -3 }
    else if which == 4 { -5 }
    else if which == 9 { 2 }
    else if which == 10 { -2 }
    else { 0 }
}

/// The food a ring of kind `which` eats this turn, where `roll` is the draw
/// made for rings that eat only now and then (from `[0, n)` for a use of
/// `-n`): a chance use eats one when the draw is zero. The ring of slow
/// digestion gives back what it would have eaten. A kind that is not a ring
/// eats nothing.
pub open spec fn ring_eaten(which: int, roll: int) -> int {
    if which < 0 || which >= MAXRINGS {
        0
    } else {
        let u = ring_uses(which);
        let e = if u < 0 { if roll == 0 { 1int } else { 0int } } else { u };
        if which == R_DIGEST { -e } else { e }
    }
}

fn uses_of(which: i32) -> (u: i32)
    ensures
        u == ring_uses(which as int),
{
    if which == 0 || which == 1 || which == 2 || which == 12 || which == 13 {
        1
    } else if which == 3 || which == 7 || which == 8 {
        -3
    } else if which == 4 {
        -5
    } else if which == 9 {
        2
    } else if which == 10 {
        -2
    } else {
        0
    }
}

/// The food eaten this turn by the ring of kind `which` worn on a hand, if
/// any, drawing for rings that eat now and then.
pub fn ring_eat(dice: &mut Dice, which: Option<i32>) -> (e: i32)
    ensures
        match which {
            Some(w) => exists|roll: int| rnd_result(-ring_uses(w as int), roll) && e == ring_eaten(w as int, roll),
            None => e == 0,
        },
        -1 <= e <= 2,
{
    match which {
        None => 0,
        Some(w) => {
            if w < 0 || w >= MAXRINGS {
                assert(rnd_result(-ring_uses(w as int), 0) && 0 == ring_eaten(w as int, 0));
                return 0;
            }
            let u = uses_of(w);
            let roll = if u < 0 { rnd(dice, -u) } else { 0 };
            let e = if u < 0 {
                if roll == 0 { 1 } else { 0 }
            } else {
                u
            };
            let r = if w == R_DIGEST { -e } else { e };
            assert(rnd_result(-ring_uses(w as int), roll as int) && r == ring_eaten(w as int, roll as int));
            r
        },
    }
}

/// What the stomach tells the hero this turn.
#[derive(Clone, Copy, Debug, PartialEq, Eq, Structural)]
pub enum Pang {
    /// Nothing new.
    Quiet,
    /// He has starved to death.
    Starved,
    /// He faints from hunger.
    Faint,
    /// He is getting weak.
    Weak,
    /// He is getting hungry.
    Hungry,
}

/// The hero's food, hunger state (0 fed, 1 hungry, 2 weak, 3 fainting) and
/// the turns he cannot act.
#[derive(Clone, Copy, Debug, PartialEq, Eq, Structural)]
pub struct Stomach {
    pub food_left: i32,
    pub hungry: i32,
    pub no_command: i32,
}

/// One turn of digestion, where `eaten` is what the rings ate, `amulet`
/// whether the hero carries the amulet (which saves a unit of food),
/// `faint_roll` a draw from `[0, 5)` and `faint_turns` the turns a faint
/// lasts. With food left, it is used up and the hero gets weak or hungry
/// as it crosses `MORETIME` or twice that. Without, he starves when it has
/// gone below `-STARVETIME`, and otherwise faints when he can act and the
/// draw is zero.
pub open spec fn digested(s: Stomach, eaten: int, amulet: bool, faint_roll: int, faint_turns: int) -> (Stomach, Pang) {
    if s.food_left <= 0 {
        let food = (s.food_left - 1) as i32;
        if s.food_left < -STARVETIME {
            (Stomach { food_left: food, ..s }, Pang::Starved)
        } else if s.no_command != 0 || faint_roll != 0 {
            (Stomach { food_left: food, ..s }, Pang::Quiet)
        } else {
            (Stomach { food_left: food, hungry: 3, no_command: (s.no_command + faint_turns) as i32 }, Pang::Faint)
        }
    } else {
        let food = s.food_left - (eaten + 1 - (if amulet { 1int } else { 0int }));
        if food < MORETIME && s.food_left >= MORETIME {
            (Stomach { food_left: food as i32, hungry: 2, ..s }, Pang::Weak)
        } else if food < 2 * MORETIME && s.food_left >= 2 * MORETIME {
            (Stomach { food_left: food as i32, hungry: 1, ..s }, Pang::Hungry)
        } else {
            (Stomach { food_left: food as i32, ..s }, Pang::Quiet)
        }
    }
}

/// See `digested`.
pub fn digest(s: Stomach, eaten: i32, amulet: bool, faint_roll: i32, faint_turns: i32) -> (r: (Stomach, Pang))
    requires
        s.food_left <= 0 ==> s.food_left > i32::MIN,
        s.food_left > 0 ==> i32::MIN <= s.food_left - (eaten + 1 - (if amulet { 1int } else { 0int })) <= i32::MAX,
    ensures
        r == digested(s, eaten as int, amulet, faint_roll as int, faint_turns as int),
{
    if s.food_left <= 0 {
        let food = s.food_left - 1;
        if s.food_left < -STARVETIME {
            (Stomach { food_left: food, ..s }, Pang::Starved)
        } else if s.no_command != 0 || faint_roll != 0 {
            (Stomach { food_left: food, ..s }, Pang::Quiet)
        } else {
            (Stomach { food_left: food, hungry: 3, no_command: faint_turns }, Pang::Faint)
        }
    } else {
        let saved: i64 = if amulet { 1 } else { 0 };
        let wide: i64 = s.food_left as i64 - (eaten as i64 + 1 - saved);
        let food = wide as i32;
        if food < MORETIME && s.food_left >= MORETIME {
            (Stomach { food_left: food, hungry: 2, ..s }, Pang::Weak)
        } else if food < 2 * MORETIME && s.food_left >= 2 * MORETIME {
            (Stomach { food_left: food, hungry: 1, ..s }, Pang::Hungry)
        } else {
            (Stomach { food_left: food, ..s }, Pang::Quiet)
        }
    }
}

/// One turn of the stomach for a hero wearing rings of kinds `left` and
/// `right` (see `digested`): the rings eat, and a hero out of food who can
/// act draws whether he faints and, if so, for 4 to 11 turns.
pub fn stomach(dice: &mut Dice, s: Stomach, left: Option<i32>, right: Option<i32>, amulet: bool) -> (r: (Stomach, Pang))
    requires
        i32::MIN < s.food_left <= i32::MAX - 2,
    ensures
        exists|eaten: int, faint_roll: int, faint_turns: int|
            -2 <= eaten <= 4 && 0 <= faint_roll < 5 && 4 <= faint_turns < 12 && r == #[trigger] digested(
                s,
                eaten,
                amulet,
                faint_roll,
                faint_turns,
            ),
{
    if s.food_left <= 0 {
        let faint_roll = if s.no_command != 0 { 0 } else { rnd(dice, 5) };
        let faint_turns = if s.no_command != 0 || faint_roll != 0 { 4 } else { rnd(dice, 8) + 4 };
        let r = digest(s, 0, amulet, faint_roll, faint_turns);
        assert(r == digested(s, 0, amulet, faint_roll as int, faint_turns as int));
        r
    } else {
        let a = ring_eat(dice, left);
        let b = ring_eat(dice, right);
        let r = digest(s, a + b, amulet, 0, 4);
        assert(r == digested(s, (a + b) as int, amulet, 0, 4));
        r
    }
}

/// What the hero is told of a pang, tersely or not, and with the words of
/// a hallucinating hero when `tripping`.
pub open spec fn pang_text(p: Pang, terse: bool, tripping: bool) -> Seq<char> {
    match p {
        Pang::Faint => (if terse {
            Seq::empty()
        } else if tripping {
            "the munchies overpower your motor capabilities.  "@
        } else {
            "you feel too weak from lack of food.  "@
        }) + (if tripping { "You freak out"@ } else { "You faint"@ }),
        Pang::Weak => if tripping {
            "the munchies are interfering with your motor capabilites"@
        } else {
            "you are starting to feel weak"@
        },
        Pang::Hungry => if terse {
            if tripping { "getting the munchies"@ } else { "getting hungry"@ }
        } else {
            if tripping { "you are getting the munchies"@ } else { "you are starting to get hungry"@ }
        },
        _ => Seq::empty(),
    }
}

/// See `pang_text`.
pub fn pang_message(p: Pang, terse: bool, tripping: bool) -> (m: String)
    ensures
        m@ == pang_text(p, terse, tripping),
{
    let mut m = String::new();
    match p {
        Pang::Faint => {
            if !terse {
                if tripping {
                    push_text(&mut m, "the munchies overpower your motor capabilities.  ");
                } else {
                    push_text(&mut m, "you feel too weak from lack of food.  ");
                }
            }
            if tripping {
                push_text(&mut m, "You freak out");
            } else {
                push_text(&mut m, "You faint");
            }
        },
        Pang::Weak => {
            if tripping {
                push_text(&mut m, "the munchies are interfering with your motor capabilites");
            } else {
                push_text(&mut m, "you are starting to feel weak");
            }
        },
        Pang::Hungry => {
            if terse {
                if tripping {
                    push_text(&mut m, "getting the munchies");
                } else {
                    push_text(&mut m, "getting hungry");
                }
            } else {
                if tripping {
                    push_text(&mut m, "you are getting the munchies");
                } else {
                    push_text(&mut m, "you are starting to get hungry");
                }
            }
        },
        _ => {},
    }
    m
}

/// How long a ration lasts, give or take 200 turns.
pub const HUNGERTIME: i32 = 1300;
/// The most food the hero's stomach holds.
pub const STOMACHSIZE: i32 = 2000;

/// The food left after eating, where `roll` is a draw from `[0, 400)`: an
/// empty stomach counts as nothing left, a ration adds `HUNGERTIME - 200`
/// and the draw, and the stomach holds no more than `STOMACHSIZE`.
pub open spec fn after_eating(food: int, roll: int) -> int {
    let base = if food < 0 { 0 } else { food };
    let n = base + HUNGERTIME - 200 + roll;
    if n > STOMACHSIZE { STOMACHSIZE as int } else { n }
}

/// Eat a ration (see `after_eating`).
pub fn eat_food(dice: &mut Dice, food: i32) -> (f: i32)
    requires
        food <= i32::MAX - 1499,
    ensures
        exists|roll: int| 0 <= roll < 400 && f == #[trigger] after_eating(food as int, roll),
        f <= STOMACHSIZE,
{
    let base = if food < 0 { 0 } else { food };
    let roll = rnd(dice, 400);
    let n = base + HUNGERTIME - 200 + roll;
    let f = if n > STOMACHSIZE { STOMACHSIZE } else { n };
    assert(f == after_eating(food as int, roll as int));
    f
}

/// How a meal tastes.
#[derive(Clone, Copy, Debug, PartialEq, Eq, Structural)]
pub enum Taste {
    /// The hero's favourite fruit.
    Fruit,
    /// An awful ration, which teaches the hero something.
    Awful,
    /// A good ration.
    Good,
}

/// How a meal of food kind `which` tastes with a draw `roll` from
/// `[0, 100)`: fruit (kind 1) is the fruit; a ration is awful on a draw
/// above 70.
pub open spec fn taste_of(which: int, roll: int) -> Taste {
    if which == 1 { Taste::Fruit } else if roll > 70 { Taste::Awful } else { Taste::Good }
}

/// See `taste_of`; fruit draws nothing.
pub fn taste(dice: &mut Dice, which: i32) -> (t: Taste)
    ensures
        exists|roll: int| 0 <= roll < 100 && t == #[trigger] taste_of(which as int, roll),
{
    if which == 1 {
        assert(Taste::Fruit == taste_of(which as int, 0));
        return Taste::Fruit;
    }
    let roll = rnd(dice, 100);
    let t = if roll > 70 { Taste::Awful } else { Taste::Good };
    assert(t == taste_of(which as int, roll as int));
    t
}

/// What the hero says of a meal; `fruit` is the name of his favourite fruit.
pub open spec fn taste_text(t: Taste, fruit: Seq<char>) -> Seq<char> {
    match t {
        Taste::Fruit => "my, that was a yummy "@ + fruit,
        Taste::Awful => "bummer, this food tastes awful"@,
        Taste::Good => "yum, that tasted good"@,
    }
}

/// See `taste_text`.
pub fn taste_message(t: Taste, fruit: &str) -> (m: String)
    ensures
        m@ == taste_text(t, fruit@),
{
    let mut m = String::new();
    match t {
        Taste::Fruit => {
            push_text(&mut m, "my, that was a yummy ");
            push_text(&mut m, fruit);
        },
        Taste::Awful => push_text(&mut m, "bummer, this food tastes awful"),
        Taste::Good => push_text(&mut m, "yum, that tasted good"),
    }
    m
}

/// A turn of digestion: out of food, the hero loses one more unit each
/// turn, starves exactly once he is past `STARVETIME` below none, and faints
/// only when he can act (then he is fainting); with food, what he eats only
/// goes down when the rings eat nothing back, and he turns weak or hungry
/// only as his food crosses `MORETIME` or twice that on the way down.
pub proof fn law_digest(s: Stomach, eaten: int, amulet: bool, faint_roll: int, faint_turns: int)
    requires
        s.food_left <= 0 ==> s.food_left > i32::MIN,
        s.food_left > 0 ==> i32::MIN <= s.food_left - (eaten + 1 - (if amulet { 1int } else { 0int })) <= i32::MAX,
    ensures
        ({
            let (t, p) = digested(s, eaten, amulet, faint_roll, faint_turns);
            &&& s.food_left <= 0 ==> t.food_left == s.food_left - 1 && (p is Starved <==> s.food_left < -STARVETIME)
            &&& p is Faint ==> s.no_command == 0 && t.hungry == 3 && s.food_left <= 0
            &&& s.food_left > 0 && eaten >= 0 ==> t.food_left <= s.food_left
            &&& s.food_left > 0 && eaten >= 0 && !amulet ==> t.food_left < s.food_left
            &&& p is Weak ==> t.food_left < MORETIME <= s.food_left && t.hungry == 2
            &&& p is Hungry ==> t.food_left < 2 * MORETIME <= s.food_left && t.hungry == 1
            &&& p is Quiet ==> t.hungry == s.hungry && t.no_command == s.no_command
        }),
{
}

} // verus!
