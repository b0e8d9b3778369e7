//! What potions and scrolls do to the hero's numbers: healing, strength,
//! and the words a scroll of hold monster and the identify scrolls use.

use vstd::prelude::*;

use crate::rnd::{dice_total, rnd, rnd_result, roll, Dice};
use crate::wizard::{ARMOR, POTION, R_OR_S, SCROLL, WEAPON};

verus! {

/// The weakest the hero gets.
pub const MIN_STRENGTH: i32 = 3;
/// The strongest the hero gets.
pub const MAX_STRENGTH: i32 = 31;

/// Hit points and their maximum after healing by `gain`: when the hit
/// points pass the maximum, the maximum grows by one (by two for extra
/// healing that passes it by more than the hero's level plus one) and the
/// hit points are set to it.
pub open spec fn healed(hp: int, max_hp: int, gain: int, level: int, extra: bool) -> (int, int) {
    let h = hp + gain;
    if h > max_hp {
        let m = max_hp + (if extra && h > max_hp + level + 1 { 2int } else { 1int });
        (m, m)
    } else {
        (h, max_hp)
    }
}

/// Heal the hero (see `healed`): `gain` is the roll of the potion, `extra`
/// tells extra healing from healing.
pub fn heal(hp: i32, max_hp: i32, gain: i32, level: i32, extra: bool) -> (r: (i32, i32))
    requires
        i32::MIN <= hp + gain <= i32::MAX,
        extra && hp + gain > max_hp ==> i32::MIN <= max_hp + level && max_hp + level + 1 <= i32::MAX,
        extra && hp + gain > max_hp + level + 1 ==> max_hp + 2 <= i32::MAX,
    ensures
        (r.0 as int, r.1 as int) == healed(hp as int, max_hp as int, gain as int, level as int, extra),
        r.0 <= r.1,
        r.1 >= max_hp,
{
    let h = hp + gain;
    if h > max_hp {
        let mut m = max_hp;
        if extra && h > max_hp + level + 1 {
            m = m + 1;
        }
        m = m + 1;
        (m, m)
    } else {
        (h, max_hp)
    }
}

/// `v` brought up to 3 when it is below.
pub open spec fn at_least_three(v: int) -> int {
    if v < 3 { 3 } else { v }
}

/// `n` kept from `MIN_STRENGTH` to `MAX_STRENGTH`.
pub open spec fn clamped(n: int) -> int {
    if n < MIN_STRENGTH { MIN_STRENGTH as int } else if n > MAX_STRENGTH { MAX_STRENGTH as int } else { n }
}

/// `v` less the bonus of a worn ring, if any, but never below 3.
pub open spec fn less_ring(v: int, ring: Option<i32>) -> int {
    match ring {
        Some(b) => at_least_three(v - b),
        None => v,
    }
}

/// Strength and the best strength reached after changing it by `amt`: the
/// new strength stays from 3 to 31, and the best grows to the new strength
/// less the bonuses of the rings on the `left` and `right` hands when that
/// is more. A change of zero changes nothing.
pub open spec fn strength_after(strength: int, amt: int, left: Option<i32>, right: Option<i32>, best: int) -> (int, int) {
    if amt == 0 {
        (strength, best)
    } else {
        let s = clamped(strength + amt);
        let c = less_ring(less_ring(s, left), right);
        (s, if c > best { c } else { best })
    }
}

/// Whether taking the ring bonus `ring` off `v` stays within an `i32`.
pub open spec fn ring_fits(v: int, ring: Option<i32>) -> bool {
    ring matches Some(b) ==> i32::MIN <= v - b <= i32::MAX
}

/// Change the hero's strength by `amt` (see `strength_after`).
pub fn change_strength(strength: i32, amt: i32, left: Option<i32>, right: Option<i32>, best: i32) -> (r: (i32, i32))
    requires
        i32::MIN <= strength + amt <= i32::MAX,
        amt != 0 ==> ring_fits(clamped(strength + amt), left),
        amt != 0 ==> ring_fits(less_ring(clamped(strength + amt), left), right),
    ensures
        (r.0 as int, r.1 as int) == strength_after(strength as int, amt as int, left, right, best as int),
        amt != 0 ==> MIN_STRENGTH <= r.0 <= MAX_STRENGTH,
        r.1 >= best,
{
    if amt == 0 {
        return (strength, best);
    }
    let n = strength + amt;
    let s = if n < MIN_STRENGTH {
        MIN_STRENGTH
    } else if n > MAX_STRENGTH {
        MAX_STRENGTH
    } else {
        n
    };
    let mut c: i32 = s;
    match left {
        Some(b) => {
            let reduced = c - b;
            c = if reduced < 3 { 3 } else { reduced };
        },
        None => {},
    }
    match right {
        Some(b) => {
            let reduced = c - b;
            c = if reduced < 3 { 3 } else { reduced };
        },
        None => {},
    }
    if c > best {
        (s, c)
    } else {
        (s, best)
    }
}

/// What a scroll of hold monster says when it held `held` monsters.
pub open spec fn hold_text(held: int) -> Seq<char> {
    if held == 0 {
        "you feel a strange sense of loss"@
    } else if held == 1 {
        "the monster freezes"@
    } else {
        "the monsters around you freeze"@
    }
}

/// See `hold_text`.
pub fn hold_message(held: u32) -> (m: &'static str)
    ensures
        m@ == hold_text(held as int),
{
    if held == 0 {
        "you feel a strange sense of loss"
    } else if held == 1 {
        "the monster freezes"
    } else {
        "the monsters around you freeze"
    }
}

/// The kind of item an identify scroll asks for, by the scroll's `which`:
/// potions, scrolls, weapons, armor, or rings and sticks for the five
/// identify scrolls, nothing (`0`) for the others.
pub open spec fn identifies(which: int) -> i32 {
    if which == 5 { POTION }
    else if which == 6 { SCROLL }
    else if which == 7 { WEAPON }
    else if which == 8 { ARMOR }
    else if which == 9 { R_OR_S }
    else { 0 }
}

/// See `identifies`.
pub fn identify_kind(which: i32) -> (k: i32)
    requires
        0 <= which <= 9,
    ensures
        k == identifies(which as int),
{
    if which == 5 {
        POTION
    } else if which == 6 {
        SCROLL
    } else if which == 7 {
        WEAPON
    } else if which == 8 {
        ARMOR
    } else if which == 9 {
        R_OR_S
    } else {
        0
    }
}

/// The experience needed for each level after the first.
pub open spec fn experience_steps() -> Seq<i32> {
    seq![
        10i32, 20, 40, 80, 160, 320, 640, 1300, 2600, 5200, 13000, 26000, 50000, 100000, 200000, 400000,
        800000, 2000000, 4000000, 8000000,
    ]
}

/// From step `i` on, the first step that needs more than `exp`, or the
/// number of steps.
pub open spec fn steps_reached(exp: int, i: int) -> int
    decreases experience_steps().len() - i,
{
    if i < 0 || i >= experience_steps().len() {
        experience_steps().len() as int
    } else if experience_steps()[i] > exp {
        i
    } else {
        steps_reached(exp, i + 1)
    }
}

/// The level a hero with `exp` experience has reached.
pub open spec fn level_for(exp: int) -> int {
    steps_reached(exp, 0) + 1
}

/// The hero's level, hit points and maximum after checking his experience
/// `exp`: his level becomes the one his experience reaches, and on going up
/// both hit points and their maximum grow by a roll of ten-sided dice, one
/// for each level gained.
pub fn check_level(dice: &mut Dice, level: i32, exp: i32, hp: i32, max_hp: i32) -> (r: (i32, i32, i32))
    requires
        level_for(exp as int) > level ==> (level_for(exp as int) - level) * 11 <= i32::MAX && hp + 10 * (level_for(
            exp as int,
        ) - level) <= i32::MAX && max_hp + 10 * (level_for(exp as int) - level) <= i32::MAX,
    ensures
        r.0 == level_for(exp as int),
        r.0 <= level ==> r.1 == hp && r.2 == max_hp,
        r.0 > level ==> exists|rolls: Seq<int>|
            rolls.len() == r.0 - level && (forall|i: int| 0 <= i < rolls.len() ==> rnd_result(10, #[trigger] rolls[i]))
                && r.1 == hp + dice_total(rolls) && r.2 == max_hp + dice_total(rolls),
{
    let steps: Vec<i32> = vec![
        10, 20, 40, 80, 160, 320, 640, 1300, 2600, 5200, 13000, 26000, 50000, 100000, 200000, 400000, 800000,
        2000000, 4000000, 8000000,
    ];
    assert(steps@ == experience_steps());
    let mut i: usize = 0;
    while i < steps.len() && steps[i] <= exp
        invariant
            steps@ == experience_steps(),
            i <= steps@.len(),
            steps_reached(exp as int, i as int) == steps_reached(exp as int, 0),
        decreases steps@.len() - i,
    {
        i = i + 1;
    }
    let new_level = i as i32 + 1;
    if new_level > level {
        let add = roll(dice, new_level - level, 10);
        (new_level, hp + add, max_hp + add)
    } else {
        (new_level, hp, max_hp)
    }
}

/// The hit points and quiet turns after a turn of resting at level `level`,
/// where `roll` is a draw of `rnd(level - 7)`: one more quiet turn; below
/// level 8 a hit point comes back once quiet turns and twice the level pass
/// 20, from level 8 on up to `level - 7` come back each turn after two quiet
/// ones; each ring of regeneration adds one. Any gain ends the quiet and is
/// capped at the maximum.
pub open spec fn doctored(level: int, hp: int, max_hp: int, quiet: int, roll: int, left_regen: bool, right_regen: bool) -> (int, int) {
    let q = quiet + 1;
    let gain = (if level < 8 {
        if q + 2 * level > 20 { 1int } else { 0int }
    } else if q >= 3 {
        roll + 1
    } else {
        0int
    }) + (if left_regen { 1int } else { 0int }) + (if right_regen { 1int } else { 0int });
    let h = hp + gain;
    if h != hp {
        (if h > max_hp { max_hp } else { h }, 0)
    } else {
        (hp, q)
    }
}

/// A turn of the hero's healing (see `doctored`).
pub fn doctor(dice: &mut Dice, level: i32, hp: i32, max_hp: i32, quiet: i32, left_regen: bool, right_regen: bool) -> (r: (i32, i32))
    requires
        quiet < i32::MAX,
        level < 8 ==> i32::MIN <= 2 * level && i32::MIN <= quiet + 1 + 2 * level <= i32::MAX,
        hp + (if level >= 8 { level - 7 } else { 1 }) + 2 <= i32::MAX,
    ensures
        exists|roll: int|
            (level >= 8 ==> rnd_result(level - 7, roll)) && (r.0 as int, r.1 as int) == #[trigger] doctored(
                level as int,
                hp as int,
                max_hp as int,
                quiet as int,
                roll,
                left_regen,
                right_regen,
            ),
{
    let q = quiet + 1;
    let mut roll: i32 = 0;
    let mut gain: i32 = 0;
    if level < 8 {
        if q + 2 * level > 20 {
            gain = 1;
        }
    } else if q >= 3 {
        roll = rnd(dice, level - 7);
        gain = roll + 1;
    }
    if left_regen {
        gain = gain + 1;
    }
    if right_regen {
        gain = gain + 1;
    }
    let h = hp + gain;
    let r = if h != hp {
        (if h > max_hp { max_hp } else { h }, 0)
    } else {
        (hp, q)
    };
    assert((r.0 as int, r.1 as int) == doctored(level as int, hp as int, max_hp as int, quiet as int, roll as int, left_regen, right_regen));
    r
}

/// The experience a hero at level `level` is raised to by a potion of
/// raise level: one more than the step of his level, where the step past
/// the last is 0.
pub open spec fn raised_exp(level: int) -> int {
    (if level - 1 < experience_steps().len() { experience_steps()[level - 1] as int } else { 0 }) + 1
}

/// See `raised_exp`.
pub fn raise_exp(level: i32) -> (e: i32)
    requires
        1 <= level <= 21,
    ensures
        e == raised_exp(level as int),
{
    let steps: Vec<i32> = vec![
        10, 20, 40, 80, 160, 320, 640, 1300, 2600, 5200, 13000, 26000, 50000, 100000, 200000, 400000, 800000,
        2000000, 4000000, 8000000,
    ];
    assert(steps@ == experience_steps());
    let i = (level - 1) as usize;
    if i < steps.len() {
        steps[i] + 1
    } else {
        1
    }
}

/// Strength `sp` changed by `amt` the way the game stores it, as an unsigned
/// number that wraps around, then kept from 3 to 31 (so that a fall below
/// zero wraps to a large number and is kept at 31).
pub open spec fn added_str(sp: u32, amt: i32) -> u32 {
    let v = ((sp as int + amt as int) % 0x1_0000_0000) as u32;
    if v < 3 { 3 } else if v > 31 { 31 } else { v }
}

/// See `added_str`.
pub fn add_str(sp: u32, amt: i32) -> (v: u32)
    ensures
        v == added_str(sp, amt),
{
    #[verifier::truncate]
    let delta = amt as u32;
    let w = sp.wrapping_add(delta);
    assert(w == ((sp as int + amt as int) % 0x1_0000_0000) as u32) by (bit_vector)
        requires
            w == sp.wrapping_add(delta),
            delta == amt as u32,
    ;
    if w < 3 {
        3
    } else if w > 31 {
        31
    } else {
        w
    }
}

proof fn lemma_steps_reached(exp: int, i: int)
    requires
        0 <= i <= 20,
    ensures
        i <= steps_reached(exp, i) <= 20,
        forall|j: int| i <= j < steps_reached(exp, i) ==> #[trigger] experience_steps()[j] <= exp,
        steps_reached(exp, i) < 20 ==> experience_steps()[steps_reached(exp, i)] > exp,
    decreases 20 - i,
{
    if i < 20 && experience_steps()[i] <= exp {
        lemma_steps_reached(exp, i + 1);
    }
}

proof fn lemma_steps_increase()
    ensures
        forall|i: int, j: int| 0 <= i < j < 20 ==> #[trigger] experience_steps()[i] < #[trigger] experience_steps()[j],
{
    let s = experience_steps();
    assert(s.len() == 20);
    assert forall|i: int, j: int| 0 <= i < j < 20 implies #[trigger] s[i] < #[trigger] s[j] by {
        assert(s[0] == 10 && s[1] == 20 && s[2] == 40 && s[3] == 80 && s[4] == 160 && s[5] == 320 && s[6] == 640
            && s[7] == 1300 && s[8] == 2600 && s[9] == 5200 && s[10] == 13000 && s[11] == 26000 && s[12] == 50000
            && s[13] == 100000 && s[14] == 200000 && s[15] == 400000 && s[16] == 800000 && s[17] == 2000000
            && s[18] == 4000000 && s[19] == 8000000);
    }
}

/// The level experience reaches: from 1 to 21, one more for each step of
/// the table that the experience has reached, so the hero is at a level
/// whose step he has reached and not the next one's; more experience never
/// means a lower level.
pub proof fn law_levels(exp: int, more: int)
    ensures
        1 <= level_for(exp) <= 21,
        exp < 10 ==> level_for(exp) == 1,
        level_for(exp) >= 2 ==> experience_steps()[level_for(exp) - 2] <= exp,
        level_for(exp) <= 20 ==> exp < experience_steps()[level_for(exp) - 1],
        exp <= more ==> level_for(exp) <= level_for(more),
{
    lemma_steps_reached(exp, 0);
    lemma_steps_reached(more, 0);
    lemma_steps_increase();
    let a = steps_reached(exp, 0);
    let b = steps_reached(more, 0);
    if exp <= more && a > b {
        assert(experience_steps()[b] <= exp);
    }
    if exp < 10 && a > 0 {
        assert(experience_steps()[0] <= exp);
    }
}

/// A potion of raise level puts the hero's experience just past the step
/// of his level, which is exactly enough for the next level.
pub proof fn law_raise_reaches_next_level(level: int)
    requires
        1 <= level <= 20,
    ensures
        level_for(raised_exp(level)) == level + 1,
{
    lemma_steps_reached(raised_exp(level), 0);
    lemma_steps_increase();
    let e = raised_exp(level);
    let a = steps_reached(e, 0);
    assert(e == experience_steps()[level - 1] + 1);
    if a < level {
        assert(experience_steps()[a] > e);
        assert(experience_steps()[a] <= experience_steps()[level - 1]);
    }
    if a > level {
        assert(experience_steps()[level] <= e);
    }
}

/// A turn of healing never takes hit points away and never raises them past
/// the maximum (when they were not past it already); the quiet count goes on
/// while nothing comes back, and starts over when something does.
pub proof fn law_doctor(level: int, hp: int, max_hp: int, quiet: int, roll: int, left_regen: bool, right_regen: bool)
    requires
        level >= 8 ==> rnd_result(level - 7, roll),
    ensures
        ({
            let (h, q) = doctored(level, hp, max_hp, quiet, roll, left_regen, right_regen);
            &&& hp <= max_hp ==> hp <= h <= max_hp
            &&& (h == hp ==> q == quiet + 1 || (q == 0 && hp == max_hp))
            &&& (h != hp ==> q == 0)
            &&& (left_regen || right_regen) && hp < max_hp ==> h > hp
        }),
{
}

} // verus!
