use vstd::prelude::*;

use rand::rngs::StdRng;
use rand::{Rng, SeedableRng};

verus! {

#[verifier::external_type_specification]
#[verifier::external_body]
pub struct ExStdRng(StdRng);

/// The game's pseudo-random number source.
///
/// Beside the generator it keeps, as ghost state, where the generator was
/// seeded from and the bounds of the draws taken from it since, so that
/// contracts can say which draws an operation takes.
pub struct Dice {
    rng: StdRng,
    origin: Ghost<Option<u64>>,
    history: Ghost<Seq<int>>,
}

/// `rand::SeedableRng::from_seed` on `StdRng`: builds a generator from a
/// 32-byte seed. Nothing is claimed of its state.
#[verifier::external_body]
fn std_rng_from_seed(seed: [u8; 32]) -> StdRng {
    StdRng::from_seed(seed)
}

/// `rand::SeedableRng::seed_from_u64` on `StdRng`: builds a generator from a
/// 64-bit seed. Nothing is claimed of its state.
#[verifier::external_body]
fn std_rng_seed_from_u64(seed: u64) -> StdRng {
    StdRng::seed_from_u64(seed)
}

/// `rand::Rng::gen_range(0..bound)` on `StdRng`: a value drawn from
/// `[0, bound)`. `gen_range` panics on an empty range, so `bound` must be
/// positive. Which value comes out depends on the generator's state, so only
/// the range is claimed.
#[verifier::external_body]
fn std_rng_below(rng: &mut StdRng, bound: i32) -> (v: i32)
    requires
        bound > 0,
    ensures
        0 <= v < bound,
{
    rng.gen_range(0..bound)
}

impl Dice {
    /// Where the generator was seeded from: `None` for the game's fixed
    /// default seed (32 bytes of `0x5e`), `Some(s)` after `set_seed` with a
    /// seed that converts to the 64-bit `s`.
    pub closed spec fn seed(&self) -> Option<u64> {
        self.origin@
    }

    /// The bounds of the draws taken from the generator since it was seeded,
    /// oldest first: a draw with bound `b` picks a value in `[0, b)`.
    pub closed spec fn draws(&self) -> Seq<int> {
        self.history@
    }

    /// A generator with the game's fixed default seed (every byte `0x5e`),
    /// from which nothing has been drawn yet.
    pub fn new() -> (d: Dice)
        ensures
            d.seed() == None::<u64>,
            d.draws() == Seq::<int>::empty(),
    {
        Dice { rng: std_rng_from_seed([0x5eu8; 32]), origin: Ghost(None), history: Ghost(Seq::empty()) }
    }
}

/// Whether `v` is a possible result of `rnd(range)`: `0` for a zero range,
/// otherwise a value in `[0, |range|)`, never negative.
pub open spec fn rnd_result(range: int, v: int) -> bool {
    if range == 0 {
        v == 0
    } else if range > 0 {
        0 <= v < range
    } else {
        0 <= v < -range
    }
}

/// A pseudo-random integer in `[0, |range|)`: the remainder of a
/// non-negative draw taken modulo the range's magnitude, so never negative.
/// A zero range yields `0` and draws nothing from the generator; any other
/// takes one draw with bound `|range|`.
pub fn rnd(dice: &mut Dice, range: i32) -> (v: i32)
    requires
        range != i32::MIN,
    ensures
        rnd_result(range as int, v as int),
        final(dice).seed() == old(dice).seed(),
        range == 0 ==> final(dice).draws() == old(dice).draws(),
        range != 0 ==> final(dice).draws() == old(dice).draws().push(if range < 0 { -range } else { range as int }),
{
    if range == 0 {
        return 0;
    }
    let magnitude = if range < 0 { -range } else { range };
    let value = std_rng_below(&mut dice.rng, magnitude);
    dice.history = Ghost(dice.history@.push(magnitude as int));
    value
}

/// The total of `number` dice of `sides` sides, each showing from 1 to
/// `sides`, where `rolls` gives what each die showed less one.
pub open spec fn dice_total(rolls: Seq<int>) -> int
    decreases rolls.len(),
{
    if rolls.len() == 0 { 0 } else { dice_total(rolls.drop_last()) + rolls.last() + 1 }
}

/// Roll `number` dice of `sides` sides and add them up: each die adds one
/// more than a draw of `rnd(sides)`.
pub fn roll(dice: &mut Dice, number: i32, sides: i32) -> (total: i32)
    requires
        sides >= 0,
        number <= 0 || number * (sides + 1) <= i32::MAX,
    ensures
        exists|rolls: Seq<int>|
            rolls.len() == (if number > 0 { number as int } else { 0 }) && (forall|i: int|
                0 <= i < rolls.len() ==> rnd_result(sides as int, #[trigger] rolls[i])) && total == dice_total(rolls),
        number > 0 && sides > 0 ==> number <= total <= number * sides,
        number <= 0 ==> total == 0,
{
    let n: i32 = if number > 0 { number } else { 0 };
    let mut total: i32 = 0;
    let mut done: i32 = 0;
    let ghost mut rolls: Seq<int> = Seq::empty();
    while done < n
        invariant
            0 <= done <= n,
            n == (if number > 0 { number as int } else { 0 }),
            n > 0 ==> n * (sides + 1) <= i32::MAX,
            sides >= 0,
            rolls.len() == done,
            forall|i: int| 0 <= i < rolls.len() ==> rnd_result(sides as int, #[trigger] rolls[i]),
            total == dice_total(rolls),
            done <= total <= done * (sides + 1),
            sides > 0 ==> total <= done * sides,
        decreases n - done,
    {
        let r = rnd(dice, sides);
        proof {
            assert(rolls.push(r as int).drop_last() =~= rolls);
            assert((done + 1) * (sides + 1) <= n * (sides + 1)) by (nonlinear_arith)
                requires
                    done + 1 <= n,
                    sides >= 0;
            assert((done + 1) * (sides + 1) == done * (sides + 1) + sides + 1) by (nonlinear_arith);
            assert((done + 1) * sides == done * sides + sides) by (nonlinear_arith);
        }
        total = total + r + 1;
        proof {
            rolls = rolls.push(r as int);
        }
        done = done + 1;
    }
    total
}

/// `a / b` rounded toward zero, as integer division in the game.
pub open spec fn div_toward_zero(a: int, b: int) -> int {
    if a >= 0 { a / b } else { -((-a) / b) }
}

/// A duration spread around `nm`: `nm` less a twentieth of it, plus a draw
/// of `rnd` a tenth of it (divisions rounded toward zero).
pub fn spread(dice: &mut Dice, nm: i32) -> (v: i32)
    requires
        i32::MIN <= nm - div_toward_zero(nm as int, 20) + div_toward_zero(nm as int, 10) <= i32::MAX,
    ensures
        exists|roll: int|
            rnd_result(div_toward_zero(nm as int, 10), roll) && v == nm - div_toward_zero(nm as int, 20) + roll,
{
    let tenth = nm / 10;
    let twentieth = nm / 20;
    assert(tenth == div_toward_zero(nm as int, 10));
    assert(twentieth == div_toward_zero(nm as int, 20));
    let r = rnd(dice, tenth);
    nm - twentieth + r
}

/// Reset the generator so startup code can reproduce a game from its seed:
/// it is seeded anew from `seed` converted to 64 bits (sign-extended), and
/// what was drawn before no longer counts.
pub fn set_seed(dice: &mut Dice, seed: i32)
    ensures
        final(dice).seed() == Some(seed as u64),
        final(dice).draws() == Seq::<int>::empty(),
{
    dice.rng = std_rng_seed_from_u64(seed as u64);
    dice.origin = Ghost(Some(seed as u64));
    dice.history = Ghost(Seq::empty());
}

} // verus!
