//! Zapping a wand or staff: spending a charge, and what each kind does.

use vstd::prelude::*;

use crate::geom::IVec2;
use crate::moves::{step_ok, walkable};
use crate::rnd::{dice_total, rnd_result, roll, Dice};
use crate::sticks::{bolt_name, bolt_of, StickType};
use crate::text::push_text;

verus! {

/// A square on the line the hero zaps along: what the screen shows there
/// and whether a monster stands there.
#[derive(Clone, Copy, Debug, PartialEq, Eq, Structural)]
pub struct ZapSquare {
    pub ch: u8,
    pub monster: bool,
}

/// What a zap meets, as the game around finds it.
pub struct ZapScene {
    /// Where the hero stands, and the direction he zaps in.
    pub hero: IVec2,
    pub dir: IVec2,
    /// The line from the hero's own square on, one step in the direction
    /// at a time, as far as the first square one cannot step on.
    pub line: Vec<ZapSquare>,
    /// Where a magic missile comes to rest, and, when a monster stands
    /// there, whether it fails its save against magic.
    pub missile_end: IVec2,
    pub missile_target: Option<bool>,
    /// For a bolt's first square: whether a monster stands there and fails
    /// its save against magic (`None` when none stands there).
    pub bolt_target: Option<bool>,
    /// The hero makes his save against magic.
    pub hero_saves: bool,
}

/// What the game around does after a zap.
#[derive(Clone, Copy, Debug, PartialEq, Eq, Structural)]
pub enum ZapWork {
    /// A magic missile hits the monster at `(y, x)`.
    MissileHits { y: i32, x: i32 },
    /// A bolt (`Elect`, `Fire` or `Cold`) hits the monster at `(y, x)`.
    BoltHits { kind: StickType, y: i32, x: i32 },
    /// The hero dies of a bolt.
    Death,
    /// Draw the bolt's mark at `(y, x)`.
    DrawBolt { y: i32, x: i32 },
}

/// What a bolt does.
#[derive(Clone, Copy, Debug, PartialEq, Eq, Structural)]
pub enum BoltOutcome {
    /// It hits the hero; `dies` when the damage is at least his hit points.
    HitsHero { dies: bool },
    /// It passes the hero, who made his save.
    WhizzesBy,
    /// It hits the monster on its square.
    HitsMonster,
    /// It hits nothing.
    Misses,
}

/// The square a bolt fired from `start` in direction `dir` lands on.
pub open spec fn bolt_square(start: IVec2, dir: IVec2) -> (int, int) {
    (start.y + dir.y, start.x + dir.x)
}

/// What a bolt fired from `start` in direction `dir` does, where `damage`
/// is the roll of six six-sided dice: landing on the hero, it hits him
/// unless he saves (`hero_saves`), and kills him when the damage is at
/// least his hit points `hp`; elsewhere it hits a monster that stands there
/// and fails its save (`target == Some(true)`) and misses otherwise.
pub open spec fn bolt_case(start: IVec2, hero: IVec2, dir: IVec2, target: Option<bool>, hero_saves: bool, hp: int, damage: int) -> BoltOutcome {
    let (y, x) = bolt_square(start, dir);
    if y == hero.y && x == hero.x {
        if hero_saves { BoltOutcome::WhizzesBy } else { BoltOutcome::HitsHero { dies: hp - damage <= 0 } }
    } else if target == Some(true) {
        BoltOutcome::HitsMonster
    } else {
        BoltOutcome::Misses
    }
}

/// Whether `damage` is a roll of six six-sided dice.
pub open spec fn six_d_six(damage: int) -> bool {
    exists|rolls: Seq<int>| rolls.len() == 6 && (forall|i: int| 0 <= i < 6 ==> rnd_result(6, #[trigger] rolls[i]))
        && damage == dice_total(rolls)
}

/// Fire a bolt (see `bolt_case`); the damage dice are rolled only when it
/// hits the hero.
pub fn bolt_outcome(dice: &mut Dice, start: IVec2, hero: IVec2, dir: IVec2, target: Option<bool>, hero_saves: bool, hp: i32) -> (o: BoltOutcome)
    requires
        i32::MIN < start.y + dir.y < i32::MAX,
        i32::MIN < start.x + dir.x < i32::MAX,
    ensures
        exists|damage: int| six_d_six(damage) && o == #[trigger] bolt_case(start, hero, dir, target, hero_saves, hp as int, damage),
{
    let y = start.y + dir.y;
    let x = start.x + dir.x;
    if y == hero.y && x == hero.x {
        if hero_saves {
            proof {
                lemma_some_roll();
                assert(BoltOutcome::WhizzesBy == bolt_case(start, hero, dir, target, hero_saves, hp as int, 6));
            }
            BoltOutcome::WhizzesBy
        } else {
            let damage = roll(dice, 6, 6);
            let o = BoltOutcome::HitsHero { dies: (hp as i64) - (damage as i64) <= 0 };
            assert(six_d_six(damage as int));
            assert(o == bolt_case(start, hero, dir, target, hero_saves, hp as int, damage as int));
            o
        }
    } else {
        let o = if target == Some(true) { BoltOutcome::HitsMonster } else { BoltOutcome::Misses };
        proof {
            lemma_some_roll();
            assert(o == bolt_case(start, hero, dir, target, hero_saves, hp as int, 6));
        }
        o
    }
}

proof fn lemma_some_roll()
    ensures
        six_d_six(6),
{
    let s0 = Seq::<int>::empty();
    let s1 = s0.push(0);
    let s2 = s1.push(0);
    let s3 = s2.push(0);
    let s4 = s3.push(0);
    let s5 = s4.push(0);
    let s6 = s5.push(0);
    assert(s1.drop_last() =~= s0);
    assert(s2.drop_last() =~= s1);
    assert(s3.drop_last() =~= s2);
    assert(s4.drop_last() =~= s3);
    assert(s5.drop_last() =~= s4);
    assert(s6.drop_last() =~= s5);
    assert(dice_total(s0) == 0);
    assert(s1.last() == 0 && s2.last() == 0 && s3.last() == 0 && s4.last() == 0 && s5.last() == 0 && s6.last() == 0);
    assert(dice_total(s1) == 1);
    assert(dice_total(s2) == 2);
    assert(dice_total(s3) == 3);
    assert(dice_total(s4) == 4);
    assert(dice_total(s5) == 5);
    assert(dice_total(s6) == 6);
    assert(forall|i: int| 0 <= i < 6 ==> rnd_result(6, #[trigger] s6[i]));
}

/// Drain life: the hero's hit points are halved when he has at least two,
/// and he feels it.
pub fn drain_hp(hp: i32) -> (r: (i32, &'static str))
    ensures
        r.0 as int == (if hp >= 2 { hp as int / 2 } else { hp as int }),
        r.1@ == "you have a tingling feeling"@,
{
    let h = if hp >= 2 { hp / 2 } else { hp };
    (h, "you have a tingling feeling")
}

/// The sticks whose spell only tells whether it reached a monster.
pub open spec fn is_spell(kind: Option<StickType>) -> bool {
    kind == Some(StickType::Invis) || kind == Some(StickType::Polymorph) || kind == Some(StickType::TelAway)
        || kind == Some(StickType::TelTo) || kind == Some(StickType::Cancel) || kind == Some(StickType::HasteM)
        || kind == Some(StickType::SlowM)
}

/// Whether the line holds a square one cannot step on.
pub open spec fn line_blocked(line: Seq<ZapSquare>) -> bool {
    exists|k: int| 0 <= k < line.len() && !walkable(#[trigger] line[k].ch)
}

/// The first square of the line one cannot step on (the length when none).
pub open spec fn first_block(line: Seq<ZapSquare>, from: int) -> int
    decreases line.len() - from,
{
    if from >= line.len() || from < 0 {
        line.len() as int
    } else if !walkable(line[from].ch) {
        from
    } else {
        first_block(line, from + 1)
    }
}

/// Whether a spell reaches a monster: one stands on the first square of the
/// line one cannot step on.
pub open spec fn spell_lands(line: Seq<ZapSquare>) -> bool {
    let k = first_block(line, 0);
    0 <= k < line.len() && line[k].monster
}

/// What a zap does, as mathematical values.
pub struct ZapCase {
    pub hp: i32,
    pub known: bool,
    pub message: Seq<char>,
    pub work: Seq<ZapWork>,
}

/// The words of a bolt's outcome.
pub open spec fn bolt_text(o: BoltOutcome) -> Seq<char> {
    match o {
        BoltOutcome::HitsHero { .. } => "the bolt hits"@,
        BoltOutcome::WhizzesBy => "the bolt whizzes by you"@,
        BoltOutcome::HitsMonster => Seq::empty(),
        BoltOutcome::Misses => "the bolt misses"@,
    }
}

/// The work a bolt of kind `kind` with outcome `o` leaves, landing at `(y, x)`.
pub open spec fn bolt_work(kind: StickType, o: BoltOutcome, y: i32, x: i32) -> Seq<ZapWork> {
    let hit = match o {
        BoltOutcome::HitsHero { dies } => if dies { seq![ZapWork::Death] } else { Seq::empty() },
        BoltOutcome::HitsMonster => seq![ZapWork::BoltHits { kind, y, x }],
        _ => Seq::empty(),
    };
    hit.push(ZapWork::DrawBolt { y, x })
}

/// What a zap that goes ahead does with a stick of kind `kind` (none when
/// the kind is not known to the game) for a hero with `hp` hit points,
/// where `damage` is the roll of a bolt that hits him: light makes itself
/// known; drain life halves his hit points; a spell only tells whether it
/// reached a monster; a magic missile hits a monster where it comes to rest
/// if that one fails its save, else vanishes; lightning, fire and cold fire
/// a bolt (see `bolt_case`); the stick of nothing does nothing; an unknown
/// kind is bizarre.
pub open spec fn zap_case(kind: Option<StickType>, hp: i32, terse: bool, s: ZapScene, damage: int) -> ZapCase {
    let plain = ZapCase { hp, known: false, message: Seq::empty(), work: Seq::empty() };
    match kind {
        None => ZapCase { message: "what a bizarre schtick!"@, ..plain },
        Some(k) => if k == StickType::Light {
            ZapCase { known: true, message: "the corridor glows and then fades"@, ..plain }
        } else if k == StickType::Drain {
            ZapCase { hp: if hp >= 2 { (hp / 2) as i32 } else { hp }, message: "you have a tingling feeling"@, ..plain }
        } else if is_spell(kind) {
            ZapCase { message: if spell_lands(s.line@) { "the spell takes effect"@ } else { Seq::empty() }, ..plain }
        } else if k == StickType::Missile {
            if s.missile_target == Some(true) {
                ZapCase { known: true, work: seq![ZapWork::MissileHits { y: s.missile_end.y, x: s.missile_end.x }], ..plain }
            } else {
                ZapCase {
                    known: true,
                    message: if terse { "missle vanishes"@ } else { "the missle vanishes with a puff of smoke"@ },
                    ..plain
                }
            }
        } else if bolt_of(k) is Some {
            let o = bolt_case(s.hero, s.hero, s.dir, s.bolt_target, s.hero_saves, hp as int, damage);
            let (y, x) = bolt_square(s.hero, s.dir);
            ZapCase { known: true, message: bolt_text(o), work: bolt_work(k, o, y as i32, x as i32), ..plain }
        } else {
            plain
        }
    }
}

/// What a zap does.
pub struct Zapped {
    /// The charges left.
    pub charges: i32,
    /// The hero's hit points afterwards.
    pub hp: i32,
    /// The kind becomes known.
    pub known: bool,
    /// What he is told; empty when nothing.
    pub message: String,
    /// The work left for the game, in order.
    pub work: Vec<ZapWork>,
}

/// Whether `z` is what zapping a stick of kind `kind` with `charges`
/// charges does for a hero with `hp` hit points: an empty stick does
/// nothing; drain life refuses a hero with fewer than two hit points;
/// otherwise a charge is spent and the zap goes ahead (see `zap_case`).
pub open spec fn zapped_as(z: Zapped, kind: Option<StickType>, charges: i32, hp: i32, terse: bool, s: ZapScene) -> bool {
    if charges == 0 {
        &&& z.charges == 0 && z.hp == hp && !z.known
        &&& z.message@ == "nothing happens"@
        &&& z.work@.len() == 0
    } else if kind == Some(StickType::Drain) && hp < 2 {
        &&& z.charges == charges && z.hp == hp && !z.known
        &&& z.message@ == "you are too weak to use it"@
        &&& z.work@.len() == 0
    } else {
        &&& z.charges == charges - 1
        &&& exists|damage: int| six_d_six(damage) && ({
            let c = #[trigger] zap_case(kind, hp, terse, s, damage);
            &&& z.hp == c.hp
            &&& z.known == c.known
            &&& z.message@ == c.message
            &&& z.work@ == c.work
        })
    }
}

fn said(t: &str) -> (m: String)
    ensures
        m@ == t@,
{
    let mut m = String::new();
    push_text(&mut m, t);
    m
}

fn probe(line: &Vec<ZapSquare>) -> (lands: bool)
    requires
        line_blocked(line@),
    ensures
        lands == spell_lands(line@),
{
    let mut k: usize = 0;
    while k < line.len()
        invariant
            k <= line@.len(),
            line_blocked(line@),
            first_block(line@, 0) == first_block(line@, k as int),
        decreases line@.len() - k,
    {
        if !step_ok(line[k].ch) {
            return line[k].monster;
        }
        k = k + 1;
    }
    proof {
        let j = choose|j: int| 0 <= j < line@.len() && !walkable(#[trigger] line@[j].ch);
        lemma_first_block_at_most(line@, 0, j);
    }
    false
}

proof fn lemma_first_block_at_most(line: Seq<ZapSquare>, from: int, j: int)
    requires
        0 <= from <= j < line.len(),
        !walkable(line[j].ch),
    ensures
        first_block(line, from) <= j,
    decreases line.len() - from,
{
    if walkable(line[from].ch) {
        lemma_first_block_at_most(line, from + 1, j);
    }
}

/// Zap a stick of kind `kind` with `charges` charges (see `zapped_as`).
pub fn zap(dice: &mut Dice, kind: Option<StickType>, charges: i32, hp: i32, terse: bool, scene: &ZapScene) -> (z: Zapped)
    requires
        charges > i32::MIN,
        is_spell(kind) ==> line_blocked(scene.line@),
        i32::MIN < scene.hero.y + scene.dir.y < i32::MAX,
        i32::MIN < scene.hero.x + scene.dir.x < i32::MAX,
    ensures
        zapped_as(z, kind, charges, hp, terse, *scene),
{
    if charges == 0 {
        return Zapped { charges, hp, known: false, message: said("nothing happens"), work: Vec::new() };
    }
    if kind == Some(StickType::Drain) && hp < 2 {
        return Zapped { charges, hp, known: false, message: said("you are too weak to use it"), work: Vec::new() };
    }
    let mut z = Zapped { charges: charges - 1, hp, known: false, message: String::new(), work: Vec::new() };
    let ghost mut damage: int = 6;
    proof {
        lemma_some_roll();
    }
    match kind {
        None => {
            z.message = said("what a bizarre schtick!");
        },
        Some(k) => {
            if k == StickType::Light {
                z.known = true;
                z.message = said("the corridor glows and then fades");
            } else if k == StickType::Drain {
                let (h, m) = drain_hp(hp);
                z.hp = h;
                z.message = said(m);
            } else if k == StickType::Invis || k == StickType::Polymorph || k == StickType::TelAway
                || k == StickType::TelTo || k == StickType::Cancel || k == StickType::HasteM || k == StickType::SlowM {
                if probe(&scene.line) {
                    z.message = said("the spell takes effect");
                }
            } else if k == StickType::Missile {
                z.known = true;
                if scene.missile_target == Some(true) {
                    z.work.push(ZapWork::MissileHits { y: scene.missile_end.y, x: scene.missile_end.x });
                } else if terse {
                    z.message = said("missle vanishes");
                } else {
                    z.message = said("the missle vanishes with a puff of smoke");
                }
            } else if bolt_name(k).is_some() {
                z.known = true;
                let o = bolt_outcome(dice, scene.hero, scene.hero, scene.dir, scene.bolt_target, scene.hero_saves, hp);
                proof {
                    damage = choose|d: int| six_d_six(d) && o == #[trigger] bolt_case(scene.hero, scene.hero, scene.dir,
                        scene.bolt_target, scene.hero_saves, hp as int, d);
                }
                let y = scene.hero.y + scene.dir.y;
                let x = scene.hero.x + scene.dir.x;
                match o {
                    BoltOutcome::HitsHero { dies } => {
                        z.message = said("the bolt hits");
                        if dies {
                            z.work.push(ZapWork::Death);
                        }
                    },
                    BoltOutcome::WhizzesBy => {
                        z.message = said("the bolt whizzes by you");
                    },
                    BoltOutcome::HitsMonster => {
                        z.work.push(ZapWork::BoltHits { kind: k, y, x });
                    },
                    BoltOutcome::Misses => {
                        z.message = said("the bolt misses");
                    },
                }
                z.work.push(ZapWork::DrawBolt { y, x });
            }
        },
    }
    proof {
        let c = zap_case(kind, hp, terse, *scene, damage);
        assert(z.work@ =~= c.work);
        assert(z.message@ =~= c.message);
    }
    z
}

/// What zapping does, whatever the dice: an empty stick does nothing; a
/// stick that goes ahead spends exactly one charge; light and the missile
/// and the three bolts make their kind known; drain life halves the hit
/// points of a hero who has at least two and leaves the others alone; a
/// spell tells of a monster exactly when one stands where it stops; a bolt
/// always leaves its mark one step from the hero, and a missile hits exactly
/// when a monster that fails its save stands where it rests.
pub proof fn law_zap_effects(z: Zapped, kind: Option<StickType>, charges: i32, hp: i32, terse: bool, s: ZapScene)
    requires
        charges > i32::MIN,
        zapped_as(z, kind, charges, hp, terse, s),
    ensures
        charges == 0 ==> z.charges == 0 && z.work@.len() == 0 && z.hp == hp,
        charges != 0 && !(kind == Some(StickType::Drain) && hp < 2) ==> z.charges == charges - 1,
        kind == Some(StickType::Drain) && hp < 2 ==> z.charges == charges && z.hp == hp,
        charges != 0 && kind == Some(StickType::Drain) && hp >= 2 ==> z.hp == hp / 2 && z.hp < hp,
        charges != 0 && kind != Some(StickType::Drain) ==> z.hp == hp,
        charges != 0 && (kind == Some(StickType::Light) || kind == Some(StickType::Missile) || kind == Some(StickType::Elect)
            || kind == Some(StickType::Fire) || kind == Some(StickType::Cold)) ==> z.known,
        charges != 0 && is_spell(kind) ==> (z.message@ == "the spell takes effect"@ <==> spell_lands(s.line@)),
        charges != 0 && (kind == Some(StickType::Elect) || kind == Some(StickType::Fire) || kind == Some(StickType::Cold))
            ==> z.work@.len() > 0 && z.work@.last() == (ZapWork::DrawBolt { y: (s.hero.y + s.dir.y) as i32, x: (s.hero.x + s.dir.x) as i32 }),
        charges != 0 && kind == Some(StickType::Missile) ==> (s.missile_target == Some(true)
            <==> z.work@.contains(ZapWork::MissileHits { y: s.missile_end.y, x: s.missile_end.x })),
{
    if charges != 0 && !(kind == Some(StickType::Drain) && hp < 2) {
        let damage = choose|damage: int| six_d_six(damage) && ({
            let c = #[trigger] zap_case(kind, hp, terse, s, damage);
            &&& z.hp == c.hp
            &&& z.known == c.known
            &&& z.message@ == c.message
            &&& z.work@ == c.work
        });
        let c = zap_case(kind, hp, terse, s, damage);
        if kind == Some(StickType::Missile) {
            if s.missile_target == Some(true) {
                assert(z.work@[0] == ZapWork::MissileHits { y: s.missile_end.y, x: s.missile_end.x });
            } else {
                assert(z.work@.len() == 0);
            }
        }
        if is_spell(kind) {
            assert("the spell takes effect"@.len() > 0) by {
                reveal_strlit("the spell takes effect");
            }
        }
    }
}

} // verus!
