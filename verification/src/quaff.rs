//! Drinking a potion: what each kind does to the hero, what he is told, and
//! the work it leaves for the rest of the game.

use vstd::prelude::*;

use crate::effects::{add_str, added_str, change_strength, heal, healed, strength_after};
use crate::potions::{add_haste, haste_of, start_trip, trip_flags, trip_message, trip_of, trip_text, potion_trip, Haste,
    ISHALU, CANSEE, P_CONFUSE, P_LSD, P_SEEINVIS, P_BLIND, P_LEVIT};
use crate::rnd::{dice_total, div_toward_zero, rnd, rnd_result, roll, spread, Dice};
use crate::pack::{after_leave, splits, Pack};
use crate::text::push_text;
use crate::wizard::POTION;

verus! {

pub const P_POISON: i32 = 2;
pub const P_STRENGTH: i32 = 3;
pub const P_HEALING: i32 = 5;
pub const P_MFIND: i32 = 6;
pub const P_TFIND: i32 = 7;
pub const P_RAISE: i32 = 8;
pub const P_XHEAL: i32 = 9;
pub const P_HASTE: i32 = 10;
pub const P_RESTORE: i32 = 11;

/// The hero is hasted.
pub const ISHASTE: i32 = 0o100;
/// The hero is running.
pub const ISRUN: i32 = 0o20000;
/// The hero senses monsters.
pub const SEEMONST: i32 = 0o40000;

/// A ring on one of the hero's hands: its bonus, and whether it is a ring
/// of add strength.
#[derive(Clone, Copy, Debug, PartialEq, Eq, Structural)]
pub struct WornRing {
    pub bonus: i32,
    pub adds_strength: bool,
}

/// What of the hero a potion reads and changes.
#[derive(Clone, Copy, Debug, PartialEq, Eq, Structural)]
pub struct Drinker {
    pub hp: i32,
    pub max_hp: i32,
    pub level: i32,
    pub strength: u32,
    /// The best strength the hero reached.
    pub max_strength: u32,
    pub flags: i32,
    /// The ring worn on the left hand.
    pub left_ring: Option<WornRing>,
    /// The ring worn on the right hand.
    pub right_ring: Option<WornRing>,
    /// A ring of sustain strength is worn.
    pub sustain: bool,
}

/// What the game around does after a potion, in order.
#[derive(Clone, Copy, Debug, PartialEq, Eq, Structural)]
pub enum Followup {
    /// A state of `trip_of` started: set a timer of `turns` to end it and
    /// look around.
    StartTimer { state: i32, turns: i32 },
    /// The hero was in that state already: lengthen its timer by `turns`.
    Lengthen { state: i32, turns: i32 },
    /// Show the monsters he now senses, and set a timer of `potions::HUHDURATION`
    /// to end it.
    SenseMonsters,
    /// Stop showing sensed monsters, start the hallucination visuals and
    /// look again whether he has seen the stairs.
    StartVisuals,
    /// Stop showing sensed monsters only.
    HideMonsters,
    /// Show the magic of the level in a window.
    ShowMagic,
    /// Show the invisible monsters he now sees.
    InvisOn,
    /// He may see again.
    Sight,
    /// He stops hallucinating.
    ComeDown,
    /// He goes up a level.
    RaiseLevel,
    /// Drinking takes no turn.
    NoTurn,
    /// Haste, or exhaustion, as `add_haste` decided.
    Haste(Haste),
}

/// What a potion does.
pub struct Quaffed {
    /// The hero afterwards.
    pub drinker: Drinker,
    /// The kind becomes known.
    pub known: bool,
    /// What he is told; empty when nothing.
    pub message: String,
    /// The work left for the game, in order.
    pub followups: Vec<Followup>,
    /// A potion of no known kind: nothing else happens (no status line, no
    /// naming, the potion is not discarded).
    pub odd: bool,
}

/// What a potion does, as mathematical values.
pub struct PotionCase {
    pub drinker: Drinker,
    pub known: bool,
    pub message: Seq<char>,
    pub followups: Seq<Followup>,
    pub odd: bool,
}

/// The strength change of `d` by `amt`, as `strength_after` gives it with
/// the bonuses of both rings.
pub open spec fn stronger(d: Drinker, amt: int) -> Drinker {
    let (s, best) = strength_after(d.strength as int, amt, ring_bonus(d.left_ring), ring_bonus(d.right_ring),
        d.max_strength as int);
    Drinker { strength: s as u32, max_strength: best as u32, ..d }
}

/// The bonus of a worn ring.
pub open spec fn ring_bonus(r: Option<WornRing>) -> Option<i32> {
    match r {
        Some(w) => Some(w.bonus),
        None => None,
    }
}

/// The strength bonus of a worn ring of add strength, as a change.
pub open spec fn add_bonus(s: u32, r: Option<WornRing>, sign: int) -> u32 {
    match r {
        Some(w) => if w.adds_strength { added_str(s, (sign * w.bonus) as i32) } else { s },
        _ => s,
    }
}

/// Strength after a potion of restore strength: the rings of add strength
/// are taken off, the strength is raised to the best, and the rings are
/// put back.
pub open spec fn restored(d: Drinker) -> u32 {
    let s = add_bonus(add_bonus(d.strength, d.left_ring, -1), d.right_ring, -1);
    let s2 = if s < d.max_strength { d.max_strength } else { s };
    add_bonus(add_bonus(s2, d.left_ring, 1), d.right_ring, 1)
}

/// What a state-changing potion does (see `trip_of`), where `turns` is the
/// spread of its duration.
pub open spec fn tripped(d: Drinker, which: i32, known: bool, turns: int, taste: Seq<char>) -> PotionCase {
    let (state, _) = trip_of(which)->Some_0;
    let (flags, fresh) = trip_flags(d.flags, state);
    PotionCase {
        drinker: Drinker { flags, ..d },
        known,
        message: trip_text(which, d.flags & ISHALU != 0, taste),
        followups: seq![if fresh { Followup::StartTimer { state, turns: turns as i32 } } else {
            Followup::Lengthen { state, turns: turns as i32 }
        }],
        odd: false,
    }
}

/// The words of a feeling that passes.
pub open spec fn passing_feeling(tripping: bool) -> Seq<char> {
    if tripping {
        "you have a strange feeling for a moment, then it passes"@
    } else {
        "you have a normal feeling for a moment, then it passes"@
    }
}

/// What a potion of kind `which` does to `d` (see `Quaffed`), where `luck`
/// is its draw (the strength lost to poison, the hit points healed, or the
/// spread duration of a state) and `haste` what hasting gave. `sensed`
/// tells whether the hero now senses some monster, `magic` whether the
/// level holds magic, `taste` what a potion of see invisible tastes of.
pub open spec fn potion_case(d: Drinker, which: i32, luck: int, haste: Haste, sensed: bool, magic: bool, taste: Seq<char>) -> PotionCase {
    let tripping = d.flags & ISHALU != 0;
    let plain = PotionCase { drinker: d, known: true, message: Seq::empty(), followups: Seq::empty(), odd: false };
    if which == P_CONFUSE {
        tripped(d, which, !tripping, luck, taste)
    } else if which == P_POISON {
        if d.sustain {
            PotionCase { message: "you feel momentarily sick"@, ..plain }
        } else {
            PotionCase {
                drinker: stronger(d, -luck),
                message: "you feel very sick now"@,
                followups: seq![Followup::ComeDown],
                ..plain
            }
        }
    } else if which == P_HEALING || which == P_XHEAL {
        let (hp, max_hp) = healed(d.hp as int, d.max_hp as int, luck, d.level as int, which == P_XHEAL);
        PotionCase {
            drinker: Drinker { hp: hp as i32, max_hp: max_hp as i32, ..d },
            message: if which == P_HEALING { "you begin to feel better"@ } else { "you begin to feel much better"@ },
            followups: if which == P_HEALING { seq![Followup::Sight] } else { seq![Followup::Sight, Followup::ComeDown] },
            ..plain
        }
    } else if which == P_STRENGTH {
        PotionCase { drinker: stronger(d, 1), message: "you feel stronger, now.  What bulging muscles!"@, ..plain }
    } else if which == P_MFIND {
        PotionCase {
            drinker: Drinker { flags: d.flags | SEEMONST, ..d },
            known: false,
            message: if sensed { Seq::empty() } else { passing_feeling(tripping) },
            followups: seq![Followup::SenseMonsters],
            ..plain
        }
    } else if which == P_TFIND {
        if magic {
            PotionCase { followups: seq![Followup::ShowMagic], ..plain }
        } else {
            PotionCase { known: false, message: passing_feeling(tripping), ..plain }
        }
    } else if which == P_LSD {
        let c = tripped(d, which, true, luck, taste);
        if tripping {
            c
        } else if d.flags & SEEMONST != 0 {
            PotionCase { followups: seq![Followup::HideMonsters, Followup::StartVisuals] + c.followups, ..c }
        } else {
            PotionCase { followups: seq![Followup::StartVisuals] + c.followups, ..c }
        }
    } else if which == P_SEEINVIS {
        let c = tripped(d, which, false, luck, taste);
        PotionCase {
            followups: c.followups + (if d.flags & CANSEE != 0 { seq![Followup::Sight] } else {
                seq![Followup::InvisOn, Followup::Sight]
            }),
            ..c
        }
    } else if which == P_RAISE {
        PotionCase {
            message: "you suddenly feel much more skillful"@,
            followups: seq![Followup::RaiseLevel],
            ..plain
        }
    } else if which == P_HASTE {
        match haste {
            Haste::Exhausted { .. } => PotionCase {
                drinker: Drinker { flags: d.flags & !(ISRUN | ISHASTE), ..d },
                message: "you faint from exhaustion"@,
                followups: seq![Followup::NoTurn, Followup::Haste(haste)],
                ..plain
            },
            Haste::Hasted { .. } => PotionCase {
                drinker: Drinker { flags: d.flags | ISHASTE, ..d },
                message: "you feel yourself moving much faster"@,
                followups: seq![Followup::NoTurn, Followup::Haste(haste)],
                ..plain
            },
        }
    } else if which == P_RESTORE {
        PotionCase {
            drinker: Drinker { strength: restored(d), ..d },
            known: false,
            message: "hey, this tastes great.  It make you feel warm all over"@,
            ..plain
        }
    } else if which == P_BLIND || which == P_LEVIT {
        tripped(d, which, true, luck, taste)
    } else {
        PotionCase { known: false, message: "what an odd tasting potion!"@, odd: true, ..plain }
    }
}

/// Whether `luck` is a draw that a potion of kind `which` may take: the
/// one to three points of strength poison takes, the total of the hero's
/// level in dice of four (of eight for extra healing), or a spread of the
/// duration of the state it starts.
pub open spec fn luck_of(d: Drinker, which: i32, luck: int) -> bool {
    if which == P_POISON {
        !d.sustain ==> 1 <= luck <= 3
    } else if which == P_HEALING || which == P_XHEAL {
        let sides: int = if which == P_HEALING { 4 } else { 8 };
        exists|rolls: Seq<int>| rolls.len() == (if d.level > 0 { d.level as int } else { 0 })
            && (forall|i: int| 0 <= i < rolls.len() ==> rnd_result(sides, #[trigger] rolls[i])) && luck == dice_total(rolls)
    } else if trip_of(which) is Some {
        let base = trip_of(which)->Some_0.1 as int;
        exists|roll: int| rnd_result(div_toward_zero(base, 10), roll) && luck == base - div_toward_zero(base, 20) + roll
    } else {
        true
    }
}

/// Whether `q` is the case `c`.
pub open spec fn quaffed_as(q: Quaffed, c: PotionCase) -> bool {
    &&& q.drinker == c.drinker
    &&& q.known == c.known
    &&& q.message@ == c.message
    &&& q.followups@ == c.followups
    &&& q.odd == c.odd
}

/// Whether `q` is what drinking a potion of kind `which` may do (see
/// `potion_case`), for some draw the dice may give.
pub open spec fn quaff_as(q: Quaffed, d: Drinker, which: i32, sensed: bool, magic: bool, taste: Seq<char>) -> bool {
    exists|luck: int, haste: Haste| luck_of(d, which, luck) && haste_from(d, which, haste)
        && quaffed_as(q, #[trigger] potion_case(d, which, luck, haste, sensed, magic, taste))
}

/// Whether the hero `d` is hasted.
pub open spec fn is_hasted(d: Drinker) -> bool {
    d.flags & ISHASTE != 0
}

/// Whether `haste` is what hasting may give the hero `d`.
pub open spec fn haste_from(d: Drinker, which: i32, haste: Haste) -> bool {
    which == P_HASTE ==> exists|lost: int, turns: int| 0 <= lost < 8 && 4 <= turns < 8
        && haste == #[trigger] haste_of(is_hasted(d), true, lost, turns)
}

/// The numbers of `d` leave room for any potion: healing and strength stay
/// within machine integers.
pub open spec fn drinkable(d: Drinker) -> bool {
    &&& d.level <= 0 || d.level * 9 <= i32::MAX
    &&& 0 <= d.hp && 0 <= d.max_hp
    &&& d.hp + 8 * (if d.level > 0 { d.level as int } else { 0 }) <= i32::MAX
    &&& d.max_hp + d.level + 1 <= i32::MAX
    &&& d.max_hp + 2 <= i32::MAX
    &&& d.level >= -1
    &&& d.strength <= i32::MAX - 1
    &&& d.max_strength <= i32::MAX
    &&& (d.left_ring matches Some(w) ==> -0x1000_0000 <= w.bonus <= 0x1000_0000)
    &&& (d.right_ring matches Some(w) ==> -0x1000_0000 <= w.bonus <= 0x1000_0000)
}

fn bonus(r: Option<WornRing>) -> (b: Option<i32>)
    ensures
        b == ring_bonus(r),
{
    match r {
        Some(w) => Some(w.bonus),
        None => None,
    }
}

fn strengthen(d: Drinker, amt: i32) -> (r: Drinker)
    requires
        drinkable(d),
        -3 <= amt <= 1,
        amt != 0,
    ensures
        r == stronger(d, amt as int),
{
    let (s, best) = change_strength(d.strength as i32, amt, bonus(d.left_ring), bonus(d.right_ring), d.max_strength as i32);
    Drinker { strength: s as u32, max_strength: best as u32, ..d }
}

fn ring_add(s: u32, r: Option<WornRing>, sign: i32) -> (v: u32)
    requires
        sign == 1 || sign == -1,
        r matches Some(w) ==> -0x1000_0000 <= w.bonus <= 0x1000_0000,
    ensures
        v == add_bonus(s, r, sign as int),
{
    match r {
        Some(w) => if w.adds_strength { add_str(s, sign * w.bonus) } else { s },
        _ => s,
    }
}

fn restore(d: Drinker) -> (s: u32)
    requires
        drinkable(d),
    ensures
        s == restored(d),
{
    let s = ring_add(ring_add(d.strength, d.left_ring, -1), d.right_ring, -1);
    let s2 = if s < d.max_strength { d.max_strength } else { s };
    ring_add(ring_add(s2, d.left_ring, 1), d.right_ring, 1)
}

fn start_state(dice: &mut Dice, d: Drinker, which: i32, known: bool, taste: &str) -> (r: (Drinker, bool, String, Followup))
    requires
        trip_of(which) is Some,
    ensures
        exists|luck: int| luck_of(d, which, luck) && ({
            let c = tripped(d, which, known, luck, taste@);
            &&& r.0 == c.drinker
            &&& r.1 == c.known
            &&& r.2@ == c.message
            &&& c.followups == seq![r.3]
        }),
{
    let (state, base) = match potion_trip(which) {
        Some(t) => t,
        None => (0, 0),
    };
    let turns = spread(dice, base);
    let (flags, fresh) = start_trip(d.flags, state);
    let message = trip_message(which, d.flags & ISHALU != 0, taste);
    let f = if fresh { Followup::StartTimer { state, turns } } else { Followup::Lengthen { state, turns } };
    let r = (Drinker { flags, ..d }, known, message, f);
    proof {
        let c = tripped(d, which, known, turns as int, taste@);
        assert(c.followups =~= seq![f]);
        assert(luck_of(d, which, turns as int));
    }
    r
}

fn passing(tripping: bool) -> (m: String)
    ensures
        m@ == passing_feeling(tripping),
{
    let mut m = String::new();
    if tripping {
        push_text(&mut m, "you have a strange feeling for a moment, then it passes");
    } else {
        push_text(&mut m, "you have a normal feeling for a moment, then it passes");
    }
    m
}

fn said(t: &str) -> (m: String)
    ensures
        m@ == t@,
{
    let mut m = String::new();
    push_text(&mut m, t);
    m
}

/// Drink a potion of kind `which` (see `potion_case`): `sensed` is whether
/// the hero senses a monster once he senses them, `magic` whether the
/// level holds magic, `taste` what a potion of see invisible tastes of.
pub fn quaff(dice: &mut Dice, d: Drinker, which: i32, sensed: bool, magic: bool, taste: &str) -> (q: Quaffed)
    requires
        drinkable(d),
    ensures
        quaff_as(q, d, which, sensed, magic, taste@),
{
    let tripping = d.flags & ISHALU != 0;
    let none = Haste::Hasted { turns: None };
    if which == P_CONFUSE || which == P_BLIND || which == P_LEVIT || which == P_SEEINVIS || which == P_LSD {
        let known = if which == P_CONFUSE { !tripping } else { which != P_SEEINVIS };
        let (dr, kn, message, f) = start_state(dice, d, which, known, taste);
        let mut followups: Vec<Followup> = Vec::new();
        if which == P_LSD && !tripping {
            if d.flags & SEEMONST != 0 {
                followups.push(Followup::HideMonsters);
            }
            followups.push(Followup::StartVisuals);
        }
        followups.push(f);
        if which == P_SEEINVIS {
            if d.flags & CANSEE == 0 {
                followups.push(Followup::InvisOn);
            }
            followups.push(Followup::Sight);
        }
        let q = Quaffed { drinker: dr, known: kn, message, followups, odd: false };
        proof {
            let luck = choose|luck: int| luck_of(d, which, luck) && ({
                let c = tripped(d, which, known, luck, taste@);
                &&& dr == c.drinker
                &&& kn == c.known
                &&& message@ == c.message
                &&& c.followups == seq![f]
            });
            let c = potion_case(d, which, luck, none, sensed, magic, taste@);
            assert(q.followups@ =~= c.followups);
        }
        return q;
    }
    if which == P_POISON {
        if d.sustain {
            let q = Quaffed { drinker: d, known: true, message: said("you feel momentarily sick"), followups: Vec::new(), odd: false };
            proof {
                assert(q.followups@ =~= potion_case(d, which, 0, none, sensed, magic, taste@).followups);
            assert(luck_of(d, which, 0) && haste_from(d, which, none) && quaffed_as(q, potion_case(d, which, 0, none, sensed, magic, taste@)));
            }
            return q;
        }
        let lost = rnd(dice, 3) + 1;
        let q = Quaffed {
            drinker: strengthen(d, -lost),
            known: true,
            message: said("you feel very sick now"),
            followups: vec![Followup::ComeDown],
            odd: false,
        };
        proof {
            assert(q.followups@ =~= potion_case(d, which, lost as int, none, sensed, magic, taste@).followups);
            assert(luck_of(d, which, lost as int) && haste_from(d, which, none) && quaffed_as(q, potion_case(d, which, lost as int, none, sensed, magic, taste@)));
        }
        return q;
    }
    if which == P_HEALING || which == P_XHEAL {
        let extra = which == P_XHEAL;
        let sides: i32 = if extra { 8 } else { 4 };
        let gain = roll(dice, d.level, sides);
        let (hp, max_hp) = heal(d.hp, d.max_hp, gain, d.level, extra);
        let mut followups: Vec<Followup> = vec![Followup::Sight];
        if extra {
            followups.push(Followup::ComeDown);
        }
        let message = if extra { said("you begin to feel much better") } else { said("you begin to feel better") };
        let q = Quaffed { drinker: Drinker { hp, max_hp, ..d }, known: true, message, followups, odd: false };
        proof {
            assert(q.followups@ =~= potion_case(d, which, gain as int, none, sensed, magic, taste@).followups);
            assert(luck_of(d, which, gain as int) && haste_from(d, which, none) && quaffed_as(q, potion_case(d, which, gain as int, none, sensed, magic, taste@)));
            assert(luck_of(d, which, gain as int));
        }
        return q;
    }
    if which == P_STRENGTH {
        let q = Quaffed {
            drinker: strengthen(d, 1),
            known: true,
            message: said("you feel stronger, now.  What bulging muscles!"),
            followups: Vec::new(),
            odd: false,
        };
        proof {
            assert(q.followups@ =~= potion_case(d, which, 0, none, sensed, magic, taste@).followups);
            assert(luck_of(d, which, 0) && haste_from(d, which, none) && quaffed_as(q, potion_case(d, which, 0, none, sensed, magic, taste@)));
        }
        return q;
    }
    if which == P_MFIND {
        let message = if sensed { String::new() } else { passing(tripping) };
        let q = Quaffed {
            drinker: Drinker { flags: d.flags | SEEMONST, ..d },
            known: false,
            message,
            followups: vec![Followup::SenseMonsters],
            odd: false,
        };
        proof {
            assert(q.followups@ =~= potion_case(d, which, 0, none, sensed, magic, taste@).followups);
            assert(luck_of(d, which, 0) && haste_from(d, which, none) && quaffed_as(q, potion_case(d, which, 0, none, sensed, magic, taste@)));
            assert(q.message@ =~= potion_case(d, which, 0, none, sensed, magic, taste@).message);
        }
        return q;
    }
    if which == P_TFIND {
        let q = if magic {
            Quaffed { drinker: d, known: true, message: String::new(), followups: vec![Followup::ShowMagic], odd: false }
        } else {
            Quaffed { drinker: d, known: false, message: passing(tripping), followups: Vec::new(), odd: false }
        };
        proof {
            assert(q.followups@ =~= potion_case(d, which, 0, none, sensed, magic, taste@).followups);
            assert(luck_of(d, which, 0) && haste_from(d, which, none) && quaffed_as(q, potion_case(d, which, 0, none, sensed, magic, taste@)));
            assert(q.message@ =~= potion_case(d, which, 0, none, sensed, magic, taste@).message);
        }
        return q;
    }
    if which == P_RAISE {
        let q = Quaffed {
            drinker: d,
            known: true,
            message: said("you suddenly feel much more skillful"),
            followups: vec![Followup::RaiseLevel],
            odd: false,
        };
        proof {
            assert(q.followups@ =~= potion_case(d, which, 0, none, sensed, magic, taste@).followups);
            assert(luck_of(d, which, 0) && haste_from(d, which, none) && quaffed_as(q, potion_case(d, which, 0, none, sensed, magic, taste@)));
        }
        return q;
    }
    if which == P_HASTE {
        let h = add_haste(dice, d.flags & ISHASTE != 0, true);
        let (drinker, message) = match h {
            Haste::Exhausted { .. } => (Drinker { flags: d.flags & !(ISRUN | ISHASTE), ..d }, said("you faint from exhaustion")),
            Haste::Hasted { .. } => (Drinker { flags: d.flags | ISHASTE, ..d }, said("you feel yourself moving much faster")),
        };
        let q = Quaffed { drinker, known: true, message, followups: vec![Followup::NoTurn, Followup::Haste(h)], odd: false };
        proof {
            assert(q.followups@ =~= potion_case(d, which, 0, h, sensed, magic, taste@).followups);
            assert(luck_of(d, which, 0) && haste_from(d, which, h) && quaffed_as(q, potion_case(d, which, 0, h, sensed, magic, taste@)));
        }
        return q;
    }
    if which == P_RESTORE {
        let q = Quaffed {
            drinker: Drinker { strength: restore(d), ..d },
            known: false,
            message: said("hey, this tastes great.  It make you feel warm all over"),
            followups: Vec::new(),
            odd: false,
        };
        proof {
            assert(q.followups@ =~= potion_case(d, which, 0, none, sensed, magic, taste@).followups);
            assert(luck_of(d, which, 0) && haste_from(d, which, none) && quaffed_as(q, potion_case(d, which, 0, none, sensed, magic, taste@)));
        }
        return q;
    }
    let q = Quaffed { drinker: d, known: false, message: said("what an odd tasting potion!"), followups: Vec::new(), odd: true };
    proof {
        assert(q.followups@ =~= potion_case(d, which, 0, none, sensed, magic, taste@).followups);
            assert(luck_of(d, which, 0) && haste_from(d, which, none) && quaffed_as(q, potion_case(d, which, 0, none, sensed, magic, taste@)));
    }
    q
}

/// What a hero who is not drinking a potion is told.
pub open spec fn undrinkable_text(terse: bool) -> Seq<char> {
    if terse { "that's undrinkable"@ } else { "yuk! Why would you want to drink that?"@ }
}

/// What drinking an item of the pack does.
pub enum DrinkItem {
    /// It is no potion: the hero is told so, and nothing else happens.
    NotAPotion { message: &'static str },
    /// The potion was drunk (see `quaff`); it left the pack, and is thrown
    /// away when it was the last of its entry and of a known sort
    /// (`discard`). `unwield` tells that it was the item in the hero's hand,
    /// which is now empty.
    Drunk { quaffed: Quaffed, discard: bool, unwield: bool },
}

/// Drink the potion in entry `at` of `pack` (`wielding` tells whether it is
/// the item in the hero's hand): an item that is no potion is refused with
/// `undrinkable_text`; a potion leaves the pack one at a time
/// (`after_leave`) and is drunk (see `quaff`).
pub fn drink_item(
    dice: &mut Dice,
    pack: &mut Pack,
    at: usize,
    wielding: bool,
    terse: bool,
    d: Drinker,
    sensed: bool,
    magic: bool,
    taste: &str,
) -> (out: DrinkItem)
    requires
        old(pack).wf(),
        at < old(pack)@.items.len(),
        old(pack)@.carried > i32::MIN,
        !splits(old(pack)@.items[at as int], false) ==> 97 <= old(pack)@.items[at as int].letter < 123,
        drinkable(d),
    ensures
        final(pack).wf(),
        ({
            let e = old(pack)@.items[at as int];
            match out {
                DrinkItem::NotAPotion { message } => {
                    &&& e.kind != POTION
                    &&& message@ == undrinkable_text(terse)
                    &&& final(pack)@ == old(pack)@
                },
                DrinkItem::Drunk { quaffed, discard, unwield } => {
                    &&& e.kind == POTION
                    &&& final(pack)@ == after_leave(old(pack)@, at as int, false)
                    &&& discard == (!splits(e, false) && !quaffed.odd)
                    &&& unwield == wielding
                    &&& quaff_as(quaffed, d, e.which, sensed, magic, taste@)
                },
            }
        }),
{
    let e = pack.items()[at];
    if e.kind != POTION {
        let message = if terse { "that's undrinkable" } else { "yuk! Why would you want to drink that?" };
        return DrinkItem::NotAPotion { message };
    }
    let (_, left) = pack.leave_pack(at, false, false);
    let quaffed = quaff(dice, d, e.which, sensed, magic, taste);
    let discard = left && !quaffed.odd;
    DrinkItem::Drunk { quaffed, discard, unwield: wielding }
}

proof fn lemma_flag_set(f: i32, st: i32)
    ensures
        st != 0 ==> ((f | st) & st) != 0,
{
    assert(st != 0 ==> ((f | st) & st) != 0) by (bit_vector);
}

proof fn lemma_dice_at_least(rolls: Seq<int>, sides: int)
    requires
        forall|i: int| 0 <= i < rolls.len() ==> rnd_result(sides, #[trigger] rolls[i]),
        sides > 0,
    ensures
        dice_total(rolls) >= rolls.len(),
    decreases rolls.len(),
{
    if rolls.len() > 0 {
        let p = rolls.drop_last();
        assert forall|i: int| 0 <= i < p.len() implies rnd_result(sides, #[trigger] p[i]) by {
            assert(p[i] == rolls[i]);
        }
        lemma_dice_at_least(p, sides);
        assert(rnd_result(sides, rolls[rolls.len() - 1]));
    }
}

proof fn lemma_dice_at_most(rolls: Seq<int>, sides: int)
    requires
        forall|i: int| 0 <= i < rolls.len() ==> rnd_result(sides, #[trigger] rolls[i]),
        sides > 0,
    ensures
        dice_total(rolls) <= sides * rolls.len(),
    decreases rolls.len(),
{
    if rolls.len() > 0 {
        let p = rolls.drop_last();
        assert forall|i: int| 0 <= i < p.len() implies rnd_result(sides, #[trigger] p[i]) by {
            assert(p[i] == rolls[i]);
        }
        lemma_dice_at_most(p, sides);
        assert(rnd_result(sides, rolls[rolls.len() - 1]));
        assert(sides * rolls.len() == sides * p.len() + sides) by (nonlinear_arith)
            requires rolls.len() == p.len() + 1;
    }
}

/// What each potion does for its drinker, whatever the dice: raise level
/// asks for the hero's level to go up; healing and extra healing restore
/// hit points (a hero of some level, not past his maximum, gains some and never
/// passes his new maximum) and let him see; extra healing also ends a trip;
/// poison takes strength unless a ring sustains it; strength adds one;
/// haste makes the game haste (or exhaust) the hero and takes no turn;
/// monster detection makes him sense monsters; magic detection shows magic
/// exactly when there is some; the potions of a state put him in that state
/// (a timer starts, or a running one is lengthened); and only a potion of
/// no known kind is odd.
pub proof fn law_potion_effects(q: Quaffed, d: Drinker, which: i32, sensed: bool, magic: bool, taste: Seq<char>)
    requires
        drinkable(d),
        quaff_as(q, d, which, sensed, magic, taste),
    ensures
        which == P_RAISE ==> q.followups@.contains(Followup::RaiseLevel) && q.known
            && q.message@ == "you suddenly feel much more skillful"@,
        (which == P_HEALING || which == P_XHEAL) ==> q.followups@.contains(Followup::Sight)
            && q.drinker.max_hp >= d.max_hp && q.known
            && (d.level >= 1 && d.hp <= d.max_hp ==> d.hp < q.drinker.hp <= q.drinker.max_hp),
        which == P_XHEAL ==> q.followups@.contains(Followup::ComeDown),
        which == P_POISON ==> q.known && (d.sustain ==> q.drinker == d)
            && (!d.sustain && 3 < d.strength <= 31 ==> q.drinker.strength < d.strength),
        which == P_STRENGTH ==> q.known && (3 <= d.strength < 31 ==> q.drinker.strength == d.strength + 1)
            && q.drinker.max_strength >= d.max_strength,
        which == P_HASTE ==> q.followups@.contains(Followup::NoTurn)
            && exists|h: Haste| q.followups@.contains(Followup::Haste(h)),
        which == P_MFIND ==> q.drinker.flags & SEEMONST != 0 && q.followups@.contains(Followup::SenseMonsters),
        which == P_TFIND ==> q.known == magic && (q.followups@.contains(Followup::ShowMagic) <==> magic),
        trip_of(which) matches Some((state, _)) ==> q.drinker.flags & state != 0
            && exists|turns: i32| q.followups@.contains(Followup::StartTimer { state, turns })
                || q.followups@.contains(Followup::Lengthen { state, turns }),
        q.odd <==> !(0 <= which <= 13),
{
    let (luck, haste) = choose|luck: int, haste: Haste| luck_of(d, which, luck) && haste_from(d, which, haste)
        && quaffed_as(q, #[trigger] potion_case(d, which, luck, haste, sensed, magic, taste));
    let c = potion_case(d, which, luck, haste, sensed, magic, taste);
    if which == P_RAISE {
        assert(q.followups@[0] == Followup::RaiseLevel);
    } else if which == P_HEALING || which == P_XHEAL {
        assert(q.followups@[0] == Followup::Sight);
        if which == P_XHEAL {
            assert(q.followups@[1] == Followup::ComeDown);
        }
        if d.level >= 1 && d.hp <= d.max_hp {
            let sides: int = if which == P_HEALING { 4 } else { 8 };
            let rolls = choose|rolls: Seq<int>| rolls.len() == (if d.level > 0 { d.level as int } else { 0 })
                && (forall|i: int| 0 <= i < rolls.len() ==> rnd_result(sides, #[trigger] rolls[i])) && luck == dice_total(rolls);
            lemma_dice_at_least(rolls, sides);
            lemma_dice_at_most(rolls, sides);
            assert(luck <= 8 * d.level) by (nonlinear_arith)
                requires luck <= sides * d.level, sides <= 8, d.level >= 1;
        }
    } else if which == P_HASTE {
        assert(q.followups@[0] == Followup::NoTurn);
        assert(q.followups@[1] == Followup::Haste(haste));
        assert(q.followups@.contains(Followup::Haste(haste)));
    } else if which == P_STRENGTH {
        let (st, best) = strength_after(d.strength as int, 1, ring_bonus(d.left_ring), ring_bonus(d.right_ring), d.max_strength as int);
        assert(best >= d.max_strength);
        assert(3 <= d.strength < 31 ==> st == d.strength + 1);
    } else if which == P_MFIND {
        lemma_flag_set(d.flags, SEEMONST);
        assert(q.followups@[0] == Followup::SenseMonsters);
    } else if which == P_TFIND {
        if magic {
            assert(q.followups@[0] == Followup::ShowMagic);
        } else {
            assert(q.followups@.len() == 0);
        }
    }
    if trip_of(which) is Some {
        let (state, base) = trip_of(which)->Some_0;
        lemma_flag_set(d.flags, state);
        let t = tripped(d, which, which == P_CONFUSE ==> d.flags & ISHALU == 0, luck, taste);
        let (flags, fresh) = trip_flags(d.flags, state);
        assert(flags & state != 0);
        let f = if fresh { Followup::StartTimer { state, turns: luck as i32 } } else { Followup::Lengthen { state, turns: luck as i32 } };
        assert(q.followups@.contains(f)) by {
            if which == P_LSD && d.flags & ISHALU == 0 {
                if d.flags & SEEMONST != 0 {
                    assert(q.followups@[2] == f);
                } else {
                    assert(q.followups@[1] == f);
                }
            } else {
                assert(q.followups@[0] == f);
            }
        }
    }
}

} // verus!
