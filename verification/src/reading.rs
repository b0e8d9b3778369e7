//! Reading a scroll: what each kind does to the hero and his gear, what he
//! is told, and the work it leaves for the rest of the game.

use vstd::prelude::*;

use crate::effects::{hold_message, hold_text, identifies, identify_kind};
use crate::moves::{step_ok, walkable};
use crate::pack::{after_leave, splits, Pack};
use crate::quaff::ISRUN;
use crate::rnd::{rnd, Dice};
use crate::scrolls::{enchant_armor, enchant_weapon, enchanted_weapon, glow_message, glow_text, protect_armor,
    remove_curse_message, remove_curse_text, uncurse, uncursed, unreadable_message, unreadable_text, Glow, ISCURSED, ISPROT};
use crate::wizard::SCROLL;
use crate::text::push_text;

verus! {

pub const S_CONFUSE: i32 = 0;
pub const S_MAP: i32 = 1;
pub const S_HOLD: i32 = 2;
pub const S_SLEEP: i32 = 3;
pub const S_ARMOR: i32 = 4;
pub const S_ID_POTION: i32 = 5;
pub const S_ID_R_OR_S: i32 = 9;
pub const S_SCARE: i32 = 10;
pub const S_FDET: i32 = 11;
pub const S_TELEP: i32 = 12;
pub const S_ENCH: i32 = 13;
pub const S_CREATE: i32 = 14;
pub const S_REMOVE: i32 = 15;
pub const S_AGGR: i32 = 16;
pub const S_PROTECT: i32 = 17;

/// The hero's hands glow: his next hit confuses.
pub const CANHUH: i32 = 0o1;
/// How long a scroll of sleep may add to the turns asleep, less four.
pub const SLEEPTIME: i32 = 5;
/// The character of a scroll on the map.
pub const SCROLL_CH: u8 = 63;

/// Worn armor: its class and flags.
#[derive(Clone, Copy, Debug, PartialEq, Eq, Structural)]
pub struct WornArmor {
    pub arm: i32,
    pub flags: i32,
}

/// The item in the hero's hand: whether it is a weapon, its bonuses to hit
/// and to damage, and its flags.
#[derive(Clone, Copy, Debug, PartialEq, Eq, Structural)]
pub struct Wielded {
    pub is_weapon: bool,
    pub hplus: i32,
    pub dplus: i32,
    pub flags: i32,
}

/// What of the hero a scroll reads and changes.
#[derive(Clone, Copy, Debug, PartialEq, Eq, Structural)]
pub struct Reader {
    pub flags: i32,
    pub armor: Option<WornArmor>,
    pub wielded: Option<Wielded>,
    /// The flags of the rings on the left and right hands.
    pub left_ring: Option<i32>,
    pub right_ring: Option<i32>,
    pub hallucinating: bool,
}

/// A square next to the hero, as a scroll of create monster sees it: what
/// the screen holds there, and whether a scroll of scare monster lies there.
#[derive(Clone, Copy, Debug, PartialEq, Eq, Structural)]
pub struct Neighbour {
    pub ch: u8,
    pub scare: bool,
}

/// What the game around does after a scroll, besides looking around,
/// showing the status line, naming the kind and discarding the scroll.
#[derive(Clone, Copy, Debug, PartialEq, Eq, Structural)]
pub enum ScrollWork {
    /// The hero sleeps for this many more turns.
    Sleep { turns: i32 },
    /// A monster appears on this square.
    CreateMonster { y: i32, x: i32 },
    /// Let the hero identify an item of this kind.
    Identify { kind: i32 },
    /// Show the whole map.
    RevealMap,
    /// Show where the food of the level lies.
    ShowFood,
    /// Wake every monster and send it for the hero.
    Aggravate,
}

/// What a scroll does.
pub struct ScrollRead {
    pub reader: Reader,
    /// The kind becomes known.
    pub known: bool,
    /// What he is told; empty when nothing.
    pub message: String,
    pub work: Vec<ScrollWork>,
}

/// The same as a mathematical value.
pub struct ScrollCase {
    pub reader: Reader,
    pub known: bool,
    pub message: Seq<char>,
    pub work: Seq<ScrollWork>,
}

/// Row of neighbour `k` of the hero at `(hy, hx)` (row by row from the
/// square above and left; the hero's own square is left out).
pub open spec fn neighbour_y(hy: int, k: int) -> int {
    hy - 1 + (if k < 4 { k } else { k + 1 }) / 3
}

/// Column of neighbour `k`.
pub open spec fn neighbour_x(hx: int, k: int) -> int {
    hx - 1 + (if k < 4 { k } else { k + 1 }) % 3
}

/// Whether a monster may appear on a neighbour: one can step there, and no
/// scroll of scare monster lies there.
pub open spec fn free_for_monster(n: Neighbour) -> bool {
    walkable(n.ch) && !(n.ch == SCROLL_CH && n.scare)
}

/// Whether `spot` is where a scroll of create monster may put its monster
/// among the eight neighbours `ns` of the hero at `(hy, hx)`: nowhere when
/// none is free, otherwise a free one.
pub open spec fn spot_ok(ns: Seq<Neighbour>, hy: int, hx: int, spot: Option<(i32, i32)>) -> bool {
    match spot {
        None => forall|k: int| 0 <= k < 8 ==> !free_for_monster(#[trigger] ns[k]),
        Some((y, x)) => exists|k: int| 0 <= k < 8 && free_for_monster(#[trigger] ns[k]) && y == neighbour_y(hy, k)
            && x == neighbour_x(hx, k),
    }
}

/// The words of a scroll that finds nothing to work on.
pub open spec fn loss_text() -> Seq<char> {
    "you feel a strange sense of loss"@
}

/// The colour the hero sees: `tint` when hallucinating, else `color`.
pub open spec fn seen_color(r: Reader, color: Seq<char>, tint: Seq<char>) -> Seq<char> {
    if r.hallucinating { tint } else { color }
}

/// What a scroll of kind `which` does to `r` (see `read_scroll`), where
/// `luck` is its draw (the turns of sleep less four, or the choice of the
/// weapon's bonus), `spot` where a created monster goes, `held` how many
/// monsters it freezes, `food` whether the level holds food, `moved`
/// whether teleporting took the hero to another room, `name` the name of
/// the kind, and `tint` the colour a hallucinating hero sees.
pub open spec fn scroll_case(
    r: Reader,
    which: i32,
    luck: int,
    spot: Option<(i32, i32)>,
    held: u32,
    food: bool,
    moved: bool,
    name: Seq<char>,
    tint: Seq<char>,
) -> ScrollCase {
    let plain = ScrollCase { reader: r, known: false, message: Seq::empty(), work: Seq::empty() };
    if which == S_CONFUSE {
        ScrollCase {
            reader: Reader { flags: r.flags | CANHUH, ..r },
            message: glow_text(Glow::Hands, seen_color(r, "red"@, tint), Seq::empty()),
            ..plain
        }
    } else if which == S_ARMOR {
        match r.armor {
            Some(a) => ScrollCase {
                reader: Reader { armor: Some(WornArmor { arm: (a.arm - 1) as i32, flags: uncursed(a.flags) }), ..r },
                message: glow_text(Glow::Armor, seen_color(r, "silver"@, tint), Seq::empty()),
                ..plain
            },
            None => plain,
        }
    } else if which == S_HOLD {
        ScrollCase {
            known: held != 0,
            message: hold_text(held as int),
            ..plain
        }
    } else if which == S_SLEEP {
        ScrollCase {
            reader: Reader { flags: r.flags & !ISRUN, ..r },
            known: true,
            message: "you fall asleep"@,
            work: seq![ScrollWork::Sleep { turns: (luck + 4) as i32 }],
        }
    } else if which == S_CREATE {
        match spot {
            Some((y, x)) => ScrollCase { work: seq![ScrollWork::CreateMonster { y, x }], ..plain },
            None => ScrollCase { message: "you hear a faint cry of anguish in the distance"@, ..plain },
        }
    } else if S_ID_POTION <= which <= S_ID_R_OR_S {
        ScrollCase {
            known: true,
            message: "this scroll is an "@ + name + " scroll"@,
            work: seq![ScrollWork::Identify { kind: identifies(which as int) }],
            ..plain
        }
    } else if which == S_MAP {
        ScrollCase { known: true, message: "oh, now this scroll has a map on it"@, work: seq![ScrollWork::RevealMap], ..plain }
    } else if which == S_FDET {
        if food {
            ScrollCase { known: true, work: seq![ScrollWork::ShowFood], ..plain }
        } else {
            ScrollCase { message: "your nose tingles"@, ..plain }
        }
    } else if which == S_TELEP {
        ScrollCase { known: moved, ..plain }
    } else if which == S_ENCH {
        match r.wielded {
            Some(w) if w.is_weapon => {
                let (h, d, f) = enchanted_weapon(w.hplus as int, w.dplus as int, w.flags, luck);
                ScrollCase {
                    reader: Reader { wielded: Some(Wielded { hplus: h as i32, dplus: d as i32, flags: f, ..w }), ..r },
                    message: glow_text(Glow::Weapon, seen_color(r, "blue"@, tint), name),
                    ..plain
                }
            },
            _ => ScrollCase { message: loss_text(), ..plain },
        }
    } else if which == S_SCARE {
        ScrollCase { message: "you hear maniacal laughter in the distance"@, ..plain }
    } else if which == S_REMOVE {
        ScrollCase {
            reader: Reader {
                armor: match r.armor { Some(a) => Some(WornArmor { flags: uncursed(a.flags), ..a }), None => None },
                wielded: match r.wielded { Some(w) => Some(Wielded { flags: uncursed(w.flags), ..w }), None => None },
                left_ring: match r.left_ring { Some(f) => Some(uncursed(f)), None => None },
                right_ring: match r.right_ring { Some(f) => Some(uncursed(f)), None => None },
                ..r
            },
            message: remove_curse_text(r.hallucinating),
            ..plain
        }
    } else if which == S_AGGR {
        ScrollCase { message: "you hear a high pitched humming noise"@, work: seq![ScrollWork::Aggravate], ..plain }
    } else if which == S_PROTECT {
        match r.armor {
            Some(a) => ScrollCase {
                reader: Reader { armor: Some(WornArmor { flags: a.flags | ISPROT, ..a }), ..r },
                message: glow_text(Glow::Shield, seen_color(r, "gold"@, tint), Seq::empty()),
                ..plain
            },
            None => ScrollCase { message: loss_text(), ..plain },
        }
    } else {
        plain
    }
}

/// A monster is held and does not move.
pub const ISHELD: i32 = 0o400;
/// Columns of the map.
pub const MAP_COLS: i32 = 80;
/// Rows of the map.
pub const MAP_LINES: i32 = 24;

/// A monster on the level: where it stands and its flags.
#[derive(Clone, Copy, Debug, PartialEq, Eq, Structural)]
pub struct LevelMonster {
    pub y: i32,
    pub x: i32,
    pub flags: i32,
}

/// Whether a scroll of hold monster read by the hero at `(hy, hx)` holds
/// `m`: a running monster on the map within two squares of him each way.
pub open spec fn freezes(m: LevelMonster, hy: int, hx: int) -> bool {
    &&& hx - 2 <= m.x <= hx + 2
    &&& 0 <= m.x < MAP_COLS
    &&& hy - 2 <= m.y <= hy + 2
    &&& 0 <= m.y < MAP_LINES
    &&& m.flags & ISRUN != 0
}

/// `m` after the scroll: held and no longer running if `freezes` says so,
/// otherwise as it was.
pub open spec fn frozen(m: LevelMonster, hy: int, hx: int) -> LevelMonster {
    if freezes(m, hy, hx) { LevelMonster { flags: (m.flags & !ISRUN) | ISHELD, ..m } } else { m }
}

/// How many of `ms` the scroll holds.
pub open spec fn freeze_count(ms: Seq<LevelMonster>, hy: int, hx: int) -> nat
    decreases ms.len(),
{
    if ms.len() == 0 {
        0
    } else {
        freeze_count(ms.drop_last(), hy, hx) + (if freezes(ms.last(), hy, hx) { 1nat } else { 0nat })
    }
}

/// How many monsters a scroll of kind `which` holds among `ms`.
pub open spec fn held_by(which: i32, ms: Seq<LevelMonster>, hy: int, hx: int) -> u32 {
    if which == S_HOLD { freeze_count(ms, hy, hx) as u32 } else { 0 }
}

proof fn lemma_freeze_count_bound(ms: Seq<LevelMonster>, hy: int, hx: int)
    ensures
        freeze_count(ms, hy, hx) <= ms.len(),
    decreases ms.len(),
{
    if ms.len() > 0 {
        lemma_freeze_count_bound(ms.drop_last(), hy, hx);
    }
}

/// Hold the running monsters within two squares of the hero at `(hy, hx)`
/// (see `frozen`); the others stay as they were. Returns how many were
/// held.
pub fn freeze_monsters(monsters: &mut Vec<LevelMonster>, hy: i32, hx: i32) -> (held: u32)
    requires
        old(monsters)@.len() <= u32::MAX,
    ensures
        final(monsters)@.len() == old(monsters)@.len(),
        forall|i: int| 0 <= i < old(monsters)@.len() ==> #[trigger] final(monsters)@[i] == frozen(old(monsters)@[i], hy as int, hx as int),
        held == freeze_count(old(monsters)@, hy as int, hx as int),
{
    let ghost start = monsters@;
    let mut held: u32 = 0;
    let mut i: usize = 0;
    while i < monsters.len()
        invariant
            i <= monsters@.len(),
            monsters@.len() == start.len(),
            start.len() <= u32::MAX,
            forall|j: int| 0 <= j < i ==> #[trigger] monsters@[j] == frozen(start[j], hy as int, hx as int),
            forall|j: int| i <= j < monsters@.len() ==> #[trigger] monsters@[j] == start[j],
            held == freeze_count(start.subrange(0, i as int), hy as int, hx as int),
        decreases monsters@.len() - i,
    {
        let m = monsters[i];
        let my = m.y as i64;
        let mx = m.x as i64;
        let near = hx as i64 - 2 <= mx && mx <= hx as i64 + 2 && 0 <= mx && mx < MAP_COLS as i64
            && hy as i64 - 2 <= my && my <= hy as i64 + 2 && 0 <= my && my < MAP_LINES as i64
            && m.flags & ISRUN != 0;
        proof {
            let t = start.subrange(0, i + 1);
            assert(t.drop_last() =~= start.subrange(0, i as int));
            lemma_freeze_count_bound(start.subrange(0, i as int), hy as int, hx as int);
        }
        if near {
            monsters.set(i, LevelMonster { flags: (m.flags & !ISRUN) | ISHELD, ..m });
            held = held + 1;
        }
        i = i + 1;
    }
    assert(start.subrange(0, start.len() as int) =~= start);
    held
}

/// Whether `luck` is a draw that a scroll of kind `which` may take.
pub open spec fn scroll_luck(which: i32, luck: int) -> bool {
    if which == S_SLEEP {
        0 <= luck < SLEEPTIME
    } else if which == S_ENCH {
        0 <= luck < 2
    } else {
        true
    }
}

/// Whether `s` is the case `c`.
pub open spec fn read_as(s: ScrollRead, c: ScrollCase) -> bool {
    &&& s.reader == c.reader
    &&& s.known == c.known
    &&& s.message@ == c.message
    &&& s.work@ == c.work
}

/// The numbers of `r` leave room for any scroll.
pub open spec fn readable(r: Reader) -> bool {
    &&& (r.armor matches Some(a) ==> a.arm > i32::MIN)
    &&& (r.wielded matches Some(w) ==> w.hplus < i32::MAX && w.dplus < i32::MAX)
}

/// Whether `s` is what reading a scroll of kind `which` may do (see
/// `scroll_case`), with the monsters of the level `ms` before it.
pub open spec fn scroll_read_as(
    s: ScrollRead,
    r: Reader,
    which: i32,
    ns: Seq<Neighbour>,
    hy: int,
    hx: int,
    ms: Seq<LevelMonster>,
    food: bool,
    moved: bool,
    name: Seq<char>,
    tint: Seq<char>,
) -> bool {
    exists|luck: int, spot: Option<(i32, i32)>| scroll_luck(which, luck) && (which == S_CREATE ==> spot_ok(ns, hy, hx, spot))
        && read_as(s, #[trigger] scroll_case(r, which, luck, spot, held_by(which, ms, hy, hx), food, moved, name, tint))
}

/// The monsters after reading a scroll of kind `which`: a scroll of hold
/// monster holds those `freezes` names, any other leaves them all alone.
pub open spec fn monsters_after(which: i32, before: Seq<LevelMonster>, after: Seq<LevelMonster>, hy: int, hx: int) -> bool {
    &&& after.len() == before.len()
    &&& which == S_HOLD ==> forall|i: int| 0 <= i < before.len() ==> #[trigger] after[i] == frozen(before[i], hy, hx)
    &&& which != S_HOLD ==> after == before
}

/// Where a scroll of create monster puts its monster (see `spot_ok`): each
/// free neighbour in turn replaces the choice with chance one in the number
/// of free neighbours seen so far.
pub fn creation_spot(dice: &mut Dice, ns: &Vec<Neighbour>, hy: i32, hx: i32) -> (spot: Option<(i32, i32)>)
    requires
        ns@.len() == 8,
        i32::MIN < hy < i32::MAX,
        i32::MIN < hx < i32::MAX,
    ensures
        spot_ok(ns@, hy as int, hx as int, spot),
{
    let mut count: i32 = 0;
    let mut spot: Option<(i32, i32)> = None;
    let mut k: usize = 0;
    while k < 8
        invariant
            k <= 8,
            ns@.len() == 8,
            i32::MIN < hy < i32::MAX,
            i32::MIN < hx < i32::MAX,
            0 <= count <= k,
            count == 0 <==> spot is None,
            spot is None ==> forall|j: int| 0 <= j < k ==> !free_for_monster(#[trigger] ns@[j]),
            spot matches Some((y, x)) ==> exists|j: int| 0 <= j < k && free_for_monster(#[trigger] ns@[j])
                && y == neighbour_y(hy as int, j) && x == neighbour_x(hx as int, j),
        decreases 8 - k,
    {
        let n = ns[k];
        if step_ok(n.ch) && !(n.ch == SCROLL_CH && n.scare) {
            count = count + 1;
            if rnd(dice, count) == 0 {
                let pos: usize = if k < 4 { k } else { k + 1 };
                let y = hy - 1 + (pos / 3) as i32;
                let x = hx - 1 + (pos % 3) as i32;
                spot = Some((y, x));
                assert(free_for_monster(ns@[k as int]));
            }
        }
        k = k + 1;
    }
    spot
}

/// The colour the hero sees (see `seen_color`).
fn pick_color<'a>(hallucinating: bool, color: &'a str, tint: &'a str) -> (t: &'a str)
    ensures
        t@ == (if hallucinating { tint@ } else { color@ }),
{
    if hallucinating { tint } else { color }
}

fn said(t: &str) -> (m: String)
    ensures
        m@ == t@,
{
    let mut m = String::new();
    push_text(&mut m, t);
    m
}

fn uncurse_ring(r: Option<i32>) -> (o: Option<i32>)
    ensures
        o == (match r { Some(f) => Some(uncursed(f)), None => None::<i32> }),
{
    match r {
        Some(f) => Some(uncurse(f)),
        None => None,
    }
}

/// Read a scroll of kind `which` (see `scroll_case`): `ns` are the eight
/// squares around the hero at `(hy, hx)`, `monsters` the monsters of the
/// level (a scroll of hold monster holds those `freezes` names), `food` whether the level holds
/// food, `moved` whether the teleport made for a scroll of teleportation
/// took him to another room, `name` the name of the kind (or, for enchant
/// weapon, of the weapon), `tint` the colour a hallucinating hero sees.
pub fn read_scroll(
    dice: &mut Dice,
    r: Reader,
    which: i32,
    ns: &Vec<Neighbour>,
    hy: i32,
    hx: i32,
    monsters: &mut Vec<LevelMonster>,
    food: bool,
    moved: bool,
    name: &str,
    tint: &str,
) -> (s: ScrollRead)
    requires
        readable(r),
        ns@.len() == 8,
        old(monsters)@.len() <= u32::MAX,
        i32::MIN < hy < i32::MAX,
        i32::MIN < hx < i32::MAX,
    ensures
        scroll_read_as(s, r, which, ns@, hy as int, hx as int, old(monsters)@, food, moved, name@, tint@),
        monsters_after(which, old(monsters)@, final(monsters)@, hy as int, hx as int),
{
    let ghost ms0 = monsters@;
    let mut held: u32 = 0;
    let mut out = ScrollRead { reader: r, known: false, message: String::new(), work: Vec::new() };
    let ghost mut luck: int = 0;
    let mut spot: Option<(i32, i32)> = None;
    if which == S_CONFUSE {
        out.reader = Reader { flags: r.flags | CANHUH, ..r };
        out.message = glow_message(Glow::Hands, pick_color(r.hallucinating, "red", tint), "");
    } else if which == S_ARMOR {
        match r.armor {
            Some(a) => {
                let (arm, flags) = enchant_armor(a.arm, a.flags);
                out.reader = Reader { armor: Some(WornArmor { arm, flags }), ..r };
                out.message = glow_message(Glow::Armor, pick_color(r.hallucinating, "silver", tint), "");
            },
            None => {},
        }
    } else if which == S_HOLD {
        held = freeze_monsters(monsters, hy, hx);
        out.known = held != 0;
        out.message = said(hold_message(held));
    } else if which == S_SLEEP {
        let nap = rnd(dice, SLEEPTIME);
        proof {
            luck = nap as int;
        }
        out.reader = Reader { flags: r.flags & !ISRUN, ..r };
        out.known = true;
        out.message = said("you fall asleep");
        out.work.push(ScrollWork::Sleep { turns: nap + 4 });
    } else if which == S_CREATE {
        spot = creation_spot(dice, ns, hy, hx);
        match spot {
            Some((y, x)) => out.work.push(ScrollWork::CreateMonster { y, x }),
            None => out.message = said("you hear a faint cry of anguish in the distance"),
        }
    } else if S_ID_POTION <= which && which <= S_ID_R_OR_S {
        out.known = true;
        let mut m = String::new();
        push_text(&mut m, "this scroll is an ");
        push_text(&mut m, name);
        push_text(&mut m, " scroll");
        out.message = m;
        out.work.push(ScrollWork::Identify { kind: identify_kind(which) });
    } else if which == S_MAP {
        out.known = true;
        out.message = said("oh, now this scroll has a map on it");
        out.work.push(ScrollWork::RevealMap);
    } else if which == S_FDET {
        if food {
            out.known = true;
            out.work.push(ScrollWork::ShowFood);
        } else {
            out.message = said("your nose tingles");
        }
    } else if which == S_TELEP {
        out.known = moved;
    } else if which == S_ENCH {
        match r.wielded {
            Some(w) => {
                if w.is_weapon {
                    let (h, d, f) = enchant_weapon(dice, w.hplus, w.dplus, w.flags);
                    proof {
                        let roll = choose|roll: int| 0 <= roll < 2 && (h as int, d as int, f) == #[trigger] enchanted_weapon(
                            w.hplus as int, w.dplus as int, w.flags, roll);
                        luck = roll;
                    }
                    out.reader = Reader { wielded: Some(Wielded { hplus: h, dplus: d, flags: f, ..w }), ..r };
                    out.message = glow_message(Glow::Weapon, pick_color(r.hallucinating, "blue", tint), name);
                } else {
                    out.message = said("you feel a strange sense of loss");
                }
            },
            None => {
                out.message = said("you feel a strange sense of loss");
            },
        }
    } else if which == S_SCARE {
        out.message = said("you hear maniacal laughter in the distance");
    } else if which == S_REMOVE {
        let armor = match r.armor {
            Some(a) => Some(WornArmor { flags: uncurse(a.flags), ..a }),
            None => None,
        };
        let wielded = match r.wielded {
            Some(w) => Some(Wielded { flags: uncurse(w.flags), ..w }),
            None => None,
        };
        out.reader = Reader { armor, wielded, left_ring: uncurse_ring(r.left_ring), right_ring: uncurse_ring(r.right_ring), ..r };
        out.message = said(remove_curse_message(r.hallucinating));
    } else if which == S_AGGR {
        out.message = said("you hear a high pitched humming noise");
        out.work.push(ScrollWork::Aggravate);
    } else if which == S_PROTECT {
        match r.armor {
            Some(a) => {
                out.reader = Reader { armor: Some(WornArmor { flags: protect_armor(a.flags), ..a }), ..r };
                out.message = glow_message(Glow::Shield, pick_color(r.hallucinating, "gold", tint), "");
            },
            None => {
                out.message = said("you feel a strange sense of loss");
            },
        }
    }
    proof {
        let c = scroll_case(r, which, luck, spot, held_by(which, ms0, hy as int, hx as int), food, moved, name@, tint@);
        if which == S_HOLD {
            assert(held == held_by(which, ms0, hy as int, hx as int));
        }
        assert(out.work@ =~= c.work);
        assert(out.message@ =~= c.message);
        assert(scroll_luck(which, luck));
        assert(read_as(out, c));
    }
    out
}

/// What reading an item of the pack does.
pub enum ReadItem {
    /// It is no scroll: the hero is told so, and nothing else happens.
    NotAScroll { message: &'static str },
    /// The scroll was read (see `read_scroll`); it left the pack, and is
    /// thrown away when it was the last of its entry (`discard`). `unwield`
    /// tells that it was the item in the hero's hand, which is now empty.
    Read { read: ScrollRead, discard: bool, unwield: bool },
}

/// Read the scroll in entry `at` of `pack` (`wielding` tells whether it is
/// the item in the hero's hand): an item that is no scroll is refused with
/// `unreadable_text`; a scroll leaves the pack one at a time
/// (`after_leave`) and is read (see `read_scroll`).
pub fn read_item(
    dice: &mut Dice,
    pack: &mut Pack,
    at: usize,
    wielding: bool,
    terse: bool,
    r: Reader,
    ns: &Vec<Neighbour>,
    hy: i32,
    hx: i32,
    monsters: &mut Vec<LevelMonster>,
    food: bool,
    moved: bool,
    name: &str,
    tint: &str,
) -> (out: ReadItem)
    requires
        old(pack).wf(),
        at < old(pack)@.items.len(),
        old(pack)@.carried > i32::MIN,
        !splits(old(pack)@.items[at as int], false) ==> 97 <= old(pack)@.items[at as int].letter < 123,
        readable(r),
        ns@.len() == 8,
        old(monsters)@.len() <= u32::MAX,
        i32::MIN < hy < i32::MAX,
        i32::MIN < hx < i32::MAX,
    ensures
        final(pack).wf(),
        ({
            let e = old(pack)@.items[at as int];
            match out {
                ReadItem::NotAScroll { message } => {
                    &&& e.kind != SCROLL
                    &&& message@ == unreadable_text(terse)
                    &&& final(pack)@ == old(pack)@
                    &&& final(monsters)@ == old(monsters)@
                },
                ReadItem::Read { read, discard, unwield } => {
                    &&& e.kind == SCROLL
                    &&& final(pack)@ == after_leave(old(pack)@, at as int, false)
                    &&& discard == !splits(e, false)
                    &&& unwield == wielding
                    &&& scroll_read_as(read, r, e.which, ns@, hy as int, hx as int, old(monsters)@, food, moved, name@, tint@)
                    &&& monsters_after(e.which, old(monsters)@, final(monsters)@, hy as int, hx as int)
                },
            }
        }),
{
    let e = pack.items()[at];
    if e.kind != SCROLL {
        return ReadItem::NotAScroll { message: unreadable_message(terse) };
    }
    let (_, left) = pack.leave_pack(at, false, false);
    let read = read_scroll(dice, r, e.which, ns, hy, hx, monsters, food, moved, name, tint);
    ReadItem::Read { read, discard: left, unwield: wielding }
}

proof fn lemma_flag_bits(f: i32)
    ensures
        ((f | CANHUH) & CANHUH) != 0,
        ((f & !ISRUN) & ISRUN) == 0,
        ((f & !ISCURSED) & ISCURSED) == 0,
        ((f | ISPROT) & ISPROT) != 0,
        ((f & !ISRUN) | ISHELD) & ISHELD != 0,
        ((f & !ISRUN) | ISHELD) & ISRUN == 0,
{
    assert(((f | 1i32) & 1i32) != 0) by (bit_vector);
    assert(((f & !0o20000i32) & 0o20000i32) == 0) by (bit_vector);
    assert(((f & !1i32) & 1i32) == 0) by (bit_vector);
    assert(((f | 0o40i32) & 0o40i32) != 0) by (bit_vector);
    assert(((f & !0o20000i32) | 0o400i32) & 0o400i32 != 0) by (bit_vector);
    assert(((f & !0o20000i32) | 0o400i32) & 0o20000i32 == 0) by (bit_vector);
}

proof fn lemma_freeze_count_positive(ms: Seq<LevelMonster>, hy: int, hx: int)
    ensures
        freeze_count(ms, hy, hx) > 0 <==> exists|i: int| 0 <= i < ms.len() && freezes(#[trigger] ms[i], hy, hx),
    decreases ms.len(),
{
    if ms.len() > 0 {
        let p = ms.drop_last();
        lemma_freeze_count_positive(p, hy, hx);
        if exists|i: int| 0 <= i < p.len() && freezes(#[trigger] p[i], hy, hx) {
            let i = choose|i: int| 0 <= i < p.len() && freezes(#[trigger] p[i], hy, hx);
            assert(ms[i] == p[i]);
        }
        if exists|i: int| 0 <= i < ms.len() && freezes(#[trigger] ms[i], hy, hx) {
            let i = choose|i: int| 0 <= i < ms.len() && freezes(#[trigger] ms[i], hy, hx);
            if i < p.len() {
                assert(p[i] == ms[i]);
            }
        }
    }
}

/// A held monster is held and no longer runs; the monsters a scroll of hold
/// monster leaves alone are exactly as they were.
pub proof fn law_hold_monster(before: Seq<LevelMonster>, after: Seq<LevelMonster>, hy: int, hx: int)
    requires
        monsters_after(S_HOLD, before, after, hy, hx),
    ensures
        after.len() == before.len(),
        forall|i: int| 0 <= i < before.len() && freezes(#[trigger] before[i], hy, hx)
            ==> after[i].flags & ISHELD != 0 && after[i].flags & ISRUN == 0 && after[i].y == before[i].y && after[i].x == before[i].x,
        forall|i: int| 0 <= i < before.len() && !freezes(#[trigger] before[i], hy, hx) ==> after[i] == before[i],
        forall|i: int| 0 <= i < before.len() && (before[i].flags & ISRUN != 0) && (before[i].x - hx > 2 || hx - before[i].x > 2
            || before[i].y - hy > 2 || hy - before[i].y > 2) ==> #[trigger] after[i] == before[i],
{
    assert forall|i: int| 0 <= i < before.len() && freezes(#[trigger] before[i], hy, hx)
        implies after[i].flags & ISHELD != 0 && after[i].flags & ISRUN == 0 && after[i].y == before[i].y && after[i].x == before[i].x by {
        lemma_flag_bits(before[i].flags);
    }
}

/// What each scroll does, whatever the dice: magic mapping reveals the map;
/// hold monster is known exactly when a monster near the hero was running;
/// sleep puts the hero to sleep for four to eight turns and stops his run;
/// create monster makes a monster exactly when a square next to the hero is
/// free for one, and on such a square; the identify scrolls let him identify
/// an item of their sort; food detection is known and shows food exactly
/// when there is some; teleportation is known when it took him to another
/// room; aggravate monsters wakes them; monster confusion makes his hands
/// glow; enchant armor improves worn armor by one and lifts its curse;
/// protect armor protects worn armor; remove curse lifts every curse; and
/// enchant weapon adds one to a bonus of a wielded weapon and lifts its
/// curse. No other scroll changes the hero's flags.
pub proof fn law_scroll_effects(
    s: ScrollRead,
    r: Reader,
    which: i32,
    ns: Seq<Neighbour>,
    hy: int,
    hx: int,
    ms: Seq<LevelMonster>,
    food: bool,
    moved: bool,
    name: Seq<char>,
    tint: Seq<char>,
)
    requires
        readable(r),
        ns.len() == 8,
        ms.len() <= u32::MAX,
        scroll_read_as(s, r, which, ns, hy, hx, ms, food, moved, name, tint),
    ensures
        which == S_MAP ==> s.known && s.work@.contains(ScrollWork::RevealMap)
            && s.message@ == "oh, now this scroll has a map on it"@,
        which == S_HOLD ==> (s.known <==> exists|i: int| 0 <= i < ms.len() && freezes(#[trigger] ms[i], hy, hx)),
        which == S_SLEEP ==> s.known && s.reader.flags & ISRUN == 0
            && exists|t: i32| 4 <= t <= 8 && s.work@.contains(ScrollWork::Sleep { turns: t }),
        which == S_CREATE ==> ((exists|k: int| 0 <= k < 8 && free_for_monster(#[trigger] ns[k]))
            <==> exists|y: i32, x: i32| s.work@.contains(ScrollWork::CreateMonster { y, x })),
        which == S_CREATE ==> forall|y: i32, x: i32| s.work@.contains(ScrollWork::CreateMonster { y, x })
            ==> exists|k: int| 0 <= k < 8 && free_for_monster(#[trigger] ns[k]) && y == neighbour_y(hy, k) && x == neighbour_x(hx, k),
        S_ID_POTION <= which <= S_ID_R_OR_S ==> s.known && s.work@.contains(ScrollWork::Identify { kind: identifies(which as int) }),
        which == S_FDET ==> s.known == food && (s.work@.contains(ScrollWork::ShowFood) <==> food),
        which == S_TELEP ==> s.known == moved,
        which == S_AGGR ==> s.work@.contains(ScrollWork::Aggravate),
        which == S_CONFUSE ==> s.reader.flags & CANHUH != 0,
        which == S_ARMOR ==> (r.armor matches Some(a) ==> s.reader.armor == Some(WornArmor { arm: (a.arm - 1) as i32, flags: a.flags & !ISCURSED })),
        which == S_PROTECT ==> (r.armor matches Some(a) ==> (s.reader.armor matches Some(b) && b.arm == a.arm && b.flags & ISPROT != 0)),
        which == S_REMOVE ==> (s.reader.armor matches Some(a) ==> a.flags & ISCURSED == 0)
            && (s.reader.wielded matches Some(w) ==> w.flags & ISCURSED == 0)
            && (s.reader.left_ring matches Some(f) ==> f & ISCURSED == 0)
            && (s.reader.right_ring matches Some(f) ==> f & ISCURSED == 0),
        which == S_ENCH ==> (r.wielded matches Some(w) ==> w.is_weapon ==> (s.reader.wielded matches Some(v)
            && v.hplus + v.dplus == w.hplus + w.dplus + 1 && v.flags & ISCURSED == 0)),
        which != S_CONFUSE && which != S_SLEEP ==> s.reader.flags == r.flags,
{
    let (luck, spot) = choose|luck: int, spot: Option<(i32, i32)>| scroll_luck(which, luck)
        && (which == S_CREATE ==> spot_ok(ns, hy, hx, spot))
        && read_as(s, #[trigger] scroll_case(r, which, luck, spot, held_by(which, ms, hy, hx), food, moved, name, tint));
    lemma_flag_bits(r.flags);
    if which == S_MAP {
        assert(s.work@[0] == ScrollWork::RevealMap);
    } else if which == S_HOLD {
        lemma_freeze_count_positive(ms, hy, hx);
        lemma_freeze_count_bound(ms, hy, hx);
    } else if which == S_SLEEP {
        assert(s.work@[0] == ScrollWork::Sleep { turns: (luck + 4) as i32 });
        assert(s.work@.contains(ScrollWork::Sleep { turns: (luck + 4) as i32 }));
    } else if which == S_CREATE {
        match spot {
            Some((y, x)) => {
                assert(s.work@[0] == ScrollWork::CreateMonster { y, x });
                assert(s.work@.contains(ScrollWork::CreateMonster { y, x }));
                let k = choose|k: int| 0 <= k < 8 && free_for_monster(#[trigger] ns[k]) && y == neighbour_y(hy, k) && x == neighbour_x(hx, k);
                assert(free_for_monster(ns[k]));
                assert forall|y2: i32, x2: i32| s.work@.contains(ScrollWork::CreateMonster { y: y2, x: x2 })
                    implies exists|k: int| 0 <= k < 8 && free_for_monster(#[trigger] ns[k]) && y2 == neighbour_y(hy, k) && x2 == neighbour_x(hx, k) by {
                    let j = choose|j: int| 0 <= j < s.work@.len() && s.work@[j] == ScrollWork::CreateMonster { y: y2, x: x2 };
                    assert(j == 0);
                }
            },
            None => {
                assert(s.work@.len() == 0);
                assert forall|y: i32, x: i32| !s.work@.contains(ScrollWork::CreateMonster { y, x }) by {}
                assert(!exists|k: int| 0 <= k < 8 && free_for_monster(#[trigger] ns[k]));
            },
        }
    } else if S_ID_POTION <= which <= S_ID_R_OR_S {
        assert(s.work@[0] == ScrollWork::Identify { kind: identifies(which as int) });
    } else if which == S_FDET {
        if food {
            assert(s.work@[0] == ScrollWork::ShowFood);
        } else {
            assert(s.work@.len() == 0);
        }
    } else if which == S_AGGR {
        assert(s.work@[0] == ScrollWork::Aggravate);
    } else if which == S_PROTECT {
        match r.armor {
            Some(a) => { lemma_flag_bits(a.flags); },
            None => {},
        }
    } else if which == S_REMOVE {
        match r.armor {
            Some(a) => { lemma_flag_bits(a.flags); },
            None => {},
        }
        match r.wielded {
            Some(w) => { lemma_flag_bits(w.flags); },
            None => {},
        }
        match r.left_ring {
            Some(f) => { lemma_flag_bits(f); },
            None => {},
        }
        match r.right_ring {
            Some(f) => { lemma_flag_bits(f); },
            None => {},
        }
    } else if which == S_ENCH {
        match r.wielded {
            Some(w) => { lemma_flag_bits(w.flags); },
            None => {},
        }
    }
}

} // verus!
