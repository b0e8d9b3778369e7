use vstd::prelude::*;

use crate::moves::{notice_of, run_notice, step_ok, tripped_char, walkable, Notice, DOOR, FLOOR, SPACE, H_WALL, V_WALL,
    PASSAGE, TRAP};
use crate::rnd::{rnd, Dice};

verus! {

/// Rows of the screen; the top and bottom rows hold no map.
pub const MAXLINES: i32 = 24;
/// Columns of the screen.
pub const MAXCOLS: i32 = 80;

/// A monster on a square around the hero, as the hero's look finds it.
#[derive(Clone, Copy, Debug)]
pub struct LookMonster {
    /// It is invisible and only shown by the hero's sight of monsters: it
    /// stays hidden, and a careful run stops for it.
    pub invisible_seen: bool,
    /// The hero can see it.
    pub visible: bool,
    /// What it looks like.
    pub disguise: u8,
}

/// One square of the 3 by 3 block around the hero.
#[derive(Clone, Copy, Debug)]
pub struct LookSquare {
    /// What the map holds there.
    pub ch: u8,
    /// It is part of a corridor.
    pub passage: bool,
    /// The monster standing there, if any.
    pub monster: Option<LookMonster>,
    /// What the screen shows there now.
    pub screen: u8,
    /// It is the stairs, and the hero has seen them.
    pub known_stairs: bool,
}

/// What a look around the hero reads of the game.
pub struct LookInput {
    pub hero_y: i32,
    pub hero_x: i32,
    /// Where the hero stood at the last look.
    pub old_y: i32,
    pub old_x: i32,
    /// The nine squares from the one above and left of the hero, row by row.
    pub squares: Vec<LookSquare>,
    pub blind: bool,
    pub hallucinating: bool,
    /// The hero has acted this turn.
    pub acted: bool,
    /// Monsters that are seen wake up.
    pub wakeup: bool,
    /// The hero runs with the stop-at-doors option and this is not the
    /// first step of the run.
    pub careful: bool,
    pub running: bool,
    /// The key the run was started with.
    pub run_key: u8,
    /// The hero's room is dark (and not gone).
    pub dark_room: bool,
    /// The `seefloor` option.
    pub see_floor: bool,
    /// The `jump` option.
    pub jump: bool,
}

/// What a look around the hero does.
pub struct LookResult {
    /// The hero moved since the last look: the lamp at the old place is to
    /// be erased and the old place remembered anew.
    pub moved: bool,
    /// Characters drawn, with their row and column, in order.
    pub drawn: Vec<(i32, i32, u8)>,
    /// Squares whose monster is woken, in order.
    pub woken: Vec<(i32, i32)>,
    /// Whether the hero still runs.
    pub running: bool,
    /// Whether the hero's own mark is drawn at his place.
    pub hero_shown: bool,
}

/// Where a look stands after some squares: what it drew and woke, whether
/// the hero still runs, and how many corridor squares in line it counted.
pub struct LookState {
    pub drawn: Seq<(i32, i32, u8)>,
    pub woken: Seq<(i32, i32)>,
    pub running: bool,
    pub passes: int,
}

/// Row of square `k` of the block.
pub open spec fn square_y(v: LookInput, k: int) -> int {
    v.hero_y - 1 + k / 3
}

/// Column of square `k` of the block.
pub open spec fn square_x(v: LookInput, k: int) -> int {
    v.hero_x - 1 + k % 3
}

/// Whether the look passes over square `k` whatever stands there: off the
/// map, the hero's own square (unless he is blind), rock, a square on the
/// other side of a corridor's edge (no door on either side), or a diagonal
/// corner between corridor squares that the hero cannot cut.
pub open spec fn passed_over(v: LookInput, k: int) -> bool {
    let y = square_y(v, k);
    let x = square_x(v, k);
    let s = v.squares@[k];
    let h = v.squares@[4];
    ||| y <= 0 || y >= MAXLINES - 1
    ||| x < 0 || x >= MAXCOLS
    ||| (!v.blind && k == 4)
    ||| s.ch == SPACE
    ||| (h.ch != DOOR && s.ch != DOOR && h.passage != s.passage)
    ||| ((s.passage || s.ch == DOOR) && (h.passage || h.ch == DOOR) && k / 3 != 1 && k % 3 != 1
        && !walkable(v.squares@[(k / 3) * 3 + 1].ch) && !walkable(v.squares@[3 + k % 3].ch))
}

/// Whether a hallucinating hero sees something else on a square showing
/// `ch` (see `tripped_char`).
pub open spec fn trips(tripping: bool, acted: bool, ch: u8, known_stairs: bool) -> bool {
    tripping && acted && !(ch == FLOOR || ch == SPACE || ch == PASSAGE || ch == H_WALL || ch == V_WALL || ch == DOOR
        || ch == TRAP) && !known_stairs
}

/// Whether looking at square `k` draws a die of 26: an empty square that a
/// hallucination changes, or a monster in view of a hallucinating hero.
pub open spec fn rolls_at(v: LookInput, k: int) -> bool {
    let s = v.squares@[k];
    !passed_over(v, k) && match s.monster {
        None => trips(v.hallucinating, v.acted, s.ch, s.known_stairs),
        Some(m) => !m.invisible_seen && m.visible && v.hallucinating,
    }
}

/// The dice bounds that the look draws over the first `k` squares.
pub open spec fn look_draws(v: LookInput, k: int) -> Seq<int>
    decreases k,
{
    if k <= 0 {
        Seq::empty()
    } else if rolls_at(v, k - 1) {
        look_draws(v, k - 1).push(26)
    } else {
        look_draws(v, k - 1)
    }
}

/// What the hero sees on square `k`, where `roll` is the square's draw from
/// `[0, 26)` if it takes one: a monster he sees by its looks (any capital
/// letter when hallucinating), an empty square as a hallucination shows
/// it; floor of a dark room he cannot see is shown as rock.
pub open spec fn seen_char(v: LookInput, k: int, roll: int) -> u8 {
    let s = v.squares@[k];
    let c = match s.monster {
        None => tripped_char(v.hallucinating, v.acted, s.ch, s.known_stairs, roll),
        Some(m) => if m.visible {
            if v.hallucinating { (roll + 65) as u8 } else { m.disguise }
        } else {
            s.ch
        },
    };
    if v.dark_room && !v.see_floor && c == FLOOR { SPACE } else { c }
}

/// The look's state after square `k`, from `st` before it.
pub open spec fn look_square(v: LookInput, k: int, st: LookState, roll: int) -> LookState {
    let s = v.squares@[k];
    let y = square_y(v, k) as i32;
    let x = square_x(v, k) as i32;
    if passed_over(v, k) {
        st
    } else if s.monster is Some && s.monster->Some_0.invisible_seen {
        LookState { running: if v.careful { false } else { st.running }, ..st }
    } else {
        let woken = if s.monster is Some && v.wakeup { st.woken.push((y, x)) } else { st.woken };
        if v.blind && k != 4 {
            LookState { woken, ..st }
        } else {
            let c = seen_char(v, k, roll);
            let drawn = if s.monster is None || c != s.screen { st.drawn.push((y, x, c)) } else { st.drawn };
            if v.careful && st.running {
                match notice_of(v.run_key, k / 3 - 1, k % 3 - 1, c) {
                    Notice::Stop => LookState { drawn, woken, running: false, passes: st.passes },
                    Notice::Passage => LookState { drawn, woken, running: st.running, passes: st.passes + 1 },
                    _ => LookState { drawn, woken, running: st.running, passes: st.passes },
                }
            } else {
                LookState { drawn, woken, running: st.running, passes: st.passes }
            }
        }
    }
}

/// The look's state after the first `k` squares, where `rolls[j]` is the
/// draw of square `j`.
pub open spec fn looked_upto(v: LookInput, k: int, rolls: Seq<int>) -> LookState
    decreases k,
{
    if k <= 0 {
        LookState { drawn: Seq::empty(), woken: Seq::empty(), running: v.running, passes: 0 }
    } else {
        look_square(v, k - 1, looked_upto(v, k - 1, rolls), rolls[k - 1])
    }
}

/// Whether `r` is what a look does: after all nine squares, a careful run
/// also stops when more than one corridor square in line was counted, and
/// the hero's mark is drawn unless he runs with the `jump` option.
pub open spec fn looked(v: LookInput, rolls: Seq<int>, r: LookResult) -> bool {
    let st = looked_upto(v, 9, rolls);
    let running = if v.careful && st.passes > 1 { false } else { st.running };
    &&& r.moved == (v.old_y != v.hero_y || v.old_x != v.hero_x)
    &&& r.drawn@ == st.drawn
    &&& r.woken@ == st.woken
    &&& r.running == running
    &&& r.hero_shown == (!running || !v.jump)
}

proof fn lemma_looked_prefix(v: LookInput, k: int, a: Seq<int>, b: Seq<int>)
    requires
        forall|i: int| 0 <= i < k ==> a[i] == b[i],
    ensures
        looked_upto(v, k, a) == looked_upto(v, k, b),
    decreases k,
{
    if k > 0 {
        lemma_looked_prefix(v, k - 1, a, b);
    }
}

fn square_skipped(v: &LookInput, k: usize) -> (b: bool)
    requires
        v.squares@.len() == 9,
        k < 9,
        i32::MIN < v.hero_y < i32::MAX,
        i32::MIN < v.hero_x < i32::MAX,
    ensures
        b == passed_over(*v, k as int),
{
    let y = v.hero_y - 1 + (k / 3) as i32;
    let x = v.hero_x - 1 + (k % 3) as i32;
    let s = v.squares[k];
    let h = v.squares[4];
    if y <= 0 || y >= MAXLINES - 1 || x < 0 || x >= MAXCOLS {
        return true;
    }
    if !v.blind && k == 4 {
        return true;
    }
    if s.ch == SPACE {
        return true;
    }
    if h.ch != DOOR && s.ch != DOOR && h.passage != s.passage {
        return true;
    }
    (s.passage || s.ch == DOOR) && (h.passage || h.ch == DOOR) && k / 3 != 1 && k % 3 != 1
        && !step_ok(v.squares[(k / 3) * 3 + 1].ch) && !step_ok(v.squares[3 + k % 3].ch)
}

fn square_char(v: &LookInput, k: usize, roll: i32) -> (c: u8)
    requires
        v.squares@.len() == 9,
        k < 9,
        0 <= roll < 26,
    ensures
        c == seen_char(*v, k as int, roll as int),
{
    let s = v.squares[k];
    let c = match s.monster {
        None => if trips_now(v.hallucinating, v.acted, s.ch, s.known_stairs) {
            roll as u8
        } else {
            s.ch
        },
        Some(m) => if m.visible {
            if v.hallucinating { (roll + 65) as u8 } else { m.disguise }
        } else {
            s.ch
        },
    };
    if v.dark_room && !v.see_floor && c == FLOOR { SPACE } else { c }
}

fn trips_now(tripping: bool, acted: bool, ch: u8, known_stairs: bool) -> (b: bool)
    ensures
        b == trips(tripping, acted, ch, known_stairs),
        !b ==> tripped_char(tripping, acted, ch, known_stairs, 0) == ch,
        forall|roll: int| b ==> #[trigger] tripped_char(tripping, acted, ch, known_stairs, roll) == roll as u8,
        forall|roll: int| !b ==> #[trigger] tripped_char(tripping, acted, ch, known_stairs, roll) == ch,
{
    tripping && acted && !(ch == FLOOR || ch == SPACE || ch == PASSAGE || ch == H_WALL || ch == V_WALL || ch == DOOR
        || ch == TRAP) && !known_stairs
}

/// Look at the squares around the hero (see `looked`): draw what he sees
/// there, wake the monsters he sees if asked, and decide whether a careful
/// run goes on. Each square that `rolls_at` names draws a die of 26.
pub fn look_step(dice: &mut Dice, v: &LookInput) -> (r: LookResult)
    requires
        v.squares@.len() == 9,
        i32::MIN < v.hero_y < i32::MAX,
        i32::MIN < v.hero_x < i32::MAX,
    ensures
        exists|rolls: Seq<int>| rolls.len() == 9 && (forall|i: int| 0 <= i < 9 ==> 0 <= #[trigger] rolls[i] < 26)
            && looked(*v, rolls, r),
        final(dice).seed() == old(dice).seed(),
        final(dice).draws() == old(dice).draws() + look_draws(*v, 9),
{
    let mut drawn: Vec<(i32, i32, u8)> = Vec::new();
    let mut woken: Vec<(i32, i32)> = Vec::new();
    let mut running = v.running;
    let mut passes: i32 = 0;
    let ghost mut rolls: Seq<int> = Seq::empty();
    let mut k: usize = 0;
    while k < 9
        invariant
            k <= 9,
            v.squares@.len() == 9,
            i32::MIN < v.hero_y < i32::MAX,
            i32::MIN < v.hero_x < i32::MAX,
            rolls.len() == k,
            forall|i: int| 0 <= i < k ==> 0 <= #[trigger] rolls[i] < 26,
            drawn@ == looked_upto(*v, k as int, rolls).drawn,
            woken@ == looked_upto(*v, k as int, rolls).woken,
            running == looked_upto(*v, k as int, rolls).running,
            passes == looked_upto(*v, k as int, rolls).passes,
            0 <= passes <= k,
            dice.seed() == old(dice).seed(),
            dice.draws() == old(dice).draws() + look_draws(*v, k as int),
        decreases 9 - k,
    {
        let ghost before = looked_upto(*v, k as int, rolls);
        let skipped = square_skipped(v, k);
        let s = v.squares[k];
        let mut roll: i32 = 0;
        if !skipped {
            let draw = match s.monster {
                None => trips_now(v.hallucinating, v.acted, s.ch, s.known_stairs),
                Some(m) => !m.invisible_seen && m.visible && v.hallucinating,
            };
            if draw {
                roll = rnd(dice, 26);
            }
        }
        proof {
            let next = rolls.push(roll as int);
            lemma_looked_prefix(*v, k as int, rolls, next);
            assert(dice.draws() == old(dice).draws() + look_draws(*v, k + 1)) by {
                assert(look_draws(*v, k + 1) == (if rolls_at(*v, k as int) { look_draws(*v, k as int).push(26) } else {
                    look_draws(*v, k as int)
                }));
                assert((old(dice).draws() + look_draws(*v, k as int)).push(26) =~= old(dice).draws() + look_draws(*v, k as int).push(26));
            }
        }
        let y = v.hero_y - 1 + (k / 3) as i32;
        let x = v.hero_x - 1 + (k % 3) as i32;
        if !skipped {
            let hidden = match s.monster {
                Some(m) => m.invisible_seen,
                None => false,
            };
            if hidden {
                if v.careful {
                    running = false;
                }
            } else {
                if s.monster.is_some() && v.wakeup {
                    woken.push((y, x));
                }
                if !(v.blind && k != 4) {
                    let c = square_char(v, k, roll);
                    if s.monster.is_none() || c != s.screen {
                        drawn.push((y, x, c));
                    }
                    if v.careful && running {
                        let dy = (k / 3) as i32 - 1;
                        let dx = (k % 3) as i32 - 1;
                        match run_notice(v.run_key, dy, dx, c) {
                            Notice::Stop => {
                                running = false;
                            },
                            Notice::Passage => {
                                passes = passes + 1;
                            },
                            _ => {},
                        }
                    }
                }
            }
        }
        proof {
            rolls = rolls.push(roll as int);
            assert(looked_upto(*v, k + 1, rolls) == look_square(*v, k as int, before, roll as int));
        }
        k = k + 1;
    }
    let stop = v.careful && passes > 1;
    if stop {
        running = false;
    }
    let moved = v.old_y != v.hero_y || v.old_x != v.hero_x;
    LookResult { moved, drawn, woken, running, hero_shown: !running || !v.jump }
}

/// Whether `st` holds only what a look may leave after some squares: drawn
/// squares are on the map, next to the hero, and his own square only when
/// he is blind; monsters are woken only when asked; a run never starts, and
/// only a careful run stops.
pub open spec fn look_bounds(v: LookInput, st: LookState) -> bool {
    &&& forall|i: int| 0 <= i < st.drawn.len() ==> {
        let (y, x, _) = #[trigger] st.drawn[i];
        &&& 0 < y < MAXLINES - 1 && 0 <= x < MAXCOLS
        &&& v.hero_y - 1 <= y <= v.hero_y + 1 && v.hero_x - 1 <= x <= v.hero_x + 1
        &&& (y == v.hero_y && x == v.hero_x ==> v.blind)
    }
    &&& (!v.wakeup ==> st.woken.len() == 0)
    &&& (st.running ==> v.running)
    &&& (!v.careful ==> st.running == v.running && st.passes == 0)
}

proof fn lemma_look_bounds(v: LookInput, k: int, rolls: Seq<int>)
    requires
        0 <= k <= 9,
        v.squares@.len() == 9,
        i32::MIN < v.hero_y < i32::MAX,
        i32::MIN < v.hero_x < i32::MAX,
    ensures
        look_bounds(v, looked_upto(v, k, rolls)),
    decreases k,
{
    if k > 0 {
        lemma_look_bounds(v, k - 1, rolls);
        let st = looked_upto(v, k - 1, rolls);
        let j = k - 1;
        let nx = looked_upto(v, k, rolls);
        let y = square_y(v, j);
        let x = square_x(v, j);
        assert(nx == look_square(v, j, st, rolls[j]));
        if !passed_over(v, j) {
            assert(0 < y < MAXLINES - 1 && 0 <= x < MAXCOLS);
            assert((y as i32) as int == y && (x as i32) as int == x);
            assert(y == v.hero_y && x == v.hero_x ==> j == 4);
        }
        assert forall|i: int| 0 <= i < nx.drawn.len() implies {
            let (yy, xx, _) = #[trigger] nx.drawn[i];
            &&& 0 < yy < MAXLINES - 1 && 0 <= xx < MAXCOLS
            &&& v.hero_y - 1 <= yy <= v.hero_y + 1 && v.hero_x - 1 <= xx <= v.hero_x + 1
            &&& (yy == v.hero_y && xx == v.hero_x ==> v.blind)
        } by {
            if i < st.drawn.len() {
                assert(nx.drawn[i] == st.drawn[i]);
            }
        }
    }
}

/// What a look leaves, whatever the squares and the dice: it draws only
/// squares on the map next to the hero (his own one only when he is
/// blind); it wakes no monster unless asked to; it never starts a run, and
/// only a careful run can stop; and the hero's mark is drawn unless he runs
/// on with the `jump` option.
pub proof fn law_look_bounds(v: LookInput, rolls: Seq<int>, r: LookResult)
    requires
        v.squares@.len() == 9,
        i32::MIN < v.hero_y < i32::MAX,
        i32::MIN < v.hero_x < i32::MAX,
        looked(v, rolls, r),
    ensures
        forall|i: int| 0 <= i < r.drawn@.len() ==> {
            let (y, x, _) = #[trigger] r.drawn@[i];
            &&& 0 < y < MAXLINES - 1 && 0 <= x < MAXCOLS
            &&& v.hero_y - 1 <= y <= v.hero_y + 1 && v.hero_x - 1 <= x <= v.hero_x + 1
            &&& (y == v.hero_y && x == v.hero_x ==> v.blind)
        },
        !v.wakeup ==> r.woken@.len() == 0,
        r.running ==> v.running,
        !v.careful ==> r.running == v.running,
        r.hero_shown <==> (!r.running || !v.jump),
        r.moved <==> (v.old_y != v.hero_y || v.old_x != v.hero_x),
{
    lemma_look_bounds(v, 9, rolls);
}

} // verus!
