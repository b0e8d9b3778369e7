//! The decisions of moving the hero: whether a step leaves the map, what
//! the square stepped onto does, where a run turns in a corridor, and what
//! the hero notices around him while running.

use vstd::prelude::*;

use crate::rnd::{rnd, Dice};

verus! {

/// The width of the map, in columns.
pub const NUMCOLS: i32 = 80;
/// The height of the screen, in lines; the map is between the message line
/// and the status line.
pub const NUMLINES: i32 = 24;

pub const SPACE: u8 = 32;
pub const H_WALL: u8 = 45;
pub const V_WALL: u8 = 124;
pub const DOOR: u8 = 43;
pub const TRAP: u8 = 94;
pub const PASSAGE: u8 = 35;
pub const FLOOR: u8 = 46;
pub const STAIRS: u8 = 37;
/// The glyph of the venus flytrap, the one monster that holds the hero.
pub const FLYTRAP: u8 = 70;

/// Whether `(y, x)` is off the map: left or right of it, on the message
/// line or above, or on the status line or below.
pub open spec fn off_map(y: int, x: int) -> bool {
    x < 0 || x >= NUMCOLS || y <= 0 || y >= NUMLINES - 1
}

/// See `off_map`.
pub fn is_off_map(y: i32, x: i32) -> (r: bool)
    ensures
        r == off_map(y as int, x as int),
{
    x < 0 || x >= NUMCOLS || y <= 0 || y >= NUMLINES - 1
}

/// A turn that a run takes: the new running key and step.
#[derive(Clone, Copy, Debug, PartialEq, Eq, Structural)]
pub struct Turn {
    pub run: u8,
    pub dy: i32,
    pub dx: i32,
}

/// Where a run along a corridor turns when it cannot go on (with the
/// `passgo` option, running, in a corridor and not blind, which `enabled`
/// tells): a run left or right turns up or down, a run up or down turns
/// left or right, when exactly one of the two squares on the sides is open
/// and on the map; otherwise it does not turn.
pub open spec fn turn_of(
    enabled: bool,
    run: u8,
    y: int,
    x: int,
    open_up: bool,
    open_down: bool,
    open_left: bool,
    open_right: bool,
) -> Option<Turn> {
    if !enabled {
        None
    } else if run == 104 || run == 108 {
        let up = y != 1 && open_up;
        let down = y != NUMLINES - 2 && open_down;
        if up == down {
            None
        } else if up {
            Some(Turn { run: 107, dy: -1i32, dx: 0i32 })
        } else {
            Some(Turn { run: 106, dy: 1i32, dx: 0i32 })
        }
    } else if run == 106 || run == 107 {
        let left = x != 0 && open_left;
        let right = x != NUMCOLS - 1 && open_right;
        if left == right {
            None
        } else if left {
            Some(Turn { run: 104, dy: 0i32, dx: -1i32 })
        } else {
            Some(Turn { run: 108, dy: 0i32, dx: 1i32 })
        }
    } else {
        None
    }
}

/// See `turn_of`.
pub fn passgo_turn(
    enabled: bool,
    run: u8,
    y: i32,
    x: i32,
    open_up: bool,
    open_down: bool,
    open_left: bool,
    open_right: bool,
) -> (t: Option<Turn>)
    ensures
        t == turn_of(enabled, run, y as int, x as int, open_up, open_down, open_left, open_right),
{
    if !enabled {
        return None;
    }
    if run == 104 || run == 108 {
        let up = y != 1 && open_up;
        let down = y != NUMLINES - 2 && open_down;
        if up == down {
            None
        } else if up {
            Some(Turn { run: 107, dy: -1, dx: 0 })
        } else {
            Some(Turn { run: 106, dy: 1, dx: 0 })
        }
    } else if run == 106 || run == 107 {
        let left = x != 0 && open_left;
        let right = x != NUMCOLS - 1 && open_right;
        if left == right {
            None
        } else if left {
            Some(Turn { run: 104, dy: 0, dx: -1 })
        } else {
            Some(Turn { run: 108, dy: 0, dx: 1 })
        }
    } else {
        None
    }
}

/// What stepping onto a square does.
#[derive(Clone, Copy, Debug, PartialEq, Eq, Structural)]
pub enum Step {
    /// A flytrap holds the hero: he stays.
    Held,
    /// Rock or a wall: the hero stays and the turn is not used.
    Blocked,
    /// A door: the hero goes through it.
    Door,
    /// A trap springs.
    Trap,
    /// A corridor.
    Passage,
    /// Floor; `hidden` when a trap is hidden there that the hero floats over.
    Floor { hidden: bool },
    /// A monster is there: the hero attacks it.
    Fight,
    /// The hero steps onto the square and picks up what lies there.
    Take { what: u8 },
}

/// What stepping onto a square showing `glyph` does: `plain` tells that
/// no trap is hidden there, `monster` that a monster stands there. A floor
/// square with a hidden trap shows the trap (and springs it) unless the hero
/// floats; a held hero cannot move except to attack the flytrap; upper-case
/// letters are monsters.
pub open spec fn step_onto(glyph: u8, plain: bool, levitating: bool, held: bool, monster: bool) -> Step {
    let hidden = !plain && glyph == FLOOR;
    let ch = if hidden && !levitating { TRAP } else { glyph };
    if !hidden && held && glyph != FLYTRAP {
        Step::Held
    } else if ch == SPACE || ch == H_WALL || ch == V_WALL {
        Step::Blocked
    } else if ch == DOOR {
        Step::Door
    } else if ch == TRAP {
        Step::Trap
    } else if ch == PASSAGE {
        Step::Passage
    } else if ch == FLOOR {
        Step::Floor { hidden: !plain }
    } else if (65 <= ch <= 90) || monster {
        Step::Fight
    } else {
        Step::Take { what: ch }
    }
}

/// Whether stepping onto `glyph` shows a trap that was hidden there.
pub open spec fn shows_trap(glyph: u8, plain: bool, levitating: bool) -> bool {
    !plain && glyph == FLOOR && !levitating
}

/// See `step_onto` and `shows_trap`: what the step does, and whether a hidden
/// trap is now shown on the map.
pub fn step_action(glyph: u8, plain: bool, levitating: bool, held: bool, monster: bool) -> (r: (Step, bool))
    ensures
        r.0 == step_onto(glyph, plain, levitating, held, monster),
        r.1 == shows_trap(glyph, plain, levitating),
{
    let hidden = !plain && glyph == FLOOR;
    let shown = hidden && !levitating;
    let ch = if shown { TRAP } else { glyph };
    let step = if !hidden && held && glyph != FLYTRAP {
        Step::Held
    } else if ch == SPACE || ch == H_WALL || ch == V_WALL {
        Step::Blocked
    } else if ch == DOOR {
        Step::Door
    } else if ch == TRAP {
        Step::Trap
    } else if ch == PASSAGE {
        Step::Passage
    } else if ch == FLOOR {
        Step::Floor { hidden: !plain }
    } else if (65 <= ch && ch <= 90) || monster {
        Step::Fight
    } else {
        Step::Take { what: ch }
    };
    (step, shown)
}

/// What a running hero makes of a square next to him.
#[derive(Clone, Copy, Debug, PartialEq, Eq, Structural)]
pub enum Notice {
    /// The square is behind him: it does not count.
    Behind,
    /// He stops.
    Stop,
    /// A corridor square beside him, in line with him.
    Passage,
    /// Nothing to stop for.
    Nothing,
}

/// What a hero running with key `run` makes of the square at offset
/// `(dy, dx)` from him that shows `ch`: squares behind him do not count; a
/// door in line with him stops him, a corridor in line with him counts,
/// floor, walls and rock are nothing, and anything else stops him.
pub open spec fn notice_of(run: u8, dy: int, dx: int, ch: u8) -> Notice {
    let behind = (run == 104 && dx == 1) || (run == 106 && dy == -1) || (run == 107 && dy == 1) || (run
        == 108 && dx == -1) || (run == 121 && dy + dx >= 1) || (run == 117 && dy - dx >= 1) || (run == 110
        && dy + dx <= -1) || (run == 98 && dy - dx <= -1);
    if behind {
        Notice::Behind
    } else if ch == DOOR {
        if dx == 0 || dy == 0 { Notice::Stop } else { Notice::Nothing }
    } else if ch == PASSAGE {
        if dx == 0 || dy == 0 { Notice::Passage } else { Notice::Nothing }
    } else if ch == FLOOR || ch == V_WALL || ch == H_WALL || ch == SPACE {
        Notice::Nothing
    } else {
        Notice::Stop
    }
}

/// See `notice_of`.
pub fn run_notice(run: u8, dy: i32, dx: i32, ch: u8) -> (n: Notice)
    requires
        -1 <= dy <= 1,
        -1 <= dx <= 1,
    ensures
        n == notice_of(run, dy as int, dx as int, ch),
{
    let behind = (run == 104 && dx == 1) || (run == 106 && dy == -1) || (run == 107 && dy == 1) || (run
        == 108 && dx == -1) || (run == 121 && dy + dx >= 1) || (run == 117 && dy - dx >= 1) || (run == 110
        && dy + dx <= -1) || (run == 98 && dy - dx <= -1);
    if behind {
        Notice::Behind
    } else if ch == DOOR {
        if dx == 0 || dy == 0 { Notice::Stop } else { Notice::Nothing }
    } else if ch == PASSAGE {
        if dx == 0 || dy == 0 { Notice::Passage } else { Notice::Nothing }
    } else if ch == FLOOR || ch == V_WALL || ch == H_WALL || ch == SPACE {
        Notice::Nothing
    } else {
        Notice::Stop
    }
}

/// A run stops when more than one corridor square in line with the hero
/// was counted around him.
pub fn passages_stop(count: i32) -> (stop: bool)
    ensures
        stop == (count > 1),
{
    count > 1
}

/// The ground a room leaves on the screen when the hero walks out of it:
/// corridor for a room that is gone, floor for a lit room (or when the hero
/// is blind), nothing for a dark one.
pub open spec fn left_floor_of(gone: bool, dark: bool, blind: bool) -> u8 {
    if gone { PASSAGE } else if !dark || blind { FLOOR } else { SPACE }
}

/// See `left_floor_of`.
pub fn left_floor(gone: bool, dark: bool, blind: bool) -> (g: u8)
    ensures
        g == left_floor_of(gone, dark, blind),
{
    if gone {
        PASSAGE
    } else if !dark || blind {
        FLOOR
    } else {
        SPACE
    }
}

/// How a square of the screen is redrawn.
#[derive(Clone, Copy, Debug, PartialEq, Eq, Structural)]
pub enum Redraw {
    /// It stays as it is.
    Keep,
    /// It shows this character.
    Put(u8),
    /// It shows this character highlighted.
    Highlight(u8),
}

/// How a square of a room the hero has left is redrawn, where the screen
/// shows `screen`, `floor` is the room's ground (see `left_floor_of`) and
/// `place` is the square's map character: floor fades to the ground, and a
/// monster is kept (highlighted) only when the hero senses monsters, and
/// otherwise gives way to the door or ground beneath it.
pub open spec fn left_square_of(screen: u8, floor: u8, sense_monsters: bool, place: u8) -> Redraw {
    if screen == FLOOR {
        if floor == SPACE { Redraw::Put(SPACE) } else { Redraw::Keep }
    } else if 65 <= screen <= 90 {
        if sense_monsters {
            Redraw::Highlight(screen)
        } else {
            Redraw::Put(if place == DOOR { DOOR } else { floor })
        }
    } else {
        Redraw::Keep
    }
}

/// See `left_square_of`.
pub fn left_square(screen: u8, floor: u8, sense_monsters: bool, place: u8) -> (r: Redraw)
    ensures
        r == left_square_of(screen, floor, sense_monsters, place),
{
    if screen == FLOOR {
        if floor == SPACE {
            Redraw::Put(SPACE)
        } else {
            Redraw::Keep
        }
    } else if 65 <= screen && screen <= 90 {
        if sense_monsters {
            Redraw::Highlight(screen)
        } else {
            Redraw::Put(if place == DOOR { DOOR } else { floor })
        }
    } else {
        Redraw::Keep
    }
}

/// How a square of a lit room the hero enters is redrawn, where `place` is
/// its map character, `screen` what the screen shows and `monster` the
/// monster there, if any, with whether the hero can see it and what it
/// looks like: without a monster the map character is drawn; a visible
/// monster shows its looks; an unseen one shows highlighted only to a hero
/// who senses monsters, and otherwise the map character.
pub open spec fn entered_square_of(place: u8, screen: u8, monster: Option<(bool, u8)>, sense_monsters: bool) -> Redraw {
    match monster {
        None => if screen != place { Redraw::Put(place) } else { Redraw::Keep },
        Some((visible, looks)) => if visible {
            Redraw::Put(looks)
        } else if sense_monsters {
            Redraw::Highlight(looks)
        } else {
            Redraw::Put(place)
        },
    }
}

/// See `entered_square_of`.
pub fn entered_square(place: u8, screen: u8, monster: Option<(bool, u8)>, sense_monsters: bool) -> (r: Redraw)
    ensures
        r == entered_square_of(place, screen, monster, sense_monsters),
{
    match monster {
        None => if screen != place {
            Redraw::Put(place)
        } else {
            Redraw::Keep
        },
        Some((visible, looks)) => if visible {
            Redraw::Put(looks)
        } else if sense_monsters {
            Redraw::Highlight(looks)
        } else {
            Redraw::Put(place)
        },
    }
}

/// A random step for a wandering creature: each of the rows and columns
/// moves by -1, 0 or 1 (standing still is one of the outcomes). The row
/// comes from one draw of three outcomes and the column from a second.
pub fn random_offset(dice: &mut Dice) -> (d: (i32, i32))
    ensures
        -1 <= d.0 <= 1,
        -1 <= d.1 <= 1,
        final(dice).seed() == old(dice).seed(),
        final(dice).draws() == old(dice).draws().push(3).push(3),
{
    let dy = rnd(dice, 3) - 1;
    let dx = rnd(dice, 3) - 1;
    (dy, dx)
}

/// Whether a random step `(dy, dx)` is taken: standing still always is;
/// otherwise the step must be allowed diagonally (`diagonal_ok`), lead onto
/// a square one can step on (`walkable`), and not onto a scroll of scare
/// monster (`scare`).
pub open spec fn takes_step(dy: int, dx: int, diagonal_ok: bool, walkable: bool, scare: bool) -> bool {
    (dy == 0 && dx == 0) || (diagonal_ok && walkable && !scare)
}

/// See `takes_step`.
pub fn random_step_ok(dy: i32, dx: i32, diagonal_ok: bool, walkable: bool, scare: bool) -> (ok: bool)
    ensures
        ok == takes_step(dy as int, dx as int, diagonal_ok, walkable, scare),
{
    (dy == 0 && dx == 0) || (diagonal_ok && walkable && !scare)
}

/// What a hallucinating hero sees on a square showing `ch`, where `roll` is
/// a draw from `[0, 26)`: the map's own features (floor, rock, corridor,
/// walls, doors, traps) and stairs he has seen stay as they are; anything
/// else turns into the character with the code of the draw. A hero who is
/// not hallucinating, or a turn that has not taken place, sees it as it is.
pub open spec fn tripped_char(tripping: bool, acted: bool, ch: u8, known_stairs: bool, roll: int) -> u8 {
    if tripping && acted && !(ch == FLOOR || ch == SPACE || ch == PASSAGE || ch == H_WALL || ch == V_WALL
        || ch == DOOR || ch == TRAP) && !known_stairs {
        roll as u8
    } else {
        ch
    }
}

/// See `tripped_char`; `known_stairs` tells that the square is the stairs
/// and the hero has seen them.
pub fn trip_ch(dice: &mut Dice, tripping: bool, acted: bool, ch: u8, known_stairs: bool) -> (c: u8)
    ensures
        exists|roll: int| 0 <= roll < 26 && c == #[trigger] tripped_char(tripping, acted, ch, known_stairs, roll),
{
    if tripping && acted && !(ch == FLOOR || ch == SPACE || ch == PASSAGE || ch == H_WALL || ch == V_WALL
        || ch == DOOR || ch == TRAP) && !known_stairs {
        let r = rnd(dice, 26);
        assert(r as u8 == tripped_char(tripping, acted, ch, known_stairs, r as int));
        r as u8
    } else {
        assert(ch == tripped_char(tripping, acted, ch, known_stairs, 0));
        ch
    }
}

/// Whether the hero knows where the stairs are: the screen shows them, he
/// stands on them, or a monster stands on them that he sees running or
/// senses with the stairs under it. `monster` gives, for a monster on the
/// stairs, whether he sees it, whether it runs, and what it stands on.
pub open spec fn stairs_known(screen_shows: bool, on_them: bool, monster: Option<(bool, bool, u8)>, sense_monsters: bool) -> bool {
    screen_shows || on_them || match monster {
        Some((seen, running, under)) => (seen && running) || (sense_monsters && under == STAIRS),
        None => false,
    }
}

/// See `stairs_known`.
pub fn seen_stairs(screen_shows: bool, on_them: bool, monster: Option<(bool, bool, u8)>, sense_monsters: bool) -> (k: bool)
    ensures
        k == stairs_known(screen_shows, on_them, monster, sense_monsters),
{
    if screen_shows || on_them {
        return true;
    }
    match monster {
        Some((seen, running, under)) => (seen && running) || (sense_monsters && under == STAIRS),
        None => false,
    }
}

/// Whether a run may turn onto a square showing `ch` with flags `flags`: a
/// door, or a real corridor square.
pub open spec fn turnable(ch: u8, flags: u8) -> bool {
    ch == DOOR || (flags & 0x90) == 0x90
}

/// See `turnable`.
pub fn turn_ok(ch: u8, flags: u8) -> (ok: bool)
    ensures
        ok == turnable(ch, flags),
{
    ch == DOOR || (flags & 0x90) == 0x90
}

/// Whether the floor of the hero's room is shown: in a dark room (that is
/// not gone) and not blind, only with the `seefloor` option; otherwise
/// always.
pub open spec fn floor_shown(gone: bool, dark: bool, blind: bool, see_floor: bool) -> bool {
    if dark && !gone && !blind { see_floor } else { true }
}

/// See `floor_shown`.
pub fn show_floor(gone: bool, dark: bool, blind: bool, see_floor: bool) -> (shown: bool)
    ensures
        shown == floor_shown(gone, dark, blind, see_floor),
{
    if dark && !gone && !blind {
        see_floor
    } else {
        true
    }
}

/// What the screen shows under the hero where the map has `ch`: floor
/// shows as corridor in a room that is gone, as floor when shown, and as
/// nothing otherwise; anything else shows as itself.
pub open spec fn floor_at_of(ch: u8, gone: bool, shown: bool) -> u8 {
    if ch == FLOOR {
        if gone { PASSAGE } else if shown { FLOOR } else { SPACE }
    } else {
        ch
    }
}

/// See `floor_at_of`.
pub fn floor_at(ch: u8, gone: bool, shown: bool) -> (g: u8)
    ensures
        g == floor_at_of(ch, gone, shown),
{
    if ch == FLOOR {
        if gone {
            PASSAGE
        } else if shown {
            FLOOR
        } else {
            SPACE
        }
    } else {
        ch
    }
}

/// Whether a creature can step onto a square showing `ch`: not rock nor a
/// wall, and not a letter (a monster stands there).
pub open spec fn walkable(ch: u8) -> bool {
    !(ch == SPACE || ch == V_WALL || ch == H_WALL) && !((65 <= ch <= 90) || (97 <= ch <= 122))
}

/// See `walkable`.
pub fn step_ok(ch: u8) -> (ok: bool)
    ensures
        ok == walkable(ch),
{
    !(ch == SPACE || ch == V_WALL || ch == H_WALL) && !((65 <= ch && ch <= 90) || (97 <= ch && ch <= 122))
}

/// Stepping never goes into rock or a wall (a trap hidden in floor aside,
/// which is floor); a held hero only fights or stays; a monster's square is
/// fought, never entered; an open floor square with nothing hidden is
/// walked onto.
pub proof fn law_step(glyph: u8, plain: bool, levitating: bool, held: bool, monster: bool)
    ensures
        ({
            let st = step_onto(glyph, plain, levitating, held, monster);
            &&& (glyph == SPACE || glyph == H_WALL || glyph == V_WALL) && !held ==> st is Blocked
            &&& st is Blocked ==> glyph == SPACE || glyph == H_WALL || glyph == V_WALL
            &&& held && !(!plain && glyph == FLOOR) ==> (st is Held || st is Fight || st is Blocked)
            &&& !held && monster && !(glyph == SPACE || glyph == H_WALL || glyph == V_WALL || glyph == DOOR || glyph == TRAP
                || glyph == PASSAGE || glyph == FLOOR) ==> st is Fight
            &&& !held && plain && glyph == FLOOR ==> st == Step::Floor { hidden: false }
            &&& !held && !plain && glyph == FLOOR && !levitating ==> st is Trap
        }),
{
}

} // verus!
