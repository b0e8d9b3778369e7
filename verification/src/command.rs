//! The decisions of the command reader: repeat counts typed before a
//! command, which commands a count applies to and are remembered for
//! repeating, and the movement keys.

use vstd::prelude::*;

use crate::rip::{monster_name, monster_name_of};
use crate::rnd::{rnd, Dice};
use crate::text::push_text;
use crate::help::help_table;
use crate::ui::output::{format_key, key_name};

verus! {

/// The largest repeat count a command takes.
pub const MAX_COUNT: i32 = 255;
/// The escape key.
pub const ESCAPE: u8 = 27;

/// The count after typing the digit `ch` with `count` typed so far: ten
/// times it plus the digit, but no more than `MAX_COUNT`.
pub open spec fn counted_to(count: int, ch: u8) -> int {
    let n = count * 10 + (ch - 48);
    if n > MAX_COUNT { MAX_COUNT as int } else { n }
}

/// Add the digit `ch` to the repeat count typed so far.
pub fn count_step(count: i32, ch: u8) -> (n: i32)
    requires
        0 <= count <= MAX_COUNT,
        48 <= ch <= 57,
    ensures
        n == counted_to(count as int, ch),
        0 <= n <= MAX_COUNT,
{
    let n = count * 10 + (ch - 48) as i32;
    if n > MAX_COUNT {
        MAX_COUNT
    } else {
        n
    }
}

/// The control code of the letter `c`.
pub open spec fn ctrl(c: u8) -> u8 {
    (c & 0x1f) as u8
}

/// The commands that a repeat count applies to: moving and running, resting
/// and searching, fighting, and a few others; every other command drops it.
pub open spec fn takes_count(ch: u8) -> bool {
    ch == 2 || ch == 8 || ch == 10 || ch == 11 || ch == 12 || ch == 14 || ch == 21 || ch == 25 || ch == 4
        || ch == 1 || ch == 46 || ch == 97 || ch == 98 || ch == 104 || ch == 106 || ch == 107 || ch == 108
        || ch == 109 || ch == 110 || ch == 113 || ch == 114 || ch == 115 || ch == 116 || ch == 117 || ch
        == 121 || ch == 122 || ch == 66 || ch == 67 || ch == 72 || ch == 73 || ch == 74 || ch == 75 || ch
        == 76 || ch == 78 || ch == 85 || ch == 89
}

/// Whether a repeat count typed before the command `ch` is kept: Ctrl-B,
/// H, J, K, L, N, U, Y, D and A, `.`, `a`, `b`, `h`, `j`, `k`, `l`, `m`,
/// `n`, `q`, `r`, `s`, `t`, `u`, `y`, `z`, `B`, `C`, `H`, `I`, `J`, `K`, `L`,
/// `N`, `U` and `Y`.
pub fn keeps_count(ch: u8) -> (keep: bool)
    ensures
        keep == takes_count(ch),
{
    ch == 2 || ch == 8 || ch == 10 || ch == 11 || ch == 12 || ch == 14 || ch == 21 || ch == 25 || ch == 4
        || ch == 1 || ch == 46 || ch == 97 || ch == 98 || ch == 104 || ch == 106 || ch == 107
        || ch == 108 || ch == 109 || ch == 110 || ch == 113 || ch == 114 || ch == 115 || ch == 116
        || ch == 117 || ch == 121 || ch == 122 || ch == 66 || ch == 67 || ch == 72 || ch == 73
        || ch == 74 || ch == 75 || ch == 76 || ch == 78 || ch == 85 || ch == 89
}

/// Whether the command `ch` is remembered as the last one, for `a` to
/// repeat: not `a` itself nor Escape, and only when the hero is not running,
/// has no count left and is not fighting to the death.
pub open spec fn is_remembered(ch: u8, running: bool, count: int, to_death: bool) -> bool {
    ch != 97 && ch != ESCAPE && !running && count == 0 && !to_death
}

/// See `is_remembered`.
pub fn remembers_command(ch: u8, running: bool, count: i32, to_death: bool) -> (r: bool)
    ensures
        r == is_remembered(ch, running, count as int, to_death),
{
    ch != 97 && ch != ESCAPE && !running && count == 0 && !to_death
}

/// The step of a movement key, as (rows, columns): `h` left, `j` down, `k`
/// up, `l` right, `y`, `u`, `b`, `n` the diagonals.
pub open spec fn step_of(ch: u8) -> Option<(i32, i32)> {
    if ch == 104 { Some((0i32, -1i32)) }
    else if ch == 106 { Some((1i32, 0i32)) }
    else if ch == 107 { Some((-1i32, 0i32)) }
    else if ch == 108 { Some((0i32, 1i32)) }
    else if ch == 121 { Some((-1i32, -1i32)) }
    else if ch == 117 { Some((-1i32, 1i32)) }
    else if ch == 98 { Some((1i32, -1i32)) }
    else if ch == 110 { Some((1i32, 1i32)) }
    else { None }
}

/// See `step_of`.
pub fn move_delta(ch: u8) -> (d: Option<(i32, i32)>)
    ensures
        d == step_of(ch),
{
    if ch == 104 { Some((0, -1)) }
    else if ch == 106 { Some((1, 0)) }
    else if ch == 107 { Some((-1, 0)) }
    else if ch == 108 { Some((0, 1)) }
    else if ch == 121 { Some((-1, -1)) }
    else if ch == 117 { Some((-1, 1)) }
    else if ch == 98 { Some((1, -1)) }
    else if ch == 110 { Some((1, 1)) }
    else { None }
}

/// The movement key a running command runs with: an upper-case movement
/// key runs in its lower-case direction.
pub open spec fn run_of(ch: u8) -> Option<u8> {
    if 65 <= ch <= 90 && step_of((ch + 32) as u8) is Some { Some((ch + 32) as u8) } else { None }
}

/// See `run_of`.
pub fn run_key(ch: u8) -> (r: Option<u8>)
    ensures
        r == run_of(ch),
{
    if 65 <= ch && ch <= 90 {
        let lower = ch + 32;
        if move_delta(lower).is_some() {
            return Some(lower);
        }
    }
    None
}

/// Whether `ch` is Ctrl with a movement key, which runs until something
/// interesting shows up.
pub open spec fn is_ctrl_run(ch: u8) -> bool {
    ch == 8 || ch == 10 || ch == 11 || ch == 12 || ch == 25 || ch == 21 || ch == 2 || ch == 14
}

/// The command that Ctrl with a movement key turns into: the last direction
/// run when a count that was not just typed is pending, otherwise the key's
/// upper-case running command.
pub open spec fn ctrl_run_command(ch: u8, count: int, new_count: bool, direction: u8) -> u8 {
    if count != 0 && !new_count { direction } else { (ch + 64) as u8 }
}

/// See `ctrl_run_command`.
pub fn ctrl_run(ch: u8, count: i32, new_count: bool, direction: u8) -> (c: u8)
    requires
        is_ctrl_run(ch),
    ensures
        c == ctrl_run_command(ch, count as int, new_count, direction),
{
    if count != 0 && !new_count {
        direction
    } else {
        ch + 64
    }
}

/// What the command reader remembers between commands.
#[derive(Clone, Copy, Debug, PartialEq, Eq, Structural)]
pub struct CommandState {
    /// The repeat count left.
    pub count: i32,
    /// The count was typed before this command.
    pub new_count: bool,
    /// The running command a Ctrl-run turned into last.
    pub direction: u8,
    /// The last command and its direction, for `a` to repeat.
    pub last_comm: u8,
    pub last_dir: u8,
    /// The ones before those.
    pub l_last_comm: u8,
    pub l_last_dir: u8,
    /// This command repeats the last one.
    pub again: bool,
    /// A run stops at doors and crossings, and has not made its first step.
    pub door_stop: bool,
    pub firstmove: bool,
}

impl CommandState {
    /// The remembered commands never lead back to themselves: the last
    /// command is not `a`, and the last Ctrl-run turned into neither `a`
    /// nor another Ctrl-run.
    pub open spec fn wf(&self) -> bool {
        &&& self.last_comm != 97
        &&& self.direction != 97
        &&& !is_ctrl_run(self.direction)
    }
}

/// Where a command key leads.
#[derive(Clone, Copy, Debug, PartialEq, Eq, Structural)]
pub enum Dispatch {
    /// Carry out the command with this key.
    Run(u8),
    /// `a` with no command typed yet: the hero is told so, and no time
    /// passes.
    NothingToRepeat,
}

/// Where the key `ch` leads once Ctrl-run keys are turned into running
/// commands (see `ctrl_run_command`); a Ctrl-run also makes the run stop at
/// doors, unless the hero is blind.
pub open spec fn through_ctrl_run(s: CommandState, ch: u8, blind: bool) -> (CommandState, Dispatch) {
    if is_ctrl_run(ch) {
        let s1 = if blind { s } else { CommandState { door_stop: true, firstmove: true, ..s } };
        if s.count != 0 && !s.new_count {
            (s1, Dispatch::Run(s.direction))
        } else {
            (CommandState { direction: (ch + 64) as u8, ..s1 }, Dispatch::Run((ch + 64) as u8))
        }
    } else {
        (s, Dispatch::Run(ch))
    }
}

/// The reader's state and the command after the key `ch` (after any count
/// typed before it): a pending count is used up by one unless the hero
/// runs; a command that `is_remembered` becomes the last one (the one
/// before it is kept too); then `a` repeats the last command, and a
/// Ctrl-run key becomes a running command.
pub open spec fn command_begun(s: CommandState, ch: u8, running: bool, to_death: bool, blind: bool) -> (CommandState, Dispatch) {
    let s1 = if s.count != 0 && !running { CommandState { count: (s.count - 1) as i32, ..s } } else { s };
    let s2 = if is_remembered(ch, running, s1.count as int, to_death) {
        CommandState { l_last_comm: s1.last_comm, l_last_dir: s1.last_dir, last_comm: ch, last_dir: 0, ..s1 }
    } else {
        s1
    };
    if ch == 97 {
        if s2.last_comm == 0 {
            (s2, Dispatch::NothingToRepeat)
        } else {
            through_ctrl_run(CommandState { again: true, ..s2 }, s2.last_comm, blind)
        }
    } else {
        through_ctrl_run(s2, ch, blind)
    }
}

fn follow_ctrl_run(s: CommandState, ch: u8, blind: bool) -> (r: (CommandState, Dispatch))
    requires
        s.wf(),
    ensures
        r == through_ctrl_run(s, ch, blind),
{
    if is_ctrl_key(ch) {
        let s1 = if blind { s } else { CommandState { door_stop: true, firstmove: true, ..s } };
        let c = ctrl_run(ch, s.count, s.new_count, s.direction);
        if s.count != 0 && !s.new_count {
            (s1, Dispatch::Run(c))
        } else {
            (CommandState { direction: c, ..s1 }, Dispatch::Run(c))
        }
    } else {
        (s, Dispatch::Run(ch))
    }
}

fn is_ctrl_key(ch: u8) -> (b: bool)
    ensures
        b == is_ctrl_run(ch),
{
    ch == 8 || ch == 10 || ch == 11 || ch == 12 || ch == 25 || ch == 21 || ch == 2 || ch == 14
}

/// Begin the command with key `ch` (see `command_begun`).
pub fn begin_command(s: CommandState, ch: u8, running: bool, to_death: bool, blind: bool) -> (r: (CommandState, Dispatch))
    requires
        s.wf(),
        s.count >= 0,
    ensures
        r == command_begun(s, ch, running, to_death, blind),
        r.0.wf(),
        r.1 matches Dispatch::Run(c) ==> c != 97 && !is_ctrl_run(c),
{
    let mut t = s;
    if t.count != 0 && !running {
        t.count = t.count - 1;
    }
    if remembers_command(ch, running, t.count, to_death) {
        t = CommandState { l_last_comm: t.last_comm, l_last_dir: t.last_dir, last_comm: ch, last_dir: 0, ..t };
    }
    if ch == 97 {
        if t.last_comm == 0 {
            (t, Dispatch::NothingToRepeat)
        } else {
            let last = t.last_comm;
            follow_ctrl_run(CommandState { again: true, ..t }, last, blind)
        }
    } else {
        follow_ctrl_run(t, ch, blind)
    }
}

/// Where the command reader takes its next key from.
#[derive(Clone, Copy, Debug, PartialEq, Eq, Structural)]
pub enum KeySource {
    /// The hero cannot move: he rests (`.`) this turn.
    Rest,
    /// A run or a fight to the death goes on with its key.
    Repeat(u8),
    /// A pending count repeats the counted command.
    Counted(u8),
    /// The player types it (and the message line is cleared).
    Keyboard,
}

/// Where the next key comes from: a hero who cannot move rests; a run or a
/// fight to the death goes on with the run key; a pending count goes on
/// with the counted command; otherwise the player types one.
pub open spec fn key_source_of(no_command: int, running: bool, to_death: bool, count: int, run_ch: u8, count_ch: u8) -> KeySource {
    if no_command != 0 {
        KeySource::Rest
    } else if running || to_death {
        KeySource::Repeat(run_ch)
    } else if count != 0 {
        KeySource::Counted(count_ch)
    } else {
        KeySource::Keyboard
    }
}

/// See `key_source_of`.
pub fn next_key_source(no_command: i32, running: bool, to_death: bool, count: i32, run_ch: u8, count_ch: u8) -> (k: KeySource)
    ensures
        k == key_source_of(no_command as int, running, to_death, count as int, run_ch, count_ch),
{
    if no_command != 0 {
        KeySource::Rest
    } else if running || to_death {
        KeySource::Repeat(run_ch)
    } else if count != 0 {
        KeySource::Counted(count_ch)
    } else {
        KeySource::Keyboard
    }
}

/// A turn in which the hero cannot move: one fewer such turn is left, and
/// when none is left he can move (and run) again and is told so. Returns
/// the turns left and whether he woke.
pub fn sleep_turn(no_command: i32) -> (r: (i32, bool))
    requires
        no_command > 0,
    ensures
        r.0 == no_command - 1,
        r.1 == (no_command == 1),
{
    let left = no_command - 1;
    (left, left == 0)
}

/// What a command key asks for.
#[derive(Clone, Copy, Debug, PartialEq, Eq, Structural)]
pub enum Action {
    PickUp,
    Shell,
    /// Step by `(rows, columns)`.
    Move { dy: i32, dx: i32 },
    /// Run with the lower-case movement key.
    Run(u8),
    /// Ctrl with a movement key: a careful run (see `begin_command`).
    CarefulRun,
    /// Fight a monster in a direction; `to_death` without asking.
    Fight { to_death: bool },
    Throw,
    /// Repeat the last command (see `begin_command`).
    Again,
    Quaff,
    Quit,
    Inventory,
    PickyInventory,
    Drop,
    Read,
    Eat,
    Wield,
    Wear,
    TakeOff,
    RingOn,
    RingOff,
    Options,
    Call,
    Down,
    Up,
    Help,
    Identify,
    Search,
    Zap,
    Discovered,
    LastMessage,
    Redraw,
    Version,
    Save,
    Rest,
    Nothing,
    TrapName,
    WizardToggle,
    Escape,
    MoveOn,
    ShowWeapon,
    ShowArmor,
    ShowRings,
    Status,
    /// A wizard's command, with its key.
    Wizard(u8),
    /// No command: the hero is told the key is illegal.
    Illegal(u8),
}

/// The wizard's own command keys: `|`, `C`, `$`, `*` and Ctrl with G, W, D,
/// A, F, T, E, C, X, `~` or I.
pub open spec fn is_wizard_key(ch: u8) -> bool {
    ch == 124 || ch == 67 || ch == 36 || ch == 42 || ch == 7 || ch == 23 || ch == 4 || ch == 1 || ch == 6 || ch == 20
        || ch == 5 || ch == 3 || ch == 24 || ch == 30 || ch == 9
}

/// What the key `ch` asks for; `wizard` tells whether the wizard's own
/// commands are open.
pub open spec fn action_spec(ch: u8, wizard: bool) -> Action {
    if step_of(ch) is Some {
        Action::Move { dy: step_of(ch)->Some_0.0, dx: step_of(ch)->Some_0.1 }
    } else if run_of(ch) is Some {
        Action::Run(run_of(ch)->Some_0)
    } else if is_ctrl_run(ch) {
        Action::CarefulRun
    } else if ch == 44 { Action::PickUp }
    else if ch == 33 { Action::Shell }
    else if ch == 102 { Action::Fight { to_death: false } }
    else if ch == 70 { Action::Fight { to_death: true } }
    else if ch == 116 { Action::Throw }
    else if ch == 97 { Action::Again }
    else if ch == 113 { Action::Quaff }
    else if ch == 81 { Action::Quit }
    else if ch == 105 { Action::Inventory }
    else if ch == 73 { Action::PickyInventory }
    else if ch == 100 { Action::Drop }
    else if ch == 114 { Action::Read }
    else if ch == 101 { Action::Eat }
    else if ch == 119 { Action::Wield }
    else if ch == 87 { Action::Wear }
    else if ch == 84 { Action::TakeOff }
    else if ch == 80 { Action::RingOn }
    else if ch == 82 { Action::RingOff }
    else if ch == 111 { Action::Options }
    else if ch == 99 { Action::Call }
    else if ch == 62 { Action::Down }
    else if ch == 60 { Action::Up }
    else if ch == 63 { Action::Help }
    else if ch == 47 { Action::Identify }
    else if ch == 115 { Action::Search }
    else if ch == 122 { Action::Zap }
    else if ch == 68 { Action::Discovered }
    else if ch == 16 { Action::LastMessage }
    else if ch == 18 { Action::Redraw }
    else if ch == 118 { Action::Version }
    else if ch == 83 { Action::Save }
    else if ch == 46 { Action::Rest }
    else if ch == 32 { Action::Nothing }
    else if ch == 94 { Action::TrapName }
    else if ch == 43 { Action::WizardToggle }
    else if ch == ESCAPE { Action::Escape }
    else if ch == 109 { Action::MoveOn }
    else if ch == 41 { Action::ShowWeapon }
    else if ch == 93 { Action::ShowArmor }
    else if ch == 61 { Action::ShowRings }
    else if ch == 64 { Action::Status }
    else if wizard && is_wizard_key(ch) { Action::Wizard(ch) }
    else { Action::Illegal(ch) }
}

/// See `action_spec`.
pub fn action_of(ch: u8, wizard: bool) -> (a: Action)
    ensures
        a == action_spec(ch, wizard),
{
    if let Some((dy, dx)) = move_delta(ch) {
        return Action::Move { dy, dx };
    }
    if let Some(r) = run_key(ch) {
        return Action::Run(r);
    }
    if is_ctrl_key(ch) {
        return Action::CarefulRun;
    }
    if ch == 44 { Action::PickUp }
    else if ch == 33 { Action::Shell }
    else if ch == 102 { Action::Fight { to_death: false } }
    else if ch == 70 { Action::Fight { to_death: true } }
    else if ch == 116 { Action::Throw }
    else if ch == 97 { Action::Again }
    else if ch == 113 { Action::Quaff }
    else if ch == 81 { Action::Quit }
    else if ch == 105 { Action::Inventory }
    else if ch == 73 { Action::PickyInventory }
    else if ch == 100 { Action::Drop }
    else if ch == 114 { Action::Read }
    else if ch == 101 { Action::Eat }
    else if ch == 119 { Action::Wield }
    else if ch == 87 { Action::Wear }
    else if ch == 84 { Action::TakeOff }
    else if ch == 80 { Action::RingOn }
    else if ch == 82 { Action::RingOff }
    else if ch == 111 { Action::Options }
    else if ch == 99 { Action::Call }
    else if ch == 62 { Action::Down }
    else if ch == 60 { Action::Up }
    else if ch == 63 { Action::Help }
    else if ch == 47 { Action::Identify }
    else if ch == 115 { Action::Search }
    else if ch == 122 { Action::Zap }
    else if ch == 68 { Action::Discovered }
    else if ch == 16 { Action::LastMessage }
    else if ch == 18 { Action::Redraw }
    else if ch == 118 { Action::Version }
    else if ch == 83 { Action::Save }
    else if ch == 46 { Action::Rest }
    else if ch == 32 { Action::Nothing }
    else if ch == 94 { Action::TrapName }
    else if ch == 43 { Action::WizardToggle }
    else if ch == ESCAPE { Action::Escape }
    else if ch == 109 { Action::MoveOn }
    else if ch == 41 { Action::ShowWeapon }
    else if ch == 93 { Action::ShowArmor }
    else if ch == 61 { Action::ShowRings }
    else if ch == 64 { Action::Status }
    else if wizard && (ch == 124 || ch == 67 || ch == 36 || ch == 42 || ch == 7 || ch == 23 || ch == 4 || ch == 1
        || ch == 6 || ch == 20 || ch == 5 || ch == 3 || ch == 24 || ch == 30 || ch == 9) { Action::Wizard(ch) }
    else { Action::Illegal(ch) }
}

/// The commands that never take a turn, whatever follows them: quitting,
/// the inventories, options, naming, the stairs (which move the hero
/// themselves), help and identifying a symbol, the discoveries, the last
/// message, redrawing, the version, saving, naming a trap, the wizard
/// switch, Escape, the status line, and every key that is no command.
pub open spec fn costs_nothing(ch: u8) -> bool {
    ch == 81 || ch == 105 || ch == 73 || ch == 111 || ch == 99 || ch == 62 || ch == 60 || ch == 63 || ch == 47
        || ch == 68 || ch == 16 || ch == 18 || ch == 118 || ch == 83 || ch == 32 || ch == 94 || ch == 43
        || ch == ESCAPE || ch == 64 || !is_command_key(ch)
}

/// The keys the command reader knows (Ctrl-run keys and `a` are turned
/// into others before).
pub open spec fn is_command_key(ch: u8) -> bool {
    ch == 44 || ch == 33 || step_of(ch) is Some || run_of(ch) is Some || ch == 102 || ch == 70 || ch == 116
        || ch == 113 || ch == 81 || ch == 105 || ch == 73 || ch == 100 || ch == 114 || ch == 101 || ch == 119
        || ch == 87 || ch == 84 || ch == 80 || ch == 82 || ch == 111 || ch == 99 || ch == 62 || ch == 60
        || ch == 63 || ch == 47 || ch == 115 || ch == 122 || ch == 68 || ch == 16 || ch == 18 || ch == 118
        || ch == 83 || ch == 46 || ch == 32 || ch == 94 || ch == 43 || ch == ESCAPE || ch == 109 || ch == 41
        || ch == 93 || ch == 61 || ch == 64
}

/// See `costs_nothing`.
pub fn command_is_free(ch: u8) -> (free: bool)
    ensures
        free == costs_nothing(ch),
{
    let known = ch == 44 || ch == 33 || move_delta(ch).is_some() || run_key(ch).is_some() || ch == 102 || ch == 70
        || ch == 116 || ch == 113 || ch == 81 || ch == 105 || ch == 73 || ch == 100 || ch == 114 || ch == 101
        || ch == 119 || ch == 87 || ch == 84 || ch == 80 || ch == 82 || ch == 111 || ch == 99 || ch == 62
        || ch == 60 || ch == 63 || ch == 47 || ch == 115 || ch == 122 || ch == 68 || ch == 16 || ch == 18
        || ch == 118 || ch == 83 || ch == 46 || ch == 32 || ch == 94 || ch == 43 || ch == ESCAPE || ch == 109
        || ch == 41 || ch == 93 || ch == 61 || ch == 64;
    ch == 81 || ch == 105 || ch == 73 || ch == 111 || ch == 99 || ch == 62 || ch == 60 || ch == 63 || ch == 47
        || ch == 68 || ch == 16 || ch == 18 || ch == 118 || ch == 83 || ch == 32 || ch == 94 || ch == 43
        || ch == ESCAPE || ch == 64 || !known
}

/// The answer to "which direction?".
#[derive(Clone, Copy, Debug, PartialEq, Eq, Structural)]
pub enum DirAnswer {
    /// A direction: its step and its lower-case key.
    Toward { dy: i32, dx: i32, key: u8 },
    /// Escape: the hero gave up.
    Cancel,
    /// Not a direction: ask again.
    Retry,
}

/// The answer that the key `ch` gives to "which direction?": a movement key
/// in either case, Escape, or anything else.
pub open spec fn dir_answer_of(ch: u8) -> DirAnswer {
    let lower = if 65 <= ch <= 90 { (ch + 32) as u8 } else { ch };
    if ch == ESCAPE {
        DirAnswer::Cancel
    } else {
        match step_of(lower) {
            Some((dy, dx)) => DirAnswer::Toward { dy, dx, key: lower },
            None => DirAnswer::Retry,
        }
    }
}

/// See `dir_answer_of`.
pub fn direction_key(ch: u8) -> (a: DirAnswer)
    ensures
        a == dir_answer_of(ch),
{
    if ch == ESCAPE {
        return DirAnswer::Cancel;
    }
    let lower = if 65 <= ch && ch <= 90 { ch + 32 } else { ch };
    match move_delta(lower) {
        Some((dy, dx)) => DirAnswer::Toward { dy, dx, key: lower },
        None => DirAnswer::Retry,
    }
}

/// The eight steps a confused hero may stumble in, in the order of rows
/// then columns.
pub open spec fn stumble(k: int) -> (i32, i32) {
    if k < 3 {
        ((-1) as i32, (k - 1) as i32)
    } else if k == 3 {
        (0i32, (-1) as i32)
    } else if k == 4 {
        (0i32, 1i32)
    } else {
        (1i32, (k - 6) as i32)
    }
}

/// A step in a direction drawn at random for a confused hero: any of the
/// eight, never standing still.
pub fn confused_step(dice: &mut Dice) -> (d: (i32, i32))
    ensures
        exists|k: int| 0 <= k < 8 && d == #[trigger] stumble(k),
        -1 <= d.0 <= 1 && -1 <= d.1 <= 1 && !(d.0 == 0 && d.1 == 0),
{
    let k = rnd(dice, 8);
    let d = if k < 3 {
        (-1, k - 1)
    } else if k == 3 {
        (0, -1)
    } else if k == 4 {
        (0, 1)
    } else {
        (1, k - 6)
    };
    assert(d == stumble(k as int));
    d
}

/// What a character on the screen stands for: a monster for a capital
/// letter, otherwise the feature or item it marks, or an unknown character.
pub open spec fn glyph_meaning(ch: u8) -> Seq<char> {
    if 65 <= ch <= 90 {
        monster_name(ch - 65)
    } else if ch == 124 || ch == 45 {
        "wall of a room"@
    } else if ch == 42 {
        "gold"@
    } else if ch == 37 {
        "a staircase"@
    } else if ch == 43 {
        "door"@
    } else if ch == 46 {
        "room floor"@
    } else if ch == 64 {
        "you"@
    } else if ch == 35 {
        "passage"@
    } else if ch == 94 {
        "trap"@
    } else if ch == 33 {
        "potion"@
    } else if ch == 63 {
        "scroll"@
    } else if ch == 58 {
        "food"@
    } else if ch == 41 {
        "weapon"@
    } else if ch == 32 {
        "solid rock"@
    } else if ch == 93 {
        "armor"@
    } else if ch == 44 {
        "the Amulet of Yendor"@
    } else if ch == 61 {
        "ring"@
    } else if ch == 47 {
        "wand or staff"@
    } else {
        "unknown character"@
    }
}

fn meaning(ch: u8) -> (m: &'static str)
    ensures
        m@ == glyph_meaning(ch),
{
    if 65 <= ch && ch <= 90 {
        monster_name_of(ch)
    } else if ch == 124 || ch == 45 {
        "wall of a room"
    } else if ch == 42 {
        "gold"
    } else if ch == 37 {
        "a staircase"
    } else if ch == 43 {
        "door"
    } else if ch == 46 {
        "room floor"
    } else if ch == 64 {
        "you"
    } else if ch == 35 {
        "passage"
    } else if ch == 94 {
        "trap"
    } else if ch == 33 {
        "potion"
    } else if ch == 63 {
        "scroll"
    } else if ch == 58 {
        "food"
    } else if ch == 41 {
        "weapon"
    } else if ch == 32 {
        "solid rock"
    } else if ch == 93 {
        "armor"
    } else if ch == 44 {
        "the Amulet of Yendor"
    } else if ch == 61 {
        "ring"
    } else if ch == 47 {
        "wand or staff"
    } else {
        "unknown character"
    }
}

/// The answer to "what do you want identified?" for the key `ch`: the key
/// in quotes, then what it stands for.
pub open spec fn identify_text(ch: u8) -> Seq<char> {
    "'"@ + key_name(ch) + "': "@ + glyph_meaning(ch)
}

/// See `identify_text`.
pub fn identify_message(ch: u8) -> (m: String)
    ensures
        m@ == identify_text(ch),
{
    let mut m = String::new();
    push_text(&mut m, "'");
    let k = format_key(ch);
    push_text(&mut m, k.as_str());
    push_text(&mut m, "': ");
    push_text(&mut m, meaning(ch));
    m
}

/// What taking the stairs comes to.
#[derive(Clone, Copy, Debug, PartialEq, Eq, Structural)]
pub enum Climb {
    /// A floating hero cannot reach the stairs.
    Floating,
    /// There are no stairs here.
    NoStairs,
    /// The way up stays closed without the amulet.
    Blocked,
    /// The hero arrives on this level.
    Arrive(i32),
    /// The hero comes up out of the dungeon with the amulet.
    Escape,
}

/// Going up from level `level`: only on stairs, not floating, and with the
/// amulet; going up from the first level leaves the dungeon.
pub open spec fn climb_up(floating: bool, on_stairs: bool, amulet: bool, level: int) -> Climb {
    if floating {
        Climb::Floating
    } else if !on_stairs {
        Climb::NoStairs
    } else if !amulet {
        Climb::Blocked
    } else if level - 1 == 0 {
        Climb::Escape
    } else {
        Climb::Arrive((level - 1) as i32)
    }
}

/// See `climb_up`.
pub fn go_up(floating: bool, on_stairs: bool, amulet: bool, level: i32) -> (c: Climb)
    requires
        level > i32::MIN,
    ensures
        c == climb_up(floating, on_stairs, amulet, level as int),
{
    if floating {
        Climb::Floating
    } else if !on_stairs {
        Climb::NoStairs
    } else if !amulet {
        Climb::Blocked
    } else if level - 1 == 0 {
        Climb::Escape
    } else {
        Climb::Arrive(level - 1)
    }
}

/// Going down from level `level`: only on stairs and not floating.
pub open spec fn climb_down(floating: bool, on_stairs: bool, level: int) -> Climb {
    if floating {
        Climb::Floating
    } else if !on_stairs {
        Climb::NoStairs
    } else {
        Climb::Arrive((level + 1) as i32)
    }
}

/// See `climb_down`.
pub fn go_down(floating: bool, on_stairs: bool, level: i32) -> (c: Climb)
    requires
        level < i32::MAX,
    ensures
        c == climb_down(floating, on_stairs, level as int),
{
    if floating {
        Climb::Floating
    } else if !on_stairs {
        Climb::NoStairs
    } else {
        Climb::Arrive(level + 1)
    }
}

/// What the hero is told on taking the stairs, going up when `up`.
pub open spec fn climb_text(c: Climb, up: bool) -> Seq<char> {
    match c {
        Climb::Floating => "You can't.  You're floating off the ground!"@,
        Climb::NoStairs => if up { "I see no way up"@ } else { "I see no way down"@ },
        Climb::Blocked => "your way is magically blocked"@,
        Climb::Arrive(_) => if up { "you feel a wrenching sensation in your gut"@ } else { ""@ },
        Climb::Escape => ""@,
    }
}

/// See `climb_text`.
pub fn climb_message(c: Climb, up: bool) -> (m: &'static str)
    ensures
        m@ == climb_text(c, up),
{
    match c {
        Climb::Floating => "You can't.  You're floating off the ground!",
        Climb::NoStairs => if up { "I see no way up" } else { "I see no way down" },
        Climb::Blocked => "your way is magically blocked",
        Climb::Arrive(_) => if up { "you feel a wrenching sensation in your gut" } else { "" },
        Climb::Escape => "",
    }
}

/// The line telling what the hero has in hand or on: the `letter` and
/// `name` of the item, if any, after how it is used (`how`) and before
/// where (`place`), with `you are ` in front unless terse.
pub open spec fn current_text(item: Option<(u8, Seq<char>)>, how: Seq<char>, place: Option<Seq<char>>, terse: bool) -> Seq<char> {
    let tail = match place { Some(p) => seq![' '] + p, None => Seq::empty() };
    match item {
        Some((letter, name)) => (if terse { Seq::empty() } else { "you are "@ + how + " ("@ })
            + seq![letter as char, ')', ' '] + name + tail,
        None => (if terse { Seq::empty() } else { "you are "@ }) + how + " nothing"@ + tail,
    }
}

/// See `current_text`.
pub fn current_message(item: Option<(u8, &str)>, how: &str, place: Option<&str>, terse: bool) -> (m: String)
    ensures
        m@ == current_text(
            match item { Some((l, n)) => Some((l, n@)), None => None },
            how@,
            match place { Some(p) => Some(p@), None => None },
            terse,
        ),
{
    let mut m = String::new();
    match item {
        Some((letter, name)) => {
            if !terse {
                push_text(&mut m, "you are ");
                push_text(&mut m, how);
                push_text(&mut m, " (");
            }
            crate::text::string_push(&mut m, letter as char);
            crate::text::string_push(&mut m, ')');
            crate::text::string_push(&mut m, ' ');
            push_text(&mut m, name);
        },
        None => {
            if !terse {
                push_text(&mut m, "you are ");
            }
            push_text(&mut m, how);
            push_text(&mut m, " nothing");
        },
    }
    match place {
        Some(p) => {
            crate::text::string_push(&mut m, ' ');
            push_text(&mut m, p);
        },
        None => {},
    }
    proof {
        let ghost item_v = match item { Some((l, n)) => Some((l, n@)), None => None::<(u8, Seq<char>)> };
        let ghost place_v = match place { Some(p) => Some(p@), None => None::<Seq<char>> };
        assert(m@ =~= current_text(item_v, how@, place_v, terse));
    }
    m
}

/// The complaint about a key that is no command.
pub open spec fn illegal_text(ch: u8) -> Seq<char> {
    "illegal command '"@ + key_name(ch) + "'"@
}

/// See `illegal_text`.
pub fn illegal_command_message(ch: u8) -> (m: String)
    ensures
        m@ == illegal_text(ch),
{
    let mut m = String::new();
    push_text(&mut m, "illegal command '");
    let k = format_key(ch);
    push_text(&mut m, k.as_str());
    push_text(&mut m, "'");
    m
}

/// Every movement key has a running command: its upper case, which also
/// Ctrl with the key becomes when no count is pending.
pub proof fn lemma_run_commands(ch: u8)
    requires
        step_of(ch) is Some,
    ensures
        run_of((ch - 32) as u8) == Some(ch),
        is_ctrl_run(ctrl(ch)),
        ctrl_run_command(ctrl(ch), 0, false, 0) == (ch - 32) as u8,
{
    assert(ctrl(ch) == ch - 96) by (bit_vector)
        requires
            97 <= ch <= 122,
    ;
}

/// Every command the help screen lists is a command: its key runs an
/// action and is never refused as illegal, whoever plays.
pub proof fn law_listed_keys_are_commands(i: int, wizard: bool)
    requires
        0 <= i < help_table().len(),
        help_table()[i].2,
        help_table()[i].0 != 0,
    ensures
        !(action_spec(help_table()[i].0, wizard) is Illegal),
{
    let t = help_table();
    lemma_help_keys();
    assert(listed_command_key(t[i].0));
}

/// The keys of the help screen's listed lines (other than the two lines
/// about running, which name no key).
spec fn listed_command_key(ch: u8) -> bool {
    ch == 63 || ch == 47 || ch == 104 || ch == 106 || ch == 107 || ch == 108 || ch == 121 || ch == 117 || ch == 98
        || ch == 110 || ch == 102 || ch == 116 || ch == 109 || ch == 122 || ch == 94 || ch == 115 || ch == 62
        || ch == 60 || ch == 46 || ch == 44 || ch == 105 || ch == 73 || ch == 113 || ch == 114 || ch == 101
        || ch == 119 || ch == 87 || ch == 84 || ch == 80 || ch == 82 || ch == 100 || ch == 99 || ch == 97
        || ch == 41 || ch == 93 || ch == 61 || ch == 64 || ch == 68 || ch == 111 || ch == 18 || ch == 16
        || ch == 27 || ch == 83 || ch == 81 || ch == 33 || ch == 70 || ch == 118
}

proof fn lemma_help_keys()
    ensures
        forall|i: int| 0 <= i < help_table().len() && help_table()[i].2 && help_table()[i].0 != 0
            ==> listed_command_key(#[trigger] help_table()[i].0),
{
    let t = help_table();
    assert forall|i: int| 0 <= i < t.len() && t[i].2 && t[i].0 != 0 implies listed_command_key(#[trigger] t[i].0) by {
    }
}

/// Each action comes from its own key: moving from the key of its step,
/// running from the upper-case movement key, a careful run from Ctrl with a
/// movement key, fighting from `f` (to the death from `F`), a wizard's
/// command from its key when the wizard's commands are open, and each other
/// command from exactly one key; an illegal key is reported as itself.
pub proof fn law_action_keys(ch: u8, wizard: bool)
    ensures
        ({
            let a = action_spec(ch, wizard);
            &&& a matches Action::Move { dy, dx } ==> step_of(ch) == Some((dy, dx))
            &&& a matches Action::Run(r) ==> 65 <= ch <= 90 && r == ch + 32 && step_of(r) is Some
            &&& a is CarefulRun ==> is_ctrl_run(ch)
            &&& a matches Action::Fight { to_death } ==> (ch == 102 && !to_death) || (ch == 70 && to_death)
            &&& a matches Action::Wizard(c) ==> c == ch && wizard
            &&& a matches Action::Illegal(c) ==> c == ch
            &&& (a is PickUp <==> ch == 44)
            &&& (a is Shell <==> ch == 33)
            &&& (a is Throw <==> ch == 116)
            &&& (a is Again <==> ch == 97)
            &&& (a is Quaff <==> ch == 113)
            &&& (a is Quit <==> ch == 81)
            &&& (a is Inventory <==> ch == 105)
            &&& (a is PickyInventory <==> ch == 73)
            &&& (a is Drop <==> ch == 100)
            &&& (a is Read <==> ch == 114)
            &&& (a is Eat <==> ch == 101)
            &&& (a is Wield <==> ch == 119)
            &&& (a is Wear <==> ch == 87)
            &&& (a is TakeOff <==> ch == 84)
            &&& (a is RingOn <==> ch == 80)
            &&& (a is RingOff <==> ch == 82)
            &&& (a is Options <==> ch == 111)
            &&& (a is Call <==> ch == 99)
            &&& (a is Down <==> ch == 62)
            &&& (a is Up <==> ch == 60)
            &&& (a is Help <==> ch == 63)
            &&& (a is Identify <==> ch == 47)
            &&& (a is Search <==> ch == 115)
            &&& (a is Zap <==> ch == 122)
            &&& (a is Discovered <==> ch == 68)
            &&& (a is LastMessage <==> ch == 16)
            &&& (a is Redraw <==> ch == 18)
            &&& (a is Version <==> ch == 118)
            &&& (a is Save <==> ch == 83)
            &&& (a is Rest <==> ch == 46)
            &&& (a is Nothing <==> ch == 32)
            &&& (a is TrapName <==> ch == 94)
            &&& (a is WizardToggle <==> ch == 43)
            &&& (a is Escape <==> ch == 27)
            &&& (a is MoveOn <==> ch == 109)
            &&& (a is ShowWeapon <==> ch == 41)
            &&& (a is ShowArmor <==> ch == 93)
            &&& (a is ShowRings <==> ch == 61)
            &&& (a is Status <==> ch == 64)
        }),
{
}

/// How the reader's memory and the command follow from a key: a pending
/// count is used up by one unless the hero runs; a command typed with no
/// count left (not `a`, not Escape, not while running or fighting to the
/// death) becomes the last command and the one before is kept; `a` runs the
/// last command again (or is refused when there is none) and changes no
/// memory of commands; a movement key under Ctrl makes a careful run, in
/// its own direction unless a count still pending from before keeps the
/// last direction;
/// and any other key runs itself.
pub proof fn law_begin_command(s: CommandState, ch: u8, running: bool, to_death: bool, blind: bool)
    requires
        s.wf(),
        s.count >= 0,
    ensures
        ({
            let (t, d) = command_begun(s, ch, running, to_death, blind);
            &&& t.count == (if s.count != 0 && !running { s.count - 1 } else { s.count as int })
            &&& (ch != 97 && ch != ESCAPE && !running && !to_death && t.count == 0 ==> t.last_comm == ch
                && t.l_last_comm == s.last_comm && t.last_dir == 0)
            &&& (ch == 97 || ch == ESCAPE || running || to_death || t.count != 0 ==> t.last_comm == s.last_comm)
            &&& (ch == 97 ==> t.last_comm == s.last_comm && (s.last_comm == 0 <==> d is NothingToRepeat))
            &&& (ch == 97 && s.last_comm != 0 && !is_ctrl_run(s.last_comm) ==> d == Dispatch::Run(s.last_comm) && t.again)
            &&& (is_ctrl_run(ch) && (t.count == 0 || s.new_count) ==> d == Dispatch::Run((ch + 64) as u8)
                && t.direction == (ch + 64) as u8)
            &&& (is_ctrl_run(ch) && !blind ==> t.door_stop && t.firstmove)
            &&& (is_ctrl_run(ch) && t.count != 0 && !s.new_count ==> d == Dispatch::Run(s.direction))
            &&& (ch != 97 && !is_ctrl_run(ch) ==> d == Dispatch::Run(ch) && t.again == s.again)
        }),
{
}

/// The movement keys: each of the eight moves one square, in eight
/// different directions, and `h`/`l`, `j`/`k`, `y`/`n` and `u`/`b` go
/// opposite ways; the upper-case key runs the way its lower-case key moves.
pub proof fn law_movement_keys(a: u8, b: u8)
    ensures
        step_of(a) matches Some((dy, dx)) ==> -1 <= dy <= 1 && -1 <= dx <= 1 && !(dy == 0 && dx == 0),
        step_of(a) is Some && step_of(b) is Some && a != b ==> step_of(a) != step_of(b),
        step_of(104) matches Some((y1, x1)) && step_of(108) matches Some((y2, x2)) && y1 == -y2 && x1 == -x2,
        step_of(106) matches Some((y1, x1)) && step_of(107) matches Some((y2, x2)) && y1 == -y2 && x1 == -x2,
        step_of(121) matches Some((y1, x1)) && step_of(110) matches Some((y2, x2)) && y1 == -y2 && x1 == -x2,
        step_of(117) matches Some((y1, x1)) && step_of(98) matches Some((y2, x2)) && y1 == -y2 && x1 == -x2,
        run_of(a) matches Some(r) ==> step_of(r) is Some && r == a + 32,
        (step_of(a) is Some) <==> (a == 104 || a == 106 || a == 107 || a == 108 || a == 121 || a == 117 || a == 98 || a == 110),
{
}

} // verus!
