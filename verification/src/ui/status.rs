//! The status line at the bottom of the screen.

use vstd::prelude::*;
use vstd::string::StringSliceAdditionalSpecFns;

use super::terminal::{blank_line_from, same_settings, spec_in_bounds, text_effect, ScreenCell, Terminal};
use crate::format::{decimal, decimal_chars, field, push_chars, push_field};
use crate::geom::IVec2;
use crate::text::push_text;

verus! {

/// The screen row of the status line.
pub const STATLINE: i32 = 23;

/// What the status line shows.
#[derive(Clone, Copy, Debug, PartialEq, Eq, Structural)]
pub struct StatusInput {
    /// Dungeon depth.
    pub depth: i32,
    pub purse: i32,
    pub hit_points: i32,
    pub max_hit_points: i32,
    pub strength: u32,
    pub max_strength: u32,
    /// The armor class worn (lower is better).
    pub armor: i32,
    /// The hero's experience level.
    pub rank: i32,
    pub experience: i32,
    /// `0` fed, `1` hungry, `2` weak, `3` fainting.
    pub hungry_state: i32,
}

/// The hunger word shown at the end of the status line.
pub open spec fn hunger_name(state: i32) -> Seq<char> {
    if state == 1 { "Hungry"@ } else if state == 2 { "Weak"@ } else if state == 3 { "Faint"@ } else { ""@ }
}

/// The number of decimal digits of `n`; none for `0`.
pub open spec fn digit_count(n: nat) -> nat
    decreases n,
{
    if n == 0 { 0 } else { 1 + digit_count(n / 10) }
}

/// Width of the hit-point fields: the digits of the maximum hit points.
pub open spec fn hp_width(max_hp: i32) -> nat {
    digit_count((if max_hp < 0 { -max_hp } else { max_hp as int }) as nat)
}

/// The status line for `s`, with hit points in fields `w` wide.
pub open spec fn status_text(s: StatusInput, w: int) -> Seq<char> {
    "Level: "@ + decimal(s.depth as int)
        + "  Gold: "@ + field(decimal(s.purse as int), 5, false)
        + "  Hp: "@ + field(decimal(s.hit_points as int), w, true)
        + "("@ + field(decimal(s.max_hit_points as int), w, true)
        + ")  Str: "@ + field(decimal(s.strength as int), 2, true)
        + "("@ + decimal(s.max_strength as int)
        + ")  Arm: "@ + field(decimal(10 - s.armor), 2, false)
        + "  Exp: "@ + decimal(s.rank as int)
        + "/"@ + decimal(s.experience as int)
        + "  "@ + hunger_name(s.hungry_state)
}

/// What the status line last showed, so that it is redrawn only on change.
pub struct StatusCache {
    pub hit_points: i32,
    pub experience: i32,
    pub purse: i32,
    pub armor: i32,
    pub strength: u32,
    pub depth: i32,
    pub hungry_state: i32,
    pub hp_width: i32,
}

/// Whether the cache already shows everything of `s` that the status line
/// watches.
pub open spec fn unchanged(c: StatusCache, s: StatusInput) -> bool {
    &&& c.hit_points == s.hit_points
    &&& c.experience == s.experience
    &&& c.purse == s.purse
    &&& c.armor == s.armor
    &&& c.strength == s.strength
    &&& c.depth == s.depth
    &&& c.hungry_state == s.hungry_state
}

fn hunger_word(state: i32) -> (w: &'static str)
    ensures
        w@ == hunger_name(state),
{
    if state == 1 { "Hungry" } else if state == 2 { "Weak" } else if state == 3 { "Faint" } else { "" }
}

fn count_digits(n: i32) -> (w: i32)
    ensures
        w == hp_width(n),
{
    let mut t: i64 = if n < 0 { -(n as i64) } else { n as i64 };
    let mut w: i32 = 0;
    let ghost m: nat = t as nat;
    proof {
        lemma_digit_count_bound(m);
    }
    while t != 0
        invariant
            0 <= t,
            t <= 0x8000_0000,
            0 <= w <= 10,
            w + digit_count(t as nat) == digit_count(m),
            m == hp_width_arg(n),
            digit_count(t as nat) <= 10 - w,
        decreases t,
    {
        w = w + 1;
        t = t / 10;
    }
    w
}

spec fn hp_width_arg(n: i32) -> nat {
    (if n < 0 { -n } else { n as int }) as nat
}

proof fn lemma_digit_count_bound(n: nat)
    requires
        n <= 0x8000_0000,
    ensures
        digit_count(n) <= 10,
{
    assert(digit_count(n) <= 10) by {
        reveal_with_fuel(digit_count, 11);
    }
}

impl StatusCache {
    /// A cache that matches nothing yet.
    pub fn new() -> (c: StatusCache)
        ensures
            c.purse == -1,
            c.hit_points == 0 && c.experience == 0 && c.armor == 0 && c.strength == 0,
            c.depth == 0 && c.hungry_state == 0 && c.hp_width == 0,
    {
        StatusCache { hit_points: 0, experience: 0, purse: -1, armor: 0, strength: 0, depth: 0, hungry_state: 0, hp_width: 0 }
    }

    /// The status line to draw for `s`, or `None` when nothing it shows has
    /// changed and no message-line status was asked for (`stat_msg`).
    ///
    /// The hit-point width is worked out again, from the maximum hit points,
    /// whenever the hit points last shown differ from that maximum.
    pub fn update(&mut self, s: StatusInput, stat_msg: bool) -> (line: Option<String>)
        requires
            s.armor > i32::MIN + 10,
        ensures
            unchanged(*old(self), s) && !stat_msg ==> line is None && *final(self) == *old(self),
            unchanged(*final(self), s),
            !(unchanged(*old(self), s) && !stat_msg) ==> {
                let w = if old(self).hit_points != s.max_hit_points { hp_width(s.max_hit_points) as int } else { old(self).hp_width as int };
                &&& unchanged(*final(self), s)
                &&& final(self).hp_width == w
                &&& line matches Some(t) && t@ == status_text(s, w)
            },
    {
        if self.hit_points == s.hit_points && self.experience == s.experience && self.purse == s.purse
            && self.armor == s.armor && self.strength == s.strength && self.depth == s.depth
            && self.hungry_state == s.hungry_state && !stat_msg
        {
            return None;
        }
        self.armor = s.armor;
        if self.hit_points != s.max_hit_points {
            self.hp_width = count_digits(s.max_hit_points);
        }
        self.depth = s.depth;
        self.purse = s.purse;
        self.hit_points = s.hit_points;
        self.strength = s.strength;
        self.experience = s.experience;
        self.hungry_state = s.hungry_state;
        let w = self.hp_width;
        let mut t = String::new();
        push_text(&mut t, "Level: ");
        push_chars(&mut t, &decimal_chars(s.depth as i64));
        push_text(&mut t, "  Gold: ");
        push_field(&mut t, &decimal_chars(s.purse as i64), 5, false);
        push_text(&mut t, "  Hp: ");
        let wu: usize = if w < 0 { 0 } else { w as usize };
        push_field(&mut t, &decimal_chars(s.hit_points as i64), wu, true);
        push_text(&mut t, "(");
        push_field(&mut t, &decimal_chars(s.max_hit_points as i64), wu, true);
        push_text(&mut t, ")  Str: ");
        push_field(&mut t, &decimal_chars(s.strength as i64), 2, true);
        push_text(&mut t, "(");
        push_chars(&mut t, &decimal_chars(s.max_strength as i64));
        push_text(&mut t, ")  Arm: ");
        push_field(&mut t, &decimal_chars((10 - s.armor) as i64), 2, false);
        push_text(&mut t, "  Exp: ");
        push_chars(&mut t, &decimal_chars(s.rank as i64));
        push_text(&mut t, "/");
        push_chars(&mut t, &decimal_chars(s.experience as i64));
        push_text(&mut t, "  ");
        push_text(&mut t, hunger_word(s.hungry_state));
        assert(t@ =~= status_text(s, w as int));
        Some(t)
    }
}

/// The screen after the status line `line` is drawn on the bottom row:
/// written from its first column, then the rest of the row cleared.
pub open spec fn status_effect(screen: Seq<Seq<ScreenCell>>, so: bool, line: Seq<u8>) -> Seq<Seq<ScreenCell>> {
    let (g, c) = text_effect(screen, IVec2 { x: 0, y: STATLINE }, so, line);
    if spec_in_bounds(c.y as int, 0) { blank_line_from(g, c.y as int, c.x as int) } else { g }
}

/// Draw `line` on the status row and put the cursor back where it was.
pub fn draw_status(term: &mut Terminal, line: &str)
    requires
        old(term).wf(),
    ensures
        final(term).wf(),
        same_settings(final(term), old(term)),
        final(term).spec_cursor() == old(term).spec_cursor(),
        final(term).screen() == status_effect(old(term).screen(), old(term).spec_standout(), line.spec_bytes()),
{
    let saved = term.cursor_pos();
    term.move_cursor(IVec2 { x: 0, y: STATLINE });
    term.write_text(line);
    term.clear_to_end_of_line();
    term.move_cursor(saved);
}

} // verus!
