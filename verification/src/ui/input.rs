use vstd::prelude::*;

use super::terminal::{erasechar, killchar, Terminal, ERR, KEY_DOWN, KEY_END, KEY_HOME, KEY_LEFT, KEY_NPAGE, KEY_PPAGE, KEY_RIGHT, KEY_UP};
use super::Window;

verus! {

pub const ESCAPE: i32 = 27;
pub const CTRL_C: i32 = 3;

pub const KEY_LL: i32 = 357;
pub const KEY_A1: i32 = 348;
pub const KEY_A3: i32 = 350;
pub const KEY_B2: i32 = 353;
pub const KEY_C1: i32 = 354;
pub const KEY_C3: i32 = 356;
pub const KEY_B1: i32 = 353;
pub const KEY_B3: i32 = 354;
pub const KEY_A2: i32 = 355;
pub const KEY_C2: i32 = 356;
pub const KEY_SUP: i32 = 337;
pub const KEY_SDOWN: i32 = 336;
pub const KEY_SEND: i32 = 361;
pub const KEY_SHOME: i32 = 362;
pub const KEY_SLEFT: i32 = 363;
pub const KEY_SNEXT: i32 = 366;
pub const KEY_SPREVIOUS: i32 = 367;
pub const KEY_SRIGHT: i32 = 368;
pub const KEY_EOL: i32 = 384;

/// The control code of an ASCII letter: its low five bits.
pub open spec fn spec_ctrl(c: char) -> i32 {
    ((c as u32 as u8) & 0x1f) as i32
}

/// `ctrl(c)`: the control character for `c`.
pub fn ctrl(c: char) -> (v: i32)
    ensures
        v == spec_ctrl(c),
{
    let v: u32 = c as u32;
    #[verifier::truncate]
    let b: u8 = v as u8;
    (b & 0x1f) as i32
}

/// ASCII upper-casing of a byte.
pub open spec fn upper_byte(b: u8) -> u8 {
    if 97 <= b <= 122 { (b - 32) as u8 } else { b }
}

/// ASCII lower-casing of a byte.
pub open spec fn lower_byte(b: u8) -> u8 {
    if 65 <= b <= 90 { (b + 32) as u8 } else { b }
}

/// `CTRL(toupper(c))` of the low byte of `c`.
pub open spec fn spec_ctrl_upcase(c: i32) -> i32 {
    (upper_byte(c as u8) & 0x1f) as i32
}

/// `ctrl_upcase(c)`: `CTRL(toupper(c))`.
pub fn ctrl_upcase(c: i32) -> (v: i32)
    ensures
        v == spec_ctrl_upcase(c),
{
    #[verifier::truncate]
    let b: u8 = c as u8;
    let up: u8 = if 97 <= b && b <= 122 { b - 32 } else { b };
    (up & 0x1f) as i32
}

/// The low seven bits of a key code.
fn low7(c: i32) -> (r: i32)
    ensures
        r == c & 0x7f,
        0 <= r < 128,
{
    let r = c & 0x7f;
    assert(0 <= (c & 0x7f) < 128) by (bit_vector);
    r
}

/// Escape-sequence parser modes.
#[derive(Clone, Copy, Debug, PartialEq, Eq, Structural)]
pub enum Mode {
    Normal,
    Esc,
    Keypad,
    Trail,
}

/// State of the escape-sequence parser between keys.
#[derive(Clone, Copy, Debug, PartialEq, Eq, Structural)]
pub struct KeyDecoder {
    pub mode: Mode,
    pub mode2: Mode,
    pub lastch: i32,
}

/// What the parser asks for after one key.
#[derive(Clone, Copy, Debug, PartialEq, Eq, Structural)]
pub enum Decoded {
    /// Read another key.
    Pending,
    /// The key sequence is complete: this is the command character.
    Done(i32),
}

/// Cooked curses keys in normal mode: cursor and keypad keys become the
/// classic movement commands `h j k l y u b n`, shifted ones their Ctrl runs.
pub open spec fn cooked(ch: i32) -> i32 {
    if ch == KEY_LEFT { 104 }
    else if ch == KEY_DOWN { 106 }
    else if ch == KEY_UP { 107 }
    else if ch == KEY_RIGHT { 108 }
    else if ch == KEY_HOME { 121 }
    else if ch == KEY_PPAGE { 117 }
    else if ch == KEY_END { 98 }
    else if ch == KEY_LL { 98 }
    else if ch == KEY_NPAGE { 110 }
    else if ch == KEY_B1 { 104 }
    else if ch == KEY_C2 { 106 }
    else if ch == KEY_A2 { 107 }
    else if ch == KEY_B3 { 108 }
    else if ch == KEY_A1 { 121 }
    else if ch == KEY_A3 { 117 }
    else if ch == KEY_SRIGHT { 12 }
    else if ch == KEY_SLEFT { 8 }
    else if ch == KEY_SUP { 11 }
    else if ch == KEY_SDOWN { 10 }
    else if ch == KEY_SHOME { 25 }
    else if ch == KEY_SPREVIOUS { 21 }
    else if ch == KEY_SEND { 2 }
    else if ch == KEY_SNEXT { 14 }
    else if ch == 0x146 { 11 }
    else if ch == 0x145 { 10 }
    else if ch == KEY_EOL { 2 }
    else { ch }
}

/// Cursor keys after an escape (Cygwin / PuTTY): their Ctrl run commands.
pub open spec fn esc_cooked(ch: i32) -> i32 {
    if ch == KEY_LEFT { 8 }
    else if ch == KEY_RIGHT { 12 }
    else if ch == KEY_UP { 11 }
    else if ch == KEY_DOWN { 10 }
    else if ch == KEY_HOME { 25 }
    else if ch == KEY_PPAGE { 21 }
    else if ch == KEY_NPAGE { 14 }
    else if ch == KEY_END { 2 }
    else { ch }
}

/// Keys after `ESC [`, `ESC O` or `ESC F`: `Some(c)` translates the key to
/// `c`; `None` leaves it as it is.
pub open spec fn keypad_translation(ch: i32) -> Option<i32> {
    if ch == 0x5E { Some(8) }
    else if ch == 0x24 { Some(12) }
    else if ch == 0x48 { Some(121) }
    else if ch == 1 { Some(11) }
    else if ch == 2 { Some(10) }
    else if ch == 3 { Some(12) }
    else if ch == 4 { Some(8) }
    else if ch == 263 { Some(25) }
    else if ch == 19 { Some(21) }
    else if ch == 20 { Some(14) }
    else if ch == 21 { Some(2) }
    else if ch == 0x47 { Some(46) }
    else if ch == 0x44 { Some(8) }
    else if ch == 0x43 { Some(12) }
    else if ch == 0x41 { Some(11) }
    else if ch == 0x42 { Some(10) }
    else if ch == 0x74 { Some(104) }
    else if ch == 0x76 { Some(108) }
    else if ch == 0x78 { Some(107) }
    else if ch == 0x72 { Some(106) }
    else if ch == 0x77 { Some(121) }
    else if ch == 0x79 { Some(117) }
    else if ch == 0x73 { Some(110) }
    else if ch == 0x71 { Some(98) }
    else if ch == 0x75 { Some(46) }
    else { None }
}

/// Keys after `ESC [` that start a trailing sequence, with the command
/// letter they stand for (`7` home, `5` page up, `6` page down, `1` home,
/// `4` end).
pub open spec fn keypad_trail(ch: i32) -> Option<i32> {
    if ch == 0x37 { Some(89) }
    else if ch == 0x35 { Some(85) }
    else if ch == 0x36 { Some(78) }
    else if ch == 0x31 { Some(121) }
    else if ch == 0x34 { Some(98) }
    else { None }
}

/// The decoder's step on key `ch`: the next state, whether the input timeout
/// is set to a tenth of a second, and the outcome.
pub open spec fn decode_step(d: KeyDecoder, ch: i32) -> (KeyDecoder, bool, Decoded) {
    if ch == ERR {
        (KeyDecoder { mode: Mode::Normal, ..d }, false, Decoded::Done(ESCAPE & 0x7f))
    } else if d.mode == Mode::Trail {
        let c1 = if ch == 94 { spec_ctrl_upcase(d.lastch) } else { ch };
        let c2 = if c1 == 126 { lower_byte(d.lastch as u8) as i32 } else { c1 };
        let c3 = if d.mode2 == Mode::Esc { spec_ctrl_upcase(c2) } else { c2 };
        (d, false, Decoded::Done(c3 & 0x7f))
    } else if d.mode == Mode::Esc && ch == ESCAPE {
        (KeyDecoder { mode2: Mode::Esc, ..d }, false, Decoded::Pending)
    } else if d.mode == Mode::Esc && (ch == 70 || ch == 79 || ch == 91) {
        (KeyDecoder { mode: Mode::Keypad, ..d }, false, Decoded::Pending)
    } else if d.mode == Mode::Esc {
        (d, false, Decoded::Done(esc_cooked(ch) & 0x7f))
    } else if d.mode == Mode::Keypad && keypad_trail(ch) is Some {
        (KeyDecoder { mode: Mode::Trail, lastch: keypad_trail(ch).unwrap(), ..d }, false, Decoded::Pending)
    } else {
        let c = if d.mode == Mode::Keypad && keypad_translation(ch) is Some { keypad_translation(ch).unwrap() } else { ch };
        if c == ESCAPE {
            (KeyDecoder { mode: Mode::Esc, ..d }, true, Decoded::Pending)
        } else {
            (d, false, Decoded::Done(cooked(c) & 0x7f))
        }
    }
}

fn cooked_key(ch: i32) -> (c: i32)
    ensures
        c == cooked(ch),
{
    if ch == KEY_LEFT { 'h' as i32 }
    else if ch == KEY_DOWN { 'j' as i32 }
    else if ch == KEY_UP { 'k' as i32 }
    else if ch == KEY_RIGHT { 'l' as i32 }
    else if ch == KEY_HOME { 'y' as i32 }
    else if ch == KEY_PPAGE { 'u' as i32 }
    else if ch == KEY_END { 'b' as i32 }
    else if ch == KEY_LL { 'b' as i32 }
    else if ch == KEY_NPAGE { 'n' as i32 }
    else if ch == KEY_B1 { 'h' as i32 }
    else if ch == KEY_C2 { 'j' as i32 }
    else if ch == KEY_A2 { 'k' as i32 }
    else if ch == KEY_B3 { 'l' as i32 }
    else if ch == KEY_A1 { 'y' as i32 }
    else if ch == KEY_A3 { 'u' as i32 }
    else if ch == KEY_SRIGHT { 12 /* ^L */ }
    else if ch == KEY_SLEFT { 8 /* ^H */ }
    else if ch == KEY_SUP { 11 /* ^K */ }
    else if ch == KEY_SDOWN { 10 /* ^J */ }
    else if ch == KEY_SHOME { 25 /* ^Y */ }
    else if ch == KEY_SPREVIOUS { 21 /* ^U */ }
    else if ch == KEY_SEND { 2 /* ^B */ }
    else if ch == KEY_SNEXT { 14 /* ^N */ }
    else if ch == 0x146 { 11 /* ^K */ }
    else if ch == 0x145 { 10 /* ^J */ }
    else if ch == KEY_EOL { 2 /* ^B */ }
    else { ch }
}

fn esc_cooked_key(ch: i32) -> (c: i32)
    ensures
        c == esc_cooked(ch),
{
    if ch == KEY_LEFT { 8 /* ^H */ }
    else if ch == KEY_RIGHT { 12 /* ^L */ }
    else if ch == KEY_UP { 11 /* ^K */ }
    else if ch == KEY_DOWN { 10 /* ^J */ }
    else if ch == KEY_HOME { 25 /* ^Y */ }
    else if ch == KEY_PPAGE { 21 /* ^U */ }
    else if ch == KEY_NPAGE { 14 /* ^N */ }
    else if ch == KEY_END { 2 /* ^B */ }
    else { ch }
}

fn keypad_key(ch: i32) -> (r: (Option<i32>, Option<i32>))
    ensures
        r.0 == keypad_translation(ch),
        r.1 == keypad_trail(ch),
{
    let t = if ch == 0x5E { Some(8 /* ^H */) }
    else if ch == 0x24 { Some(12 /* ^L */) }
    else if ch == 0x48 { Some('y' as i32) }
    else if ch == 1 { Some(11 /* ^K */) }
    else if ch == 2 { Some(10 /* ^J */) }
    else if ch == 3 { Some(12 /* ^L */) }
    else if ch == 4 { Some(8 /* ^H */) }
    else if ch == 263 { Some(25 /* ^Y */) }
    else if ch == 19 { Some(21 /* ^U */) }
    else if ch == 20 { Some(14 /* ^N */) }
    else if ch == 21 { Some(2 /* ^B */) }
    else if ch == 0x47 { Some('.' as i32) }
    else if ch == 0x44 { Some(8 /* ^H */) }
    else if ch == 0x43 { Some(12 /* ^L */) }
    else if ch == 0x41 { Some(11 /* ^K */) }
    else if ch == 0x42 { Some(10 /* ^J */) }
    else if ch == 0x74 { Some('h' as i32) }
    else if ch == 0x76 { Some('l' as i32) }
    else if ch == 0x78 { Some('k' as i32) }
    else if ch == 0x72 { Some('j' as i32) }
    else if ch == 0x77 { Some('y' as i32) }
    else if ch == 0x79 { Some('u' as i32) }
    else if ch == 0x73 { Some('n' as i32) }
    else if ch == 0x71 { Some('b' as i32) }
    else if ch == 0x75 { Some('.' as i32) }
    else { None };
    let trail = if ch == 0x37 { Some('Y' as i32) }
    else if ch == 0x35 { Some('U' as i32) }
    else if ch == 0x36 { Some('N' as i32) }
    else if ch == 0x31 { Some('y' as i32) }
    else if ch == 0x34 { Some('b' as i32) }
    else { None };
    (t, trail)
}

impl KeyDecoder {
    /// A decoder waiting for the first key of a command.
    pub fn new() -> (d: KeyDecoder)
        ensures
            d.mode == Mode::Normal,
            d.mode2 == Mode::Normal,
            d.lastch == 0,
    {
        KeyDecoder { mode: Mode::Normal, mode2: Mode::Normal, lastch: 0 }
    }

    /// Feed one raw key (`ERR` when the read timed out).
    ///
    /// Translates cursor/keypad escape sequences into the classic rogue
    /// movement commands. When an escape starts a sequence, the input
    /// timeout is set to a tenth of a second; when the sequence is complete
    /// the terminal goes back to raw mode (blocking input) and the command
    /// character, reduced to seven bits, is returned.
    pub fn feed(&mut self, term: &mut Terminal, ch: i32) -> (out: Decoded)
        ensures
            decode_step(*old(self), ch).1 ==> final(term).spec_input_timeout() == 1,
            !decode_step(*old(self), ch).1 && out is Pending ==> final(term).spec_input_timeout() == old(term).spec_input_timeout(),
            out is Done ==> final(term).spec_input_timeout() == -1 && !final(term).spec_shut_down(),
            out is Pending ==> final(term).spec_shut_down() == old(term).spec_shut_down(),
            *final(self) == decode_step(*old(self), ch).0,
            out == decode_step(*old(self), ch).2,
            out matches Decoded::Done(c) ==> 0 <= c < 128,
            final(term).screen() == old(term).screen(),
            final(term).wf() == old(term).wf(),
            final(term).spec_cursor() == old(term).spec_cursor(),
            final(term).spec_standout() == old(term).spec_standout(),
    {
        let out = self.step(term, ch);
        if let Decoded::Done(_) = out {
            term.raw();
        }
        out
    }

    fn step(&mut self, term: &mut Terminal, ch: i32) -> (out: Decoded)
        ensures
            *final(self) == decode_step(*old(self), ch).0,
            out == decode_step(*old(self), ch).2,
            decode_step(*old(self), ch).1 ==> final(term).spec_input_timeout() == 1,
            !decode_step(*old(self), ch).1 ==> final(term).spec_input_timeout() == old(term).spec_input_timeout(),
            out matches Decoded::Done(c) ==> 0 <= c < 128,
            final(term).spec_shut_down() == old(term).spec_shut_down(),
            final(term).screen() == old(term).screen(),
            final(term).wf() == old(term).wf(),
            final(term).spec_cursor() == old(term).spec_cursor(),
            final(term).spec_standout() == old(term).spec_standout(),
    {
        if ch == ERR {
            self.mode = Mode::Normal;
            return Decoded::Done(low7(ESCAPE));
        }
        if self.mode == Mode::Trail {
            let mut c = ch;
            if c == '^' as i32 {
                c = ctrl_upcase(self.lastch);
            }
            if c == '~' as i32 {
                #[verifier::truncate]
                let b: u8 = self.lastch as u8;
                c = (if 65 <= b && b <= 90 { b + 32 } else { b }) as i32;
            }
            if self.mode2 == Mode::Esc {
                c = ctrl_upcase(c);
            }
            return Decoded::Done(low7(c));
        }
        if self.mode == Mode::Esc {
            if ch == ESCAPE {
                self.mode2 = Mode::Esc;
                return Decoded::Pending;
            }
            if ch == 'F' as i32 || ch == 'O' as i32 || ch == '[' as i32 {
                self.mode = Mode::Keypad;
                return Decoded::Pending;
            }
            return Decoded::Done(low7(esc_cooked_key(ch)));
        }
        let mut c = ch;
        if self.mode == Mode::Keypad {
            let (t, trail) = keypad_key(ch);
            if let Some(l) = trail {
                self.lastch = l;
                self.mode = Mode::Trail;
                return Decoded::Pending;
            }
            if let Some(v) = t {
                c = v;
            }
        }
        if c == ESCAPE {
            term.halfdelay(1);
            self.mode = Mode::Esc;
            return Decoded::Pending;
        }
        Decoded::Done(low7(cooked_key(c)))
    }
}

/// Set the escape delay (the terminal backend has none; kept for callers).
pub fn set_escape_delay(_term: &mut Terminal, _milliseconds: i32)
    ensures
        *final(_term) == *old(_term),
{
}

/// Raw mode on: blocking input and a running terminal. Off: cooked line
/// mode, which the backend does not distinguish (no change).
pub fn set_raw_mode(term: &mut Terminal, enabled: bool)
    ensures
        enabled ==> final(term).spec_input_timeout() == -1 && !final(term).spec_shut_down(),
        !enabled ==> final(term).spec_input_timeout() == old(term).spec_input_timeout()
            && final(term).spec_shut_down() == old(term).spec_shut_down(),
        final(term).screen() == old(term).screen(),
        final(term).wf() == old(term).wf(),
        final(term).spec_cursor() == old(term).spec_cursor(),
        final(term).spec_standout() == old(term).spec_standout(),
{
    if enabled {
        term.raw();
    }
}

/// Echo on or off: the backend never echoes, so nothing changes.
pub fn set_echo(_term: &mut Terminal, _enabled: bool)
    ensures
        *final(_term) == *old(_term),
{
}

/// Enable or disable keypad translation for the given screen.
///
/// The terminal backend has no keypad mode, so this is a no-op retained only
/// to keep call sites explicit.
pub fn set_keypad(_window: Window, _enabled: bool) {
}

/// Wait at most `tenths` tenths of a second for the next key.
pub fn set_input_timeout(term: &mut Terminal, tenths: i32)
    ensures
        final(term).spec_input_timeout() == tenths,
        final(term).spec_shut_down() == old(term).spec_shut_down(),
        final(term).screen() == old(term).screen(),
        final(term).wf() == old(term).wf(),
        final(term).spec_cursor() == old(term).spec_cursor(),
        final(term).spec_standout() == old(term).spec_standout(),
{
    term.halfdelay(tenths);
}

/// The erase key: DEL.
pub fn erase_key() -> (c: u8)
    ensures
        c == 0x7f,
{
    erasechar()
}

/// The line-kill key: Ctrl-U.
pub fn kill_key() -> (c: u8)
    ensures
        c == 0x15,
{
    killchar()
}

/// What a complete command key means to the game: Ctrl-C is a request to
/// quit (and reads as Escape should the game go on); any other key is the
/// command itself. Returns whether to quit, and the key.
pub fn interpret_key(ch: i32) -> (r: (bool, i32))
    ensures
        r == (if ch == CTRL_C { (true, ESCAPE) } else { (false, ch) }),
{
    if ch == CTRL_C {
        (true, ESCAPE)
    } else {
        (false, ch)
    }
}

/// Whether `input` ends a wait for `ch`: a newline accepts either LF or CR.
pub fn accepts_key(ch: char, input: i32) -> (b: bool)
    ensures
        b == (if ch == '\n' { input == 10 || input == 13 } else { input == ch as i32 }),
{
    if ch == '\n' {
        input == '\n' as i32 || input == '\r' as i32
    } else {
        input == ch as i32
    }
}

} // verus!

verus! {

/// In normal mode a plain seven-bit key other than Escape is a complete
/// command by itself and decodes to itself.
pub proof fn lemma_plain_key_passes_through(d: KeyDecoder, ch: i32)
    requires
        d.mode == Mode::Normal,
        0 <= ch < 128,
        ch != ESCAPE,
    ensures
        decode_step(d, ch).2 == Decoded::Done(ch),
        decode_step(d, ch).0 == d,
        !decode_step(d, ch).1,
{
    assert((ch & 0x7f) == ch) by (bit_vector)
        requires 0 <= ch < 128;
}

/// Escape in normal mode never completes a command: it starts an escape
/// sequence and shortens the input timeout.
pub proof fn lemma_escape_starts_sequence(d: KeyDecoder)
    requires
        d.mode == Mode::Normal,
    ensures
        decode_step(d, ESCAPE).2 == Decoded::Pending,
        decode_step(d, ESCAPE).0.mode == Mode::Esc,
        decode_step(d, ESCAPE).1,
{
}

} // verus!
