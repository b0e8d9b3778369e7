use vstd::prelude::*;
use vstd::string::StringSliceAdditionalSpecFns;

use super::terminal::{blank_line_from, cursor_ok, put_cell, same_settings, screen_shape, spec_in_bounds, text_effect, text_step, ScreenCell, Terminal, NCOLS, NROWS};
use super::Window;
use crate::text::string_push;
use crate::geom::IVec2;

verus! {

/// The caret notation of a key byte: `^X` for control bytes, `^?` for DEL,
/// `M-` before the notation of the low seven bits for bytes with the high
/// bit set, and the character itself otherwise.
pub open spec fn key_name(key: u8) -> Seq<char> {
    if key < 0x20 {
        seq!['^', ((key + 64) as u8) as char]
    } else if key == 0x7f {
        seq!['^', '?']
    } else if key >= 0x80 {
        let low = (key - 128) as u8;
        if low < 0x20 {
            seq!['M', '-', '^', ((low + 64) as u8) as char]
        } else {
            seq!['M', '-', low as char]
        }
    } else {
        seq![key as char]
    }
}

/// Render a key byte in printable caret notation.
pub fn format_key(key: u8) -> (s: String)
    ensures
        s@ == key_name(key),
{
    let mut s = String::new();
    if key < 0x20 {
        string_push(&mut s, '^');
        string_push(&mut s, (key + 64) as char);
    } else if key == 0x7f {
        string_push(&mut s, '^');
        string_push(&mut s, '?');
    } else if key >= 0x80 {
        let low = key & 0x7f;
        assert(low == key - 128) by (bit_vector)
            requires key >= 0x80, low == key & 0x7f;
        string_push(&mut s, 'M');
        string_push(&mut s, '-');
        if low < 0x20 {
            string_push(&mut s, '^');
            string_push(&mut s, (low + 64) as char);
        } else {
            string_push(&mut s, low as char);
        }
    } else {
        string_push(&mut s, key as char);
    }
    assert(s@ =~= key_name(key));
    s
}

} // verus!

verus! {

/// Whether byte offset `i` of `bytes` starts a character (or is the end).
pub open spec fn char_start(bytes: Seq<u8>, i: int) -> bool {
    i == bytes.len() || (0 <= i < bytes.len() && (bytes[i] & 0xC0) != 0x80)
}

/// Where `split_message_at` cuts `bytes` so that at most `limit` bytes go
/// first: everything when it fits; else the last character start in
/// `(0, limit]`; else, when the first character alone is longer than
/// `limit`, the end of the first character.
pub open spec fn split_point(bytes: Seq<u8>, limit: int, r: int) -> bool {
    if bytes.len() <= limit {
        r == bytes.len()
    } else if exists|i: int| 0 < i <= limit && #[trigger] char_start(bytes, i) {
        &&& 0 < r <= limit
        &&& char_start(bytes, r)
        &&& forall|j: int| r < j <= limit ==> !#[trigger] char_start(bytes, j)
    } else {
        &&& 0 < r <= bytes.len()
        &&& char_start(bytes, r)
        &&& forall|j: int| 0 < j < r ==> !#[trigger] char_start(bytes, j)
    }
}

fn is_char_start(bytes: &[u8], i: usize) -> (b: bool)
    requires
        i <= bytes@.len(),
    ensures
        b == char_start(bytes@, i as int),
{
    i == bytes.len() || (bytes[i] & 0xC0) != 0x80
}

/// The byte offset at which to cut `text` so that its first part fits in
/// `limit` bytes, never inside a character.
pub fn split_message_at(text: &str, limit: usize) -> (r: usize)
    ensures
        split_point(text.spec_bytes(), limit as int, r as int),
{
    let bytes = text.as_bytes();
    if bytes.len() <= limit {
        return bytes.len();
    }
    let mut i = limit;
    while i > 0
        invariant
            bytes@ == text.spec_bytes(),
            bytes@.len() > limit,
            i <= limit,
            forall|j: int| i < j <= limit ==> !#[trigger] char_start(bytes@, j),
        decreases i,
    {
        if is_char_start(bytes, i) {
            return i;
        }
        i = i - 1;
    }
    assert(!exists|k: int| 0 < k <= limit && #[trigger] char_start(bytes@, k));
    let mut j: usize = 1;
    while j < bytes.len()
        invariant
            bytes@ == text.spec_bytes(),
            bytes@.len() > limit,
            1 <= j <= bytes@.len(),
            forall|k: int| 0 < k < j ==> !#[trigger] char_start(bytes@, k),
            !exists|k: int| 0 < k <= limit && #[trigger] char_start(bytes@, k),
        decreases bytes@.len() - j,
    {
        if is_char_start(bytes, j) {
            return j;
        }
        j = j + 1;
    }
    j
}

/// Move the standard-screen cursor.
pub fn move_cursor(term: &mut Terminal, position: crate::geom::IVec2)
    ensures
        final(term).spec_cursor() == position,
        final(term).screen() == old(term).screen(),
        final(term).wf() == old(term).wf(),
        super::terminal::same_settings(final(term), old(term)),
{
    term.move_cursor(position);
}

/// Write one glyph at the current cursor position.
pub fn write_glyph(term: &mut Terminal, glyph: char)
    requires
        old(term).wf(),
        cursor_ok(old(term).spec_cursor()),
    ensures
        final(term).wf(),
        final(term).screen() == put_cell(old(term).screen(), old(term).spec_cursor().y as int, old(term).spec_cursor().x as int,
            (ScreenCell { ch: (glyph as u32 as u8), standout: old(term).spec_standout() })),
        final(term).spec_cursor() == super::terminal::advanced(old(term).spec_cursor()),
        super::terminal::same_settings(final(term), old(term)),
{
    term.write_glyph(glyph);
}

/// Read the glyph currently displayed under the standard-screen cursor.
pub fn glyph_at_cursor(term: &Terminal) -> (ch: char)
    requires
        term.wf(),
    ensures
        ch == (if super::terminal::spec_in_bounds(term.spec_cursor().y as int, term.spec_cursor().x as int) {
            term.screen()[term.spec_cursor().y as int][term.spec_cursor().x as int].ch as char
        } else {
            ' '
        }),
{
    term.glyph_at_cursor()
}

/// Enable or disable standout output on the standard screen.
pub fn set_standout(term: &mut Terminal, enabled: bool)
    ensures
        final(term).spec_standout() == enabled,
        final(term).screen() == old(term).screen(),
        final(term).wf() == old(term).wf(),
        final(term).spec_cursor() == old(term).spec_cursor(),
        final(term).spec_input_timeout() == old(term).spec_input_timeout(),
        final(term).spec_shut_down() == old(term).spec_shut_down(),
{
    term.set_standout(enabled);
}

/// Show a window message: `message` is written from the top-left corner of
/// the screen, and the cursor is put on the hero at `hero` (the caller then
/// waits for a space and has the screen redrawn).
pub fn show_window_text(term: &mut Terminal, message: &str, hero: IVec2)
    requires
        old(term).wf(),
    ensures
        final(term).wf(),
        final(term).screen() == text_effect(old(term).screen(), IVec2 { x: 0, y: 0 }, old(term).spec_standout(), message.spec_bytes()).0,
        final(term).spec_cursor() == hero,
        same_settings(final(term), old(term)),
{
    term.move_cursor(IVec2 { x: 0, y: 0 });
    term.write_text(message);
    term.move_cursor(hero);
}

/// Text written in standout mode `so` marks every cell it changes with
/// `so`: a cell after writing is the cell before, or carries `so`. Writing
/// keeps the mode (`same_settings`), so what is written after
/// `set_standout(e)` carries `e` until the mode is set again.
pub proof fn lemma_written_cells_carry_mode(grid: Seq<Seq<ScreenCell>>, cur: IVec2, so: bool, bytes: Seq<u8>)
    requires
        screen_shape(grid),
    ensures
        screen_shape(text_effect(grid, cur, so, bytes).0),
        forall|y: int, x: int| #![trigger text_effect(grid, cur, so, bytes).0[y][x]]
            spec_in_bounds(y, x) ==> text_effect(grid, cur, so, bytes).0[y][x] == grid[y][x]
                || text_effect(grid, cur, so, bytes).0[y][x].standout == so,
    decreases bytes.len(),
{
    if bytes.len() > 0 {
        lemma_written_cells_carry_mode(grid, cur, so, bytes.drop_last());
        let (g, c) = text_effect(grid, cur, so, bytes.drop_last());
        let after = text_effect(grid, cur, so, bytes).0;
        assert(after == text_step(g, c, so, bytes.last()).0);
        if bytes.last() != 10 && spec_in_bounds(c.y as int, c.x as int) {
            let cy = c.y as int;
            let cx = c.x as int;
            assert(after == g.update(cy, g[cy].update(cx, ScreenCell { ch: bytes.last(), standout: so })));
            assert forall|y: int| 0 <= y < NROWS implies (#[trigger] after[y]).len() == NCOLS by {
                if y == cy {
                    assert(after[y] == g[cy].update(cx, ScreenCell { ch: bytes.last(), standout: so }));
                }
            }
        }
        assert forall|y: int, x: int| spec_in_bounds(y, x)
            implies after[y][x] == grid[y][x] || after[y][x].standout == so by {
            assert(g[y][x] == grid[y][x] || g[y][x].standout == so);
        }
    }
}

/// Whether flushing pending standard-screen changes should draw a frame:
/// only while the terminal is running.
pub fn refresh(term: &Terminal) -> (draw: bool)
    ensures
        draw == !term.spec_shut_down(),
{
    term.refresh()
}

/// Clear the standard screen.
pub fn clear_screen(term: &mut Terminal)
    requires
        old(term).wf(),
    ensures
        final(term).wf(),
        forall|y: int, x: int| super::terminal::spec_in_bounds(y, x) ==> #[trigger] final(term).screen()[y][x] == super::terminal::blank_cell(),
        final(term).spec_cursor() == (crate::geom::IVec2 { x: 0, y: 0 }),
        super::terminal::same_settings(final(term), old(term)),
{
    term.clear();
}

/// Clear from the cursor to the end of its line.
pub fn clear_to_end_of_line(term: &mut Terminal)
    requires
        old(term).wf(),
    ensures
        final(term).wf(),
        final(term).screen() == (if super::terminal::spec_in_bounds(old(term).spec_cursor().y as int, 0) {
            blank_line_from(old(term).screen(), old(term).spec_cursor().y as int, old(term).spec_cursor().x as int)
        } else {
            old(term).screen()
        }),
        final(term).spec_cursor() == old(term).spec_cursor(),
        super::terminal::same_settings(final(term), old(term)),
{
    term.clear_to_end_of_line();
}

/// Write text at the current cursor position.
pub fn write_text(term: &mut Terminal, text: &str)
    requires
        old(term).wf(),
        cursor_ok(old(term).spec_cursor()),
    ensures
        final(term).wf(),
        (final(term).screen(), final(term).spec_cursor()) == text_effect(old(term).screen(), old(term).spec_cursor(),
            old(term).spec_standout(), text.spec_bytes()),
        super::terminal::same_settings(final(term), old(term)),
{
    term.write_text(text);
}

/// Control whether the terminal may leave the physical cursor after refresh.
///
/// The backend always leaves the cursor where it was, so the request changes
/// nothing.
pub fn set_leave_cursor(_window: Window, _enabled: bool) {
}

/// Clear the screen for the given (aliased) window.
pub fn clear_window(term: &mut Terminal, _window: Window)
    requires
        old(term).wf(),
    ensures
        final(term).wf(),
        forall|y: int, x: int| super::terminal::spec_in_bounds(y, x) ==> #[trigger] final(term).screen()[y][x] == super::terminal::blank_cell(),
        final(term).spec_cursor() == (crate::geom::IVec2 { x: 0, y: 0 }),
        super::terminal::same_settings(final(term), old(term)),
{
    clear_screen(term);
}

/// Write one glyph to a window.
pub fn write_window_glyph(term: &mut Terminal, _window: Window, glyph: char)
    requires
        old(term).wf(),
        cursor_ok(old(term).spec_cursor()),
    ensures
        final(term).wf(),
        final(term).screen() == put_cell(old(term).screen(), old(term).spec_cursor().y as int, old(term).spec_cursor().x as int,
            (ScreenCell { ch: (glyph as u32 as u8), standout: old(term).spec_standout() })),
        final(term).spec_cursor() == super::terminal::advanced(old(term).spec_cursor()),
        super::terminal::same_settings(final(term), old(term)),
{
    write_glyph(term, glyph);
}

/// Write text to a window.
pub fn write_window_text(term: &mut Terminal, _window: Window, text: &str)
    requires
        old(term).wf(),
        cursor_ok(old(term).spec_cursor()),
    ensures
        final(term).wf(),
        (final(term).screen(), final(term).spec_cursor()) == text_effect(old(term).screen(), old(term).spec_cursor(),
            old(term).spec_standout(), text.spec_bytes()),
        super::terminal::same_settings(final(term), old(term)),
{
    write_text(term, text);
}

/// Whether flushing a window should draw a frame.
pub fn refresh_window(term: &Terminal, _window: Window) -> (draw: bool)
    ensures
        draw == !term.spec_shut_down(),
{
    refresh(term)
}

/// Mark a window for repaint during its next refresh (no-op; single grid).
pub fn touch_window(_window: Window) {
}

/// Request a full repaint of a window on its next refresh (no-op).
pub fn set_clear_on_refresh(_window: Window, _enabled: bool) {
}

/// Enable or disable line optimization for a window (no-op).
pub fn set_line_optimization(_window: Window, _enabled: bool) {
}

/// Enable or disable standout output for a window.
pub fn set_window_standout(term: &mut Terminal, _window: Window, enabled: bool)
    ensures
        final(term).spec_standout() == enabled,
        final(term).screen() == old(term).screen(),
        final(term).wf() == old(term).wf(),
        final(term).spec_cursor() == old(term).spec_cursor(),
        final(term).spec_input_timeout() == old(term).spec_input_timeout(),
        final(term).spec_shut_down() == old(term).spec_shut_down(),
{
    set_standout(term, enabled);
}

} // verus!

verus! {

/// Longest message line in bytes: the screen width less room for `--More--`.
pub const MAXMSG: usize = 71;

/// How much of `remaining` the next piece of a message takes when `pending`
/// bytes are already waiting, and whether the line must be flushed after it.
pub open spec fn chunk_plan(pending: int, remaining: Seq<u8>, take: int, flush: bool) -> bool {
    if pending >= MAXMSG {
        take == 0 && flush
    } else {
        &&& split_point(remaining, MAXMSG - pending, take)
        &&& flush == (take < remaining.len())
    }
}

/// One step of appending a message: the number of bytes of `remaining` that
/// join the pending line, and whether the line is full and must be shown
/// before the rest. A full line takes nothing and asks for a flush.
pub fn next_chunk(pending_len: usize, remaining: &str) -> (r: (usize, bool))
    ensures
        chunk_plan(pending_len as int, remaining.spec_bytes(), r.0 as int, r.1),
        r.0 <= remaining.spec_bytes().len(),
        remaining.spec_bytes().len() > 0 && pending_len < MAXMSG ==> r.0 > 0,
{
    if pending_len >= MAXMSG {
        return (0, true);
    }
    let split = split_message_at(remaining, MAXMSG - pending_len);
    (split, split < remaining.as_bytes().len())
}

/// The answer to a key pressed at a `--More--` prompt.
#[derive(Clone, Copy, Debug, PartialEq, Eq, Structural)]
pub enum MoreAnswer {
    /// Keep waiting.
    Wait,
    /// Space: show the next line.
    Accept,
    /// Escape (when escaping messages is enabled): drop the rest.
    Escape,
}

/// How a `--More--` prompt treats key `ch`: space continues; Escape drops
/// the pending message when `msg_esc` is on; anything else keeps waiting.
pub open spec fn more_answer(msg_esc: bool, ch: i32) -> MoreAnswer {
    if ch == 32 { MoreAnswer::Accept } else if msg_esc && ch == 27 { MoreAnswer::Escape } else { MoreAnswer::Wait }
}

/// The answer a `--More--` prompt gives key `ch` (see `more_answer`).
pub fn more_key_response(msg_esc: bool, ch: i32) -> (a: MoreAnswer)
    ensures
        a == more_answer(msg_esc, ch),
{
    if ch == ' ' as i32 {
        MoreAnswer::Accept
    } else if msg_esc && ch == 27 {
        MoreAnswer::Escape
    } else {
        MoreAnswer::Wait
    }
}

/// What showing a message came to.
#[derive(Clone, Copy, Debug, PartialEq, Eq, Structural)]
pub enum MessageResult {
    /// The message is on the top line.
    Displayed,
    /// The player dismissed it with Escape at a `--More--` prompt.
    Escaped,
}

/// The message line as shown: unless lower-case messages are wanted, a
/// line longer than one byte that starts with a lower-case ASCII letter
/// starts with its capital.
pub open spec fn shown_line(line: Seq<u8>, lower_msg: bool) -> Seq<u8> {
    if !lower_msg && line.len() > 1 && 97 <= line[0] <= 122 {
        line.update(0, (line[0] - 32) as u8)
    } else {
        line
    }
}

/// The screen and cursor after `line` is written at the top left of
/// `screen` with standout `so` and the rest of the row is cleared.
pub open spec fn message_effect(screen: Seq<Seq<ScreenCell>>, so: bool, line: Seq<u8>) -> (Seq<Seq<ScreenCell>>, IVec2) {
    let (g, c) = text_effect(screen, IVec2 { x: 0, y: 0 }, so, line);
    (if spec_in_bounds(c.y as int, 0) { blank_line_from(g, c.y as int, c.x as int) } else { g }, c)
}

/// The `--More--` prompt.
pub open spec fn more_prompt() -> Seq<u8> {
    seq![45u8, 45, 77, 111, 114, 101, 45, 45]
}

/// The top message line: the text waiting to be shown, the column where
/// the line now on screen ends, and the last message shown (for repeating).
pub struct MessageLine {
    pending: Vec<u8>,
    held: Vec<u8>,
    next_position: i32,
    mpos: i32,
    last: Vec<u8>,
}

impl MessageLine {
    /// Text added since the line was last shown.
    pub closed spec fn pending(&self) -> Seq<u8> {
        self.pending@
    }

    /// Text taken from `pending` to be shown once a `--More--` prompt is
    /// answered.
    pub closed spec fn held(&self) -> Seq<u8> {
        self.held@
    }

    /// The column at which the pending text will end.
    pub closed spec fn next_position(&self) -> int {
        self.next_position as int
    }

    /// The column at which the message now on screen ends; `0` when the
    /// line is free.
    pub closed spec fn position(&self) -> int {
        self.mpos as int
    }

    /// The last message taken for showing, kept for repeating it.
    pub closed spec fn last_message(&self) -> Seq<u8> {
        self.last@
    }

    pub closed spec fn wf(&self) -> bool {
        &&& self.pending@.len() < i32::MAX
        &&& 0 <= self.next_position < i32::MAX
        &&& 0 <= self.mpos < i32::MAX
    }

    /// An empty message line.
    pub fn new() -> (m: MessageLine)
        ensures
            m.wf(),
            m.pending().len() == 0,
            m.held().len() == 0,
            m.next_position() == 0,
            m.position() == 0,
            m.last_message().len() == 0,
    {
        MessageLine { pending: Vec::new(), held: Vec::new(), next_position: 0, mpos: 0, last: Vec::new() }
    }

    /// Set the column where the line on screen ends (`0`: the line is free).
    pub fn set_position(&mut self, pos: i32)
        requires
            old(self).wf(),
            0 <= pos < i32::MAX,
        ensures
            final(self).wf(),
            final(self).position() == pos,
            final(self).pending() == old(self).pending(),
            final(self).held() == old(self).held(),
            final(self).next_position() == old(self).next_position(),
            final(self).last_message() == old(self).last_message(),
    {
        self.mpos = pos;
    }

    /// Add the next piece of `remaining` to the pending text: as much as
    /// fits in `MAXMSG` bytes without cutting a character. Returns how many
    /// bytes were taken and whether the line must be shown before the rest
    /// can follow (a full line takes nothing and asks for that).
    pub fn add_piece(&mut self, remaining: &str) -> (r: (usize, bool))
        requires
            old(self).wf(),
            remaining.spec_bytes().len() < i32::MAX - MAXMSG,
        ensures
            final(self).wf(),
            chunk_plan(old(self).pending().len() as int, remaining.spec_bytes(), r.0 as int, r.1),
            r.0 <= remaining.spec_bytes().len(),
            final(self).pending() == old(self).pending() + remaining.spec_bytes().subrange(0, r.0 as int),
            final(self).next_position() == (if r.0 > 0 { final(self).pending().len() as int } else { old(self).next_position() }),
            final(self).held() == old(self).held(),
            final(self).position() == old(self).position(),
            final(self).last_message() == old(self).last_message(),
    {
        let (take, flush) = next_chunk(self.pending.len(), remaining);
        let bytes = remaining.as_bytes();
        let mut i: usize = 0;
        let ghost start = self.pending@;
        while i < take
            invariant
                take <= bytes@.len(),
                bytes@ == remaining.spec_bytes(),
                i <= take,
                self.pending@ == start + bytes@.subrange(0, i as int),
                start.len() + take < i32::MAX,
                self.held@ == old(self).held@,
                self.mpos == old(self).mpos,
                self.last@ == old(self).last@,
                self.next_position == old(self).next_position,
            decreases take - i,
        {
            self.pending.push(bytes[i]);
            i = i + 1;
            assert(self.pending@ =~= start + bytes@.subrange(0, i as int));
        }
        if take > 0 {
            self.next_position = self.pending.len() as i32;
        }
        (take, flush)
    }

    /// Start showing the pending text: it is taken from the line (and kept
    /// as the last message when `save_msg` is set). When a message is still
    /// on screen, `--More--` is written after it and `None` says that the
    /// answer to the prompt decides (see `answer_more`); otherwise the text
    /// is shown at once.
    pub fn begin_flush(&mut self, term: &mut Terminal, save_msg: bool, lower_msg: bool) -> (done: Option<MessageResult>)
        requires
            old(self).wf(),
            old(term).wf(),
        ensures
            final(self).wf(),
            final(term).wf(),
            final(self).pending().len() == 0,
            final(self).last_message() == (if save_msg { old(self).pending() } else { old(self).last_message() }),
            same_settings(final(term), old(term)),
            old(self).position() != 0 ==> {
                &&& done is None
                &&& final(self).held() == old(self).pending()
                &&& final(self).position() == old(self).position()
                &&& final(self).next_position() == old(self).next_position()
                &&& (final(term).screen(), final(term).spec_cursor()) == text_effect(old(term).screen(),
                    IVec2 { x: old(self).position() as i32, y: 0 }, old(term).spec_standout(), more_prompt())
            },
            old(self).position() == 0 ==> {
                &&& done == Some(MessageResult::Displayed)
                &&& final(self).held().len() == 0
                &&& final(self).position() == old(self).next_position()
                &&& final(self).next_position() == 0
                &&& (final(term).screen(), final(term).spec_cursor()) == message_effect(old(term).screen(),
                    old(term).spec_standout(), shown_line(old(self).pending(), lower_msg))
            },
    {
        let mut taken: Vec<u8> = Vec::new();
        std::mem::swap(&mut taken, &mut self.pending);
        if save_msg {
            self.last = taken.clone();
        }
        self.held = taken;
        if self.mpos != 0 {
            let prompt: [u8; 8] = [45u8, 45, 77, 111, 114, 101, 45, 45];
            term.move_cursor(IVec2 { x: self.mpos, y: 0 });
            term.write_bytes(&prompt);
            assert(prompt@ =~= more_prompt());
            return None;
        }
        self.finish(term, lower_msg);
        Some(MessageResult::Displayed)
    }

    /// The player's key `ch` at a `--More--` prompt: space shows the held
    /// text; Escape (when `msg_esc` is on) drops it and frees the line;
    /// anything else keeps the prompt waiting (`None`).
    pub fn answer_more(&mut self, term: &mut Terminal, msg_esc: bool, lower_msg: bool, ch: i32) -> (done: Option<MessageResult>)
        requires
            old(self).wf(),
            old(term).wf(),
        ensures
            final(self).wf(),
            final(term).wf(),
            final(self).pending() == old(self).pending(),
            final(self).last_message() == old(self).last_message(),
            same_settings(final(term), old(term)),
            more_answer(msg_esc, ch) == MoreAnswer::Wait ==> done is None && *final(self) == *old(self)
                && final(term).screen() == old(term).screen() && final(term).spec_cursor() == old(term).spec_cursor(),
            more_answer(msg_esc, ch) == MoreAnswer::Escape ==> {
                &&& done == Some(MessageResult::Escaped)
                &&& final(self).held().len() == 0
                &&& final(self).position() == 0
                &&& final(self).next_position() == 0
                &&& final(term).screen() == old(term).screen()
                &&& final(term).spec_cursor() == old(term).spec_cursor()
            },
            more_answer(msg_esc, ch) == MoreAnswer::Accept ==> {
                &&& done == Some(MessageResult::Displayed)
                &&& final(self).held().len() == 0
                &&& final(self).position() == old(self).next_position()
                &&& final(self).next_position() == 0
                &&& (final(term).screen(), final(term).spec_cursor()) == message_effect(old(term).screen(),
                    old(term).spec_standout(), shown_line(old(self).held(), lower_msg))
            },
    {
        match more_key_response(msg_esc, ch) {
            MoreAnswer::Wait => None,
            MoreAnswer::Escape => {
                self.held = Vec::new();
                self.mpos = 0;
                self.next_position = 0;
                Some(MessageResult::Escaped)
            },
            MoreAnswer::Accept => {
                self.finish(term, lower_msg);
                Some(MessageResult::Displayed)
            },
        }
    }

    fn finish(&mut self, term: &mut Terminal, lower_msg: bool)
        requires
            old(self).wf(),
            old(term).wf(),
        ensures
            final(self).wf(),
            final(term).wf(),
            final(self).held().len() == 0,
            final(self).pending() == old(self).pending(),
            final(self).last_message() == old(self).last_message(),
            final(self).position() == old(self).next_position(),
            final(self).next_position() == 0,
            same_settings(final(term), old(term)),
            (final(term).screen(), final(term).spec_cursor()) == message_effect(old(term).screen(),
                old(term).spec_standout(), shown_line(old(self).held(), lower_msg)),
    {
        let mut line: Vec<u8> = Vec::new();
        std::mem::swap(&mut line, &mut self.held);
        if !lower_msg && line.len() > 1 && 97 <= line[0] && line[0] <= 122 {
            let c = line[0] - 32;
            line.set(0, c);
        }
        assert(line@ =~= shown_line(old(self).held(), lower_msg));
        term.move_cursor(IVec2 { x: 0, y: 0 });
        term.write_bytes(line.as_slice());
        term.clear_to_end_of_line();
        self.mpos = self.next_position;
        self.next_position = 0;
    }

    /// Show an empty message: clear the top line and free it.
    pub fn clear_line(&mut self, term: &mut Terminal)
        requires
            old(self).wf(),
            old(term).wf(),
        ensures
            final(self).wf(),
            final(term).wf(),
            final(self).position() == 0,
            final(self).pending() == old(self).pending(),
            final(self).held() == old(self).held(),
            final(self).next_position() == old(self).next_position(),
            final(self).last_message() == old(self).last_message(),
            same_settings(final(term), old(term)),
            final(term).spec_cursor() == (IVec2 { x: 0, y: 0 }),
            final(term).screen() == blank_line_from(old(term).screen(), 0, 0),
    {
        term.move_cursor(IVec2 { x: 0, y: 0 });
        term.clear_to_end_of_line();
        self.mpos = 0;
    }
}

} // verus!
