use vstd::prelude::*;
use vstd::string::StringSliceAdditionalSpecFns;

use crate::geom::IVec2;

verus! {

/// Screen height in rows.
pub const NROWS: usize = 24;
/// Screen width in columns.
pub const NCOLS: usize = 80;

/// A single screen cell: one ASCII glyph plus standout (reverse-video).
#[derive(Clone, Copy, Debug, PartialEq, Eq, Structural)]
pub struct ScreenCell {
    pub ch: u8,
    pub standout: bool,
}

/// The empty cell: a space without standout.
pub open spec fn blank_cell() -> ScreenCell {
    ScreenCell { ch: 32, standout: false }
}

fn blank() -> (c: ScreenCell)
    ensures
        c == blank_cell(),
{
    ScreenCell { ch: 32u8, standout: false }
}

/// Whether `(y, x)` is a cell of the screen.
pub open spec fn spec_in_bounds(y: int, x: int) -> bool {
    0 <= y < NROWS && 0 <= x < NCOLS
}

/// Whether `(y, x)` is a cell of the screen.
pub fn in_bounds(y: i32, x: i32) -> (b: bool)
    ensures
        b == spec_in_bounds(y as int, x as int),
{
    y >= 0 && x >= 0 && (y as usize) < NROWS && (x as usize) < NCOLS
}

/// The screen model: a retained grid of cells, one shared cursor, the
/// standout mode for subsequent writes, the input timeout and whether the
/// terminal is shut down.
pub struct Terminal {
    grid: Vec<Vec<ScreenCell>>,
    cursor: IVec2,
    standout: bool,
    input_timeout: i32,
    shut_down: bool,
}

/// `grid` with the cell at `(y, x)` replaced by `c`; unchanged off screen.
pub open spec fn put_cell(grid: Seq<Seq<ScreenCell>>, y: int, x: int, c: ScreenCell) -> Seq<Seq<ScreenCell>> {
    if spec_in_bounds(y, x) {
        grid.update(y, grid[y].update(x, c))
    } else {
        grid
    }
}

/// The cursor after writing one glyph: one column right, wrapping to the
/// next row and from the last row back to the first.
pub open spec fn advanced(c: IVec2) -> IVec2 {
    if c.x + 1 >= NCOLS {
        IVec2 { x: 0, y: if c.y + 1 >= NROWS { 0 } else { (c.y + 1) as i32 } }
    } else {
        IVec2 { x: (c.x + 1) as i32, y: c.y }
    }
}

/// The cursor after a newline: first column of the next row, wrapping from
/// the last row back to the first.
pub open spec fn newline(c: IVec2) -> IVec2 {
    IVec2 { x: 0, y: if c.y + 1 >= NROWS { 0 } else { (c.y + 1) as i32 } }
}

/// Whether the cursor can move on without its coordinates overflowing.
pub open spec fn cursor_ok(c: IVec2) -> bool {
    c.x < i32::MAX && c.y < i32::MAX
}

/// The screen and cursor after writing byte `b` with standout `so`.
pub open spec fn text_step(grid: Seq<Seq<ScreenCell>>, cur: IVec2, so: bool, b: u8) -> (Seq<Seq<ScreenCell>>, IVec2) {
    if b == 10 {
        (grid, newline(cur))
    } else {
        (put_cell(grid, cur.y as int, cur.x as int, ScreenCell { ch: b, standout: so }), advanced(cur))
    }
}

/// The screen and cursor after writing `bytes` in order.
pub open spec fn text_effect(grid: Seq<Seq<ScreenCell>>, cur: IVec2, so: bool, bytes: Seq<u8>) -> (Seq<Seq<ScreenCell>>, IVec2)
    decreases bytes.len(),
{
    if bytes.len() == 0 {
        (grid, cur)
    } else {
        let (g, c) = text_effect(grid, cur, so, bytes.drop_last());
        text_step(g, c, so, bytes.last())
    }
}

/// Whether `grid` has `NROWS` rows of `NCOLS` cells.
pub open spec fn screen_shape(grid: Seq<Seq<ScreenCell>>) -> bool {
    &&& grid.len() == NROWS
    &&& forall|y: int| 0 <= y < NROWS ==> (#[trigger] grid[y]).len() == NCOLS
}

proof fn lemma_text_effect_ok(grid: Seq<Seq<ScreenCell>>, cur: IVec2, so: bool, bytes: Seq<u8>)
    requires
        cursor_ok(cur),
        screen_shape(grid),
    ensures
        cursor_ok(text_effect(grid, cur, so, bytes).1),
        screen_shape(text_effect(grid, cur, so, bytes).0),
    decreases bytes.len(),
{
    if bytes.len() > 0 {
        lemma_text_effect_ok(grid, cur, so, bytes.drop_last());
        let (g, c) = text_effect(grid, cur, so, bytes.drop_last());
        let g2 = text_step(g, c, so, bytes.last()).0;
        assert forall|y: int| 0 <= y < NROWS implies (#[trigger] g2[y]).len() == NCOLS by {
            if bytes.last() != 10 && spec_in_bounds(c.y as int, c.x as int) && y == c.y {
            }
        }
    }
}

impl Terminal {
    /// The grid has `NROWS` rows of `NCOLS` cells.
    pub closed spec fn wf(&self) -> bool {
        &&& self.grid@.len() == NROWS
        &&& forall|y: int| 0 <= y < NROWS ==> (#[trigger] self.grid@[y])@.len() == NCOLS
    }

    /// The screen, row by row.
    pub closed spec fn screen(&self) -> Seq<Seq<ScreenCell>> {
        self.grid@.map_values(|row: Vec<ScreenCell>| row@)
    }

    pub closed spec fn spec_cursor(&self) -> IVec2 {
        self.cursor
    }

    pub closed spec fn spec_standout(&self) -> bool {
        self.standout
    }

    pub closed spec fn spec_input_timeout(&self) -> i32 {
        self.input_timeout
    }

    pub closed spec fn spec_shut_down(&self) -> bool {
        self.shut_down
    }

    /// A well-formed screen has `NROWS` rows of `NCOLS` cells.
    pub proof fn lemma_shape(&self)
        requires
            self.wf(),
        ensures
            self.screen().len() == NROWS,
            forall|y: int| 0 <= y < NROWS ==> (#[trigger] self.screen()[y]).len() == NCOLS,
    {
    }

    /// A blank screen with the cursor at the origin, standout off, no input
    /// timeout and the terminal not yet started.
    pub fn new() -> (t: Terminal)
        ensures
            t.wf(),
            forall|y: int, x: int| spec_in_bounds(y, x) ==> #[trigger] t.screen()[y][x] == blank_cell(),
            t.spec_cursor() == (IVec2 { x: 0, y: 0 }),
            !t.spec_standout(),
            t.spec_input_timeout() == -1,
            t.spec_shut_down(),
    {
        let mut grid: Vec<Vec<ScreenCell>> = Vec::new();
        let mut y: usize = 0;
        while y < NROWS
            invariant
                y <= NROWS,
                grid@.len() == y,
                forall|k: int| 0 <= k < y ==> (#[trigger] grid@[k])@.len() == NCOLS,
                forall|k: int, x: int| 0 <= k < y && 0 <= x < NCOLS ==> #[trigger] grid@[k]@[x] == blank_cell(),
            decreases NROWS - y,
        {
            let mut row: Vec<ScreenCell> = Vec::new();
            let mut x: usize = 0;
            while x < NCOLS
                invariant
                    x <= NCOLS,
                    row@.len() == x,
                    forall|k: int| 0 <= k < x ==> #[trigger] row@[k] == blank_cell(),
                decreases NCOLS - x,
            {
                row.push(blank());
                x = x + 1;
            }
            grid.push(row);
            y = y + 1;
        }
        Terminal { grid, cursor: IVec2::zero(), standout: false, input_timeout: -1, shut_down: true }
    }

    /// Write one cell if `(y, x)` is on screen.
    pub fn set_cell(&mut self, y: i32, x: i32, ch: u8, standout: bool)
        requires
            old(self).wf(),
        ensures
            final(self).wf(),
            final(self).screen() == put_cell(old(self).screen(), y as int, x as int, (ScreenCell { ch, standout })),
            final(self).spec_cursor() == old(self).spec_cursor(),
            final(self).spec_standout() == old(self).spec_standout(),
            final(self).spec_input_timeout() == old(self).spec_input_timeout(),
            final(self).spec_shut_down() == old(self).spec_shut_down(),
    {
        if in_bounds(y, x) {
            let ghost before = self.screen();
            self.grid[y as usize][x as usize] = ScreenCell { ch, standout };
            assert(self.screen() =~= put_cell(before, y as int, x as int, ScreenCell { ch, standout }));
        }
    }

    /// The glyph at `(y, x)`; a space off screen.
    pub fn cell_at(&self, y: i32, x: i32) -> (ch: u8)
        requires
            self.wf(),
        ensures
            ch == (if spec_in_bounds(y as int, x as int) { self.screen()[y as int][x as int].ch } else { 32u8 }),
    {
        if in_bounds(y, x) {
            self.grid[y as usize][x as usize].ch
        } else {
            32u8
        }
    }

    /// The cell at `(y, x)`, glyph and standout; a blank cell off screen.
    pub fn cell(&self, y: i32, x: i32) -> (c: ScreenCell)
        requires
            self.wf(),
        ensures
            c == (if spec_in_bounds(y as int, x as int) { self.screen()[y as int][x as int] } else { blank_cell() }),
    {
        if in_bounds(y, x) {
            self.grid[y as usize][x as usize]
        } else {
            blank()
        }
    }

    /// Move the cursor one column right, wrapping rows and the screen.
    pub fn advance_cursor(&mut self)
        requires
            cursor_ok(old(self).spec_cursor()),
        ensures
            final(self).spec_cursor() == advanced(old(self).spec_cursor()),
            final(self).screen() == old(self).screen(),
            final(self).wf() == old(self).wf(),
            final(self).spec_standout() == old(self).spec_standout(),
            final(self).spec_input_timeout() == old(self).spec_input_timeout(),
            final(self).spec_shut_down() == old(self).spec_shut_down(),
    {
        self.cursor.x = self.cursor.x + 1;
        if self.cursor.x >= NCOLS as i32 {
            self.cursor.x = 0;
            self.cursor.y = self.cursor.y + 1;
            if self.cursor.y >= NROWS as i32 {
                self.cursor.y = 0;
            }
        }
    }
}

} // verus!

verus! {

/// Whether `a` and `b` have the same standout mode, input timeout and
/// shutdown state.
pub open spec fn same_settings(a: &Terminal, b: &Terminal) -> bool {
    &&& a.spec_standout() == b.spec_standout()
    &&& a.spec_input_timeout() == b.spec_input_timeout()
    &&& a.spec_shut_down() == b.spec_shut_down()
}

/// A screen of blank cells.
pub open spec fn blank_screen() -> Seq<Seq<ScreenCell>> {
    Seq::new(NROWS as nat, |y: int| Seq::new(NCOLS as nat, |x: int| blank_cell()))
}

/// `grid` with the cells of row `y` from column `from` on blanked.
pub open spec fn blank_line_from(grid: Seq<Seq<ScreenCell>>, y: int, from: int) -> Seq<Seq<ScreenCell>> {
    grid.update(y, Seq::new(NCOLS as nat, |x: int| if x >= from { blank_cell() } else { grid[y][x] }))
}

/// Keys as the terminal backend reports them.
#[derive(Clone, Copy, Debug, PartialEq, Eq, Structural)]
pub enum Key {
    /// A character key, with whether Control was held.
    Char(char, bool),
    Enter,
    Esc,
    Tab,
    Backspace,
    Left,
    Right,
    Up,
    Down,
    Home,
    End,
    PageUp,
    PageDown,
    /// Any key the game does not read.
    Other,
}

pub const ERR: i32 = -1;
pub const KEY_DOWN: i32 = 258;
pub const KEY_UP: i32 = 259;
pub const KEY_LEFT: i32 = 260;
pub const KEY_RIGHT: i32 = 261;
pub const KEY_HOME: i32 = 262;
pub const KEY_BACKSPACE: i32 = 263;
pub const KEY_NPAGE: i32 = 338;
pub const KEY_PPAGE: i32 = 339;
pub const KEY_END: i32 = 360;

/// The curses-compatible code of a key: the low byte of a character (its
/// control code when Control is held, `c & 0x1f` of the lower-cased
/// character), the ASCII code of Enter, Esc and Tab, a curses key code for
/// the cursor keys, and `ERR` for anything else.
pub open spec fn key_code(key: Key) -> i32 {
    match key {
        Key::Char(c, ctrl) => if ctrl {
            ((lower_ascii(c) as u32 as u8) & 0x1f) as i32
        } else {
            (c as u32 as u8) as i32
        },
        Key::Enter => 10,
        Key::Esc => 27,
        Key::Tab => 9,
        Key::Backspace => KEY_BACKSPACE,
        Key::Left => KEY_LEFT,
        Key::Right => KEY_RIGHT,
        Key::Up => KEY_UP,
        Key::Down => KEY_DOWN,
        Key::Home => KEY_HOME,
        Key::End => KEY_END,
        Key::PageUp => KEY_PPAGE,
        Key::PageDown => KEY_NPAGE,
        Key::Other => ERR,
    }
}

/// ASCII lower-casing: `A`-`Z` become `a`-`z`, everything else is kept.
pub open spec fn lower_ascii(c: char) -> char {
    if 'A' <= c <= 'Z' { ((c as u32) + 32) as char } else { c }
}

pub(crate) fn to_lower_ascii(c: char) -> (l: char)
    ensures
        l == lower_ascii(c),
{
    if 'A' <= c && c <= 'Z' {
        let v: u32 = (c as u32) + 32;
        assert(v < 128);
        char_from_ascii(v)
    } else {
        c
    }
}

/// The character with the ASCII code `v`.
pub(crate) fn char_from_ascii(v: u32) -> (c: char)
    requires
        v < 128,
    ensures
        c == v as char,
{
    #[verifier::truncate]
    let b = v as u8;
    b as char
}

/// The low byte of a character's code.
fn low_byte(c: char) -> (b: u8)
    ensures
        b == (c as u32 as u8),
{
    let v: u32 = c as u32;
    #[verifier::truncate]
    (v as u8)
}

/// Map a key to its curses-compatible code.
pub fn map_key(key: Key) -> (code: i32)
    ensures
        code == key_code(key),
{
    match key {
        Key::Char(c, ctrl) => {
            if ctrl {
                (low_byte(to_lower_ascii(c)) & 0x1f) as i32
            } else {
                low_byte(c) as i32
            }
        },
        Key::Enter => 10,
        Key::Esc => 27,
        Key::Tab => 9,
        Key::Backspace => KEY_BACKSPACE,
        Key::Left => KEY_LEFT,
        Key::Right => KEY_RIGHT,
        Key::Up => KEY_UP,
        Key::Down => KEY_DOWN,
        Key::Home => KEY_HOME,
        Key::End => KEY_END,
        Key::PageUp => KEY_PPAGE,
        Key::PageDown => KEY_NPAGE,
        Key::Other => ERR,
    }
}

impl Terminal {
    /// Blank every cell and move the cursor to the origin.
    pub fn clear(&mut self)
        requires
            old(self).wf(),
        ensures
            final(self).wf(),
            forall|y: int, x: int| spec_in_bounds(y, x) ==> #[trigger] final(self).screen()[y][x] == blank_cell(),
            final(self).screen() == blank_screen(),
            final(self).spec_cursor() == (IVec2 { x: 0, y: 0 }),
            same_settings(final(self), old(self)),
    {
        let mut y: usize = 0;
        while y < NROWS
            invariant
                y <= NROWS,
                self.wf(),
                same_settings(self, old(self)),
                forall|yy: int, x: int| 0 <= yy < y && 0 <= x < NCOLS ==> #[trigger] self.grid@[yy]@[x] == blank_cell(),
            decreases NROWS - y,
        {
            let mut x: usize = 0;
            while x < NCOLS
                invariant
                    y < NROWS,
                    x <= NCOLS,
                    self.wf(),
                    same_settings(self, old(self)),
                    forall|yy: int, xx: int| ((0 <= yy < y && 0 <= xx < NCOLS) || (yy == y && 0 <= xx < x)) ==> #[trigger] self.grid@[yy]@[xx] == blank_cell(),
                decreases NCOLS - x,
            {
                self.grid[y][x] = blank();
                x = x + 1;
            }
            y = y + 1;
        }
        self.cursor = IVec2::zero();
        proof {
            self.lemma_shape();
            assert(self.screen() =~~= blank_screen());
        }
    }

    /// Blank the cursor's row from the cursor's column (or the first column
    /// when the cursor is left of the screen) to the end; nothing when the
    /// cursor's row is off screen.
    pub fn clear_to_end_of_line(&mut self)
        requires
            old(self).wf(),
        ensures
            final(self).wf(),
            final(self).screen() == (if spec_in_bounds(old(self).spec_cursor().y as int, 0) {
                blank_line_from(old(self).screen(), old(self).spec_cursor().y as int, old(self).spec_cursor().x as int)
            } else {
                old(self).screen()
            }),
            final(self).spec_cursor() == old(self).spec_cursor(),
            same_settings(final(self), old(self)),
    {
        let cursor = self.cursor;
        if in_bounds(cursor.y, 0) {
            let y = cursor.y as usize;
            let mut x: usize = if cursor.x < 0 { 0 } else { cursor.x as usize };
            let ghost before = self.screen();
            while x < NCOLS
                invariant
                    self.wf(),
                    y < NROWS,
                    same_settings(self, old(self)),
                    self.cursor == cursor,
                    before == old(self).screen(),
                    cursor.x < 0 ==> x >= 0,
                    cursor.x >= 0 ==> x >= cursor.x,
                    forall|yy: int, xx: int| 0 <= yy < NROWS && 0 <= xx < NCOLS ==> #[trigger] self.grid@[yy]@[xx] ==
                        (if yy == y && cursor.x <= xx < x { blank_cell() } else { before[yy][xx] }),
                decreases NCOLS - x,
            {
                self.grid[y][x] = blank();
                x = x + 1;
            }
            proof {
                let expect = blank_line_from(before, y as int, cursor.x as int);
                assert forall|yy: int| 0 <= yy < NROWS implies #[trigger] self.screen()[yy] =~= expect[yy] by {}
                assert(self.screen() =~= expect);
            }
        }
    }

    /// Whether a refresh should draw the screen: only while the terminal is
    /// running.
    pub fn refresh(&self) -> (draw: bool)
        ensures
            draw == !self.spec_shut_down(),
    {
        !self.shut_down
    }

    /// Set the standout mode for subsequent writes.
    pub fn set_standout(&mut self, enabled: bool)
        ensures
            final(self).spec_standout() == enabled,
            final(self).screen() == old(self).screen(),
            final(self).wf() == old(self).wf(),
            final(self).spec_cursor() == old(self).spec_cursor(),
            final(self).spec_input_timeout() == old(self).spec_input_timeout(),
            final(self).spec_shut_down() == old(self).spec_shut_down(),
    {
        self.standout = enabled;
    }

    /// Move the cursor.
    pub fn move_cursor(&mut self, pos: IVec2)
        ensures
            final(self).spec_cursor() == pos,
            final(self).screen() == old(self).screen(),
            final(self).wf() == old(self).wf(),
            same_settings(final(self), old(self)),
    {
        self.cursor = pos;
    }

    /// The cursor position.
    pub fn cursor_pos(&self) -> (pos: IVec2)
        ensures
            pos == self.spec_cursor(),
    {
        self.cursor
    }

    /// Write one glyph (its low byte) at the cursor with the current
    /// standout mode, then advance the cursor.
    pub fn write_glyph(&mut self, ch: char)
        requires
            old(self).wf(),
            cursor_ok(old(self).spec_cursor()),
        ensures
            final(self).wf(),
            final(self).screen() == put_cell(old(self).screen(), old(self).spec_cursor().y as int, old(self).spec_cursor().x as int,
                (ScreenCell { ch: (ch as u32 as u8), standout: old(self).spec_standout() })),
            final(self).spec_cursor() == advanced(old(self).spec_cursor()),
            same_settings(final(self), old(self)),
    {
        let b = low_byte(ch);
        let cursor = self.cursor;
        let so = self.standout;
        self.set_cell(cursor.y, cursor.x, b, so);
        self.advance_cursor();
    }
}

} // verus!

verus! {

impl Terminal {
    /// Move to a position and write one glyph.
    pub fn write_glyph_at(&mut self, pos: IVec2, ch: char)
        requires
            old(self).wf(),
            cursor_ok(pos),
        ensures
            final(self).wf(),
            final(self).screen() == put_cell(old(self).screen(), pos.y as int, pos.x as int,
                (ScreenCell { ch: (ch as u32 as u8), standout: old(self).spec_standout() })),
            final(self).spec_cursor() == advanced(pos),
            same_settings(final(self), old(self)),
    {
        self.move_cursor(pos);
        self.write_glyph(ch);
    }

    /// The glyph under the cursor; a space off screen.
    pub fn glyph_at_cursor(&self) -> (ch: char)
        requires
            self.wf(),
        ensures
            ch == (if spec_in_bounds(self.spec_cursor().y as int, self.spec_cursor().x as int) {
                self.screen()[self.spec_cursor().y as int][self.spec_cursor().x as int].ch as char
            } else {
                ' '
            }),
    {
        self.cell_at(self.cursor.y, self.cursor.x) as char
    }

    /// The glyph at a position; a space off screen.
    pub fn glyph_at(&self, pos: IVec2) -> (ch: char)
        requires
            self.wf(),
        ensures
            ch == (if spec_in_bounds(pos.y as int, pos.x as int) { self.screen()[pos.y as int][pos.x as int].ch as char } else { ' ' }),
    {
        self.cell_at(pos.y, pos.x) as char
    }

    /// Write the bytes of `text` from the cursor with the current standout
    /// mode: a newline moves to the start of the next row, any other byte
    /// fills the cursor's cell (when on screen) and advances the cursor.
    pub fn write_text(&mut self, text: &str)
        requires
            old(self).wf(),
            cursor_ok(old(self).spec_cursor()),
        ensures
            final(self).wf(),
            (final(self).screen(), final(self).spec_cursor()) == text_effect(old(self).screen(), old(self).spec_cursor(),
                old(self).spec_standout(), text.spec_bytes()),
            same_settings(final(self), old(self)),
            cursor_ok(final(self).spec_cursor()),
    {
        self.write_bytes(text.as_bytes());
    }

    /// Write `bytes` from the cursor, as `write_text` does.
    pub fn write_bytes(&mut self, bytes: &[u8])
        requires
            old(self).wf(),
            cursor_ok(old(self).spec_cursor()),
        ensures
            final(self).wf(),
            (final(self).screen(), final(self).spec_cursor()) == text_effect(old(self).screen(), old(self).spec_cursor(),
                old(self).spec_standout(), bytes@),
            same_settings(final(self), old(self)),
            cursor_ok(final(self).spec_cursor()),
    {
        let so = self.standout;
        let mut i: usize = 0;
        while i < bytes.len()
            invariant
                i <= bytes@.len(),
                self.wf(),
                so == old(self).spec_standout(),
                same_settings(self, old(self)),
                cursor_ok(self.spec_cursor()),
                (self.screen(), self.spec_cursor()) == text_effect(old(self).screen(), old(self).spec_cursor(), so, bytes@.subrange(0, i as int)),
            decreases bytes@.len() - i,
        {
            let b = bytes[i];
            proof {
                assert(bytes@.subrange(0, i + 1).drop_last() =~= bytes@.subrange(0, i as int));
                self.lemma_shape();
            }
            if b == 10 {
                self.cursor.x = 0;
                self.cursor.y = self.cursor.y + 1;
                if self.cursor.y >= NROWS as i32 {
                    self.cursor.y = 0;
                }
            } else {
                let cursor = self.cursor;
                self.set_cell(cursor.y, cursor.x, b, so);
                self.advance_cursor();
            }
            i = i + 1;
        }
        proof {
            assert(bytes@.subrange(0, bytes@.len() as int) =~= bytes@);
        }
    }

    /// Move to a position and write text.
    pub fn write_text_at(&mut self, pos: IVec2, text: &str)
        requires
            old(self).wf(),
            cursor_ok(pos),
        ensures
            final(self).wf(),
            (final(self).screen(), final(self).spec_cursor()) == text_effect(old(self).screen(), pos,
                old(self).spec_standout(), text.spec_bytes()),
            same_settings(final(self), old(self)),
            cursor_ok(final(self).spec_cursor()),
    {
        self.move_cursor(pos);
        self.write_text(text);
    }

    /// Read one screen cell's glyph (for save files); a space off screen.
    pub fn read_cell(&self, y: i32, x: i32) -> (ch: u8)
        requires
            self.wf(),
        ensures
            ch == (if spec_in_bounds(y as int, x as int) { self.screen()[y as int][x as int].ch } else { 32u8 }),
    {
        self.cell_at(y, x)
    }

    /// Write one screen cell's glyph without standout (for restored games).
    pub fn write_cell(&mut self, y: i32, x: i32, ch: u8)
        requires
            old(self).wf(),
        ensures
            final(self).wf(),
            final(self).screen() == put_cell(old(self).screen(), y as int, x as int, (ScreenCell { ch, standout: false })),
            final(self).spec_cursor() == old(self).spec_cursor(),
            same_settings(final(self), old(self)),
    {
        self.set_cell(y, x, ch, false);
    }

    /// Start the terminal (or keep it running).
    pub fn init(&mut self)
        ensures
            !final(self).spec_shut_down(),
            final(self).screen() == old(self).screen(),
            final(self).wf() == old(self).wf(),
            final(self).spec_cursor() == old(self).spec_cursor(),
            final(self).spec_standout() == old(self).spec_standout(),
            final(self).spec_input_timeout() == old(self).spec_input_timeout(),
    {
        self.shut_down = false;
    }

    /// Drop back to the host terminal.
    pub fn shutdown(&mut self)
        ensures
            final(self).spec_shut_down(),
            final(self).screen() == old(self).screen(),
            final(self).wf() == old(self).wf(),
            final(self).spec_cursor() == old(self).spec_cursor(),
            final(self).spec_standout() == old(self).spec_standout(),
            final(self).spec_input_timeout() == old(self).spec_input_timeout(),
    {
        self.shut_down = true;
    }

    /// Whether the terminal has been shut down.
    pub fn is_shutdown(&self) -> (b: bool)
        ensures
            b == self.spec_shut_down(),
    {
        self.shut_down
    }

    /// Raw mode: block for input with no timeout, and start the terminal.
    pub fn raw(&mut self)
        ensures
            final(self).spec_input_timeout() == -1,
            !final(self).spec_shut_down(),
            final(self).screen() == old(self).screen(),
            final(self).wf() == old(self).wf(),
            final(self).spec_cursor() == old(self).spec_cursor(),
            final(self).spec_standout() == old(self).spec_standout(),
    {
        self.input_timeout = -1;
        self.shut_down = false;
    }

    /// Wait at most `tenths` tenths of a second for input (`0` or negative:
    /// block).
    pub fn halfdelay(&mut self, tenths: i32)
        ensures
            final(self).spec_input_timeout() == tenths,
            final(self).spec_shut_down() == old(self).spec_shut_down(),
            final(self).screen() == old(self).screen(),
            final(self).wf() == old(self).wf(),
            final(self).spec_cursor() == old(self).spec_cursor(),
            final(self).spec_standout() == old(self).spec_standout(),
    {
        self.input_timeout = tenths;
    }

    /// The input timeout in tenths of a second.
    pub fn input_timeout(&self) -> (t: i32)
        ensures
            t == self.spec_input_timeout(),
    {
        self.input_timeout
    }
}

/// The erase character: DEL.
pub fn erasechar() -> (c: u8)
    ensures
        c == 0x7f,
{
    0x7f
}

/// The line-kill character: Ctrl-U.
pub fn killchar() -> (c: u8)
    ensures
        c == 0x15,
{
    0x15
}

/// The terminal's reported line speed.
pub fn baudrate() -> (b: i32)
    ensures
        b == 9600,
{
    9600
}

/// Fixed screen size in (columns, rows).
pub fn screen_size() -> (s: IVec2)
    ensures
        s == (IVec2 { x: NCOLS as i32, y: NROWS as i32 }),
{
    IVec2::new(NCOLS as i32, NROWS as i32)
}

} // verus!
