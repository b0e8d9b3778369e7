use rogue::geom::IVec2;
use rogue::ui::input::{ctrl, ctrl_upcase, interpret_key, accepts_key, Decoded, KeyDecoder, ESCAPE, CTRL_C};
use rogue::ui::output::{format_key, more_key_response, next_chunk, split_message_at, MessageLine, MessageResult, MoreAnswer};
use rogue::ui::status::{draw_status, StatusCache, StatusInput, STATLINE};
use rogue::ui::terminal::{Terminal, ERR, KEY_DOWN, KEY_LEFT, KEY_RIGHT, KEY_UP};

#[test]
fn formats_control_and_meta_keys() {
    assert_eq!(format_key(b'a'), "a");
    assert_eq!(format_key(0x01), "^A");
    assert_eq!(format_key(0x7f), "^?");
    assert_eq!(format_key(0x81), "M-^A");
}

#[test]
fn formats_meta_printable_key() {
    assert_eq!(format_key(0xe1), "M-a");
    assert_eq!(format_key(0x1b), "^[");
}

fn decode(keys: &[i32]) -> Vec<i32> {
    let mut term = Terminal::new();
    let mut d = KeyDecoder::new();
    let mut out = Vec::new();
    for &k in keys {
        if let Decoded::Done(c) = d.feed(&mut term, k) {
            out.push(c);
            d = KeyDecoder::new();
        }
    }
    out
}

#[test]
fn cursor_keys_become_movement_commands() {
    assert_eq!(decode(&[KEY_LEFT, KEY_DOWN, KEY_UP, KEY_RIGHT]), vec![104, 106, 107, 108]);
}

#[test]
fn escape_sequences_become_run_commands() {
    // ESC [ A is the up arrow of a VT100: a run up (Ctrl-K).
    assert_eq!(decode(&[ESCAPE, b'[' as i32, b'A' as i32]), vec![11]);
    // ESC O t is a PuTTY keypad left: `h`.
    assert_eq!(decode(&[ESCAPE, b'O' as i32, b't' as i32]), vec![104]);
    // ESC [ 7 ~ is home: `y`.
    assert_eq!(decode(&[ESCAPE, b'[' as i32, b'1' as i32, b'~' as i32]), vec![121]);
}

#[test]
fn escape_then_timeout_is_escape() {
    let mut term = Terminal::new();
    let mut d = KeyDecoder::new();
    assert_eq!(d.feed(&mut term, ESCAPE), Decoded::Pending);
    assert_eq!(term.input_timeout(), 1);
    assert_eq!(d.feed(&mut term, ERR), Decoded::Done(ESCAPE));
    assert_eq!(term.input_timeout(), -1);
}

#[test]
fn plain_keys_pass_through() {
    assert_eq!(decode(&[b'q' as i32, b'Q' as i32, b' ' as i32]), vec![113, 81, 32]);
}

#[test]
fn control_codes_of_letters() {
    assert_eq!(ctrl('H'), 8);
    assert_eq!(ctrl('k'), 11);
    assert_eq!(ctrl_upcase(b'y' as i32), 25);
}

#[test]
fn interrupt_asks_to_quit() {
    assert_eq!(interpret_key(CTRL_C), (true, ESCAPE));
    assert_eq!(interpret_key(b'x' as i32), (false, b'x' as i32));
}

#[test]
fn newline_wait_accepts_cr_and_lf() {
    assert!(accepts_key('\n', 10));
    assert!(accepts_key('\n', 13));
    assert!(!accepts_key('\n', 32));
    assert!(accepts_key(' ', 32));
}

#[test]
fn terminal_writes_and_reads_back() {
    let mut term = Terminal::new();
    term.write_text_at(IVec2::new(3, 2), "hi");
    assert_eq!(term.glyph_at(IVec2::new(3, 2)), 'h');
    assert_eq!(term.glyph_at(IVec2::new(4, 2)), 'i');
    assert_eq!(term.cursor_pos(), IVec2::new(5, 2));
    term.move_cursor(IVec2::new(3, 2));
    term.clear_to_end_of_line();
    assert_eq!(term.glyph_at(IVec2::new(4, 2)), ' ');
}

#[test]
fn message_split_never_cuts_a_character() {
    assert_eq!(split_message_at("hello", 10), 5);
    assert_eq!(split_message_at("hello world", 5), 5);
    // 'é' takes two bytes: a cut at 2 would land inside it.
    assert_eq!(split_message_at("aé b", 2), 1);
    assert_eq!(next_chunk(71, "more"), (0, true));
    assert_eq!(next_chunk(70, "ab"), (1, true));
}

#[test]
fn more_prompt_answers() {
    assert_eq!(more_key_response(false, 32), MoreAnswer::Accept);
    assert_eq!(more_key_response(false, 27), MoreAnswer::Wait);
    assert_eq!(more_key_response(true, 27), MoreAnswer::Escape);
    assert_eq!(more_key_response(true, b'x' as i32), MoreAnswer::Wait);
}

fn row_text(term: &Terminal, y: i32, n: i32) -> String {
    (0..n).map(|x| term.glyph_at(IVec2::new(x, y))).collect()
}

#[test]
fn message_shows_capitalized_on_the_top_line() {
    let mut term = Terminal::new();
    let mut line = MessageLine::new();
    let (took, flush) = line.add_piece("you feel hungry");
    assert_eq!((took, flush), (15, false));
    assert_eq!(line.begin_flush(&mut term, false, false), Some(MessageResult::Displayed));
    assert_eq!(row_text(&term, 0, 16), "You feel hungry ");
    // The line is now taken up to column 15: the next message asks for more.
    line.add_piece("again");
    assert_eq!(line.begin_flush(&mut term, true, false), None);
    assert_eq!(row_text(&term, 0, 23), "You feel hungry--More--");
    assert_eq!(line.answer_more(&mut term, false, false, b'x' as i32), None);
    assert_eq!(line.answer_more(&mut term, false, false, 32), Some(MessageResult::Displayed));
    assert_eq!(row_text(&term, 0, 7), "Again  ");
}

#[test]
fn escape_at_more_prompt_drops_the_message() {
    let mut term = Terminal::new();
    let mut line = MessageLine::new();
    line.set_position(10);
    line.add_piece("the bat bites");
    assert_eq!(line.begin_flush(&mut term, false, false), None);
    assert_eq!(line.answer_more(&mut term, true, false, 27), Some(MessageResult::Escaped));
    assert_eq!(term.glyph_at(IVec2::new(0, 0)), ' ');
}

fn sample_status() -> StatusInput {
    StatusInput {
        depth: 1,
        purse: 0,
        hit_points: 12,
        max_hit_points: 12,
        strength: 16,
        max_strength: 16,
        armor: 4,
        rank: 1,
        experience: 0,
        hungry_state: 0,
    }
}

#[test]
fn status_line_layout() {
    let mut cache = StatusCache::new();
    let line = cache.update(sample_status(), false).expect("first status is drawn");
    assert_eq!(line, "Level: 1  Gold: 0      Hp: 12(12)  Str: 16(16)  Arm: 6   Exp: 1/0  ");
    assert_eq!(cache.update(sample_status(), false), None);
    assert!(cache.update(sample_status(), true).is_some());
}

#[test]
fn status_line_pads_hit_points_to_the_maximum() {
    let mut cache = StatusCache::new();
    let mut s = sample_status();
    s.hit_points = 7;
    s.max_hit_points = 105;
    s.hungry_state = 2;
    s.purse = -3;
    let line = cache.update(s, false).unwrap();
    assert_eq!(line, "Level: 1  Gold: -3     Hp:   7(105)  Str: 16(16)  Arm: 6   Exp: 1/0  Weak");
}

#[test]
fn status_line_goes_to_the_bottom_row() {
    let mut term = Terminal::new();
    term.move_cursor(IVec2::new(4, 4));
    draw_status(&mut term, "Level: 2");
    assert_eq!(row_text(&term, STATLINE, 9), "Level: 2 ");
    assert_eq!(term.cursor_pos(), IVec2::new(4, 4));
}

#[test]
fn text_carries_the_standout_mode_set_before_it() {
    let mut t = rogue::ui::terminal::Terminal::new();
    rogue::ui::output::set_standout(&mut t, true);
    t.move_cursor(rogue::geom::IVec2::new(0, 3));
    t.write_text("ab");
    rogue::ui::output::clear_screen(&mut t);
    t.move_cursor(rogue::geom::IVec2::new(0, 3));
    t.write_text("cd");
    assert!(t.cell(3, 0).standout && t.cell(3, 1).standout);
    rogue::ui::output::set_standout(&mut t, false);
    t.write_text("e");
    assert!(!t.cell(3, 2).standout);
    assert!(t.cell(3, 0).standout);
}

#[test]
fn a_window_message_starts_top_left_and_leaves_the_cursor_on_the_hero() {
    let mut t = Terminal::new();
    rogue::ui::output::show_window_text(&mut t, "You smell food.", IVec2::new(7, 4));
    assert_eq!(t.cell_at(0, 0), b'Y');
    assert_eq!(t.cell_at(0, 14), b'.');
    assert_eq!(t.cursor_pos(), IVec2::new(7, 4));
}
