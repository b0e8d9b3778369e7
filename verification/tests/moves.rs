use rogue::moves::{
    floor_at, step_ok, random_offset, random_step_ok, seen_stairs, show_floor, trip_ch, turn_ok, entered_square, is_off_map, left_floor, left_square, passages_stop, passgo_turn, run_notice, step_action, Notice, Redraw,
    Step, Turn,
};
use rogue::rnd::Dice;

#[test]
fn the_map_lies_between_message_and_status_lines() {
    assert!(is_off_map(0, 5));
    assert!(is_off_map(23, 5));
    assert!(is_off_map(5, -1));
    assert!(is_off_map(5, 80));
    assert!(!is_off_map(1, 0));
    assert!(!is_off_map(22, 79));
}

#[test]
fn corridor_runs_turn_where_only_one_side_is_open() {
    assert_eq!(passgo_turn(true, b'l', 5, 5, true, false, false, false), Some(Turn { run: b'k', dy: -1, dx: 0 }));
    assert_eq!(passgo_turn(true, b'h', 5, 5, false, true, false, false), Some(Turn { run: b'j', dy: 1, dx: 0 }));
    assert_eq!(passgo_turn(true, b'l', 5, 5, true, true, false, false), None);
    assert_eq!(passgo_turn(true, b'l', 1, 5, true, false, false, false), None);
    assert_eq!(passgo_turn(true, b'j', 5, 5, false, false, true, false), Some(Turn { run: b'h', dy: 0, dx: -1 }));
    assert_eq!(passgo_turn(true, b'k', 5, 0, false, false, true, true), Some(Turn { run: b'l', dy: 0, dx: 1 }));
    assert_eq!(passgo_turn(false, b'l', 5, 5, true, false, false, false), None);
    assert_eq!(passgo_turn(true, b'y', 5, 5, true, false, false, false), None);
}

#[test]
fn squares_decide_what_a_step_does() {
    assert_eq!(step_action(b'-', true, false, false, false), (Step::Blocked, false));
    assert_eq!(step_action(b' ', true, false, false, false), (Step::Blocked, false));
    assert_eq!(step_action(b'+', true, false, false, false), (Step::Door, false));
    assert_eq!(step_action(b'#', true, false, false, false), (Step::Passage, false));
    assert_eq!(step_action(b'.', true, false, false, false), (Step::Floor { hidden: false }, false));
    assert_eq!(step_action(b'.', false, false, false, false), (Step::Trap, true));
    assert_eq!(step_action(b'.', false, true, false, false), (Step::Floor { hidden: true }, false));
    assert_eq!(step_action(b'.', true, false, true, false), (Step::Held, false));
    assert_eq!(step_action(b'F', true, false, true, true), (Step::Fight, false));
    assert_eq!(step_action(b'K', true, false, false, false), (Step::Fight, false));
    assert_eq!(step_action(b'!', true, false, false, true), (Step::Fight, false));
    assert_eq!(step_action(b'!', true, false, false, false), (Step::Take { what: b'!' }, false));
    assert_eq!(step_action(b'%', true, false, false, false), (Step::Take { what: b'%' }, false));
}

#[test]
fn runners_notice_what_is_ahead() {
    assert_eq!(run_notice(b'l', 0, -1, b'@'), Notice::Behind);
    assert_eq!(run_notice(b'l', 0, 1, b'+'), Notice::Stop);
    assert_eq!(run_notice(b'l', 1, 1, b'+'), Notice::Nothing);
    assert_eq!(run_notice(b'l', 1, 0, b'#'), Notice::Passage);
    assert_eq!(run_notice(b'l', 1, 0, b'.'), Notice::Nothing);
    assert_eq!(run_notice(b'l', 1, 0, b'!'), Notice::Stop);
    assert_eq!(run_notice(b'y', 1, 0, b'!'), Notice::Behind);
    assert_eq!(run_notice(b'y', -1, 0, b'!'), Notice::Stop);
    assert!(passages_stop(2));
    assert!(!passages_stop(1));
}

#[test]
fn rooms_fade_behind_the_hero() {
    assert_eq!(left_floor(true, true, false), b'#');
    assert_eq!(left_floor(false, false, false), b'.');
    assert_eq!(left_floor(false, true, true), b'.');
    assert_eq!(left_floor(false, true, false), b' ');
    assert_eq!(left_square(b'.', b' ', false, b'.'), Redraw::Put(b' '));
    assert_eq!(left_square(b'.', b'.', false, b'.'), Redraw::Keep);
    assert_eq!(left_square(b'K', b' ', true, b'.'), Redraw::Highlight(b'K'));
    assert_eq!(left_square(b'K', b' ', false, b'+'), Redraw::Put(b'+'));
    assert_eq!(left_square(b'K', b'.', false, b'.'), Redraw::Put(b'.'));
    assert_eq!(left_square(b'!', b' ', false, b'!'), Redraw::Keep);
}

#[test]
fn lit_rooms_appear_as_the_hero_enters() {
    assert_eq!(entered_square(b'.', b' ', None, false), Redraw::Put(b'.'));
    assert_eq!(entered_square(b'.', b'.', None, false), Redraw::Keep);
    assert_eq!(entered_square(b'.', b' ', Some((true, b'K')), false), Redraw::Put(b'K'));
    assert_eq!(entered_square(b'.', b' ', Some((false, b'K')), true), Redraw::Highlight(b'K'));
    assert_eq!(entered_square(b'.', b' ', Some((false, b'K')), false), Redraw::Put(b'.'));
}

#[test]
fn wanderers_step_at_random_where_they_may() {
    use_random_offsets();
    assert!(random_step_ok(0, 0, false, false, true));
    assert!(random_step_ok(1, 1, true, true, false));
    assert!(!random_step_ok(1, 1, false, true, false));
    assert!(!random_step_ok(0, 1, true, false, false));
    assert!(!random_step_ok(-1, 0, true, true, true));
}

fn use_random_offsets() {
    let mut dice = Dice::new();
    let mut still = false;
    for _ in 0..200 {
        let (dy, dx) = random_offset(&mut dice);
        assert!((-1..=1).contains(&dy) && (-1..=1).contains(&dx));
        if dy == 0 && dx == 0 {
            still = true;
        }
    }
    assert!(still);
}

#[test]
fn hallucinations_change_things_but_not_the_map() {
    let mut dice = Dice::new();
    assert_eq!(trip_ch(&mut dice, false, true, b'K', false), b'K');
    assert_eq!(trip_ch(&mut dice, true, false, b'K', false), b'K');
    assert_eq!(trip_ch(&mut dice, true, true, b'.', false), b'.');
    assert_eq!(trip_ch(&mut dice, true, true, b'+', false), b'+');
    assert_eq!(trip_ch(&mut dice, true, true, b'%', true), b'%');
    for _ in 0..20 {
        assert!(trip_ch(&mut dice, true, true, b'K', false) < 26);
    }
}

#[test]
fn stairs_are_known_when_seen_or_stood_on() {
    assert!(seen_stairs(true, false, None, false));
    assert!(seen_stairs(false, true, None, false));
    assert!(!seen_stairs(false, false, None, true));
    assert!(seen_stairs(false, false, Some((true, true, b'.')), false));
    assert!(!seen_stairs(false, false, Some((true, false, b'%')), false));
    assert!(seen_stairs(false, false, Some((false, false, b'%')), true));
}

#[test]
fn floors_show_by_the_light_of_the_room() {
    assert!(turn_ok(b'+', 0));
    assert!(turn_ok(b'#', 0x90));
    assert!(!turn_ok(b'#', 0x80));
    assert!(show_floor(false, false, false, false));
    assert!(!show_floor(false, true, false, false));
    assert!(show_floor(false, true, false, true));
    assert!(show_floor(true, true, false, false));
    assert!(show_floor(false, true, true, false));
    assert_eq!(floor_at(b'.', true, true), b'#');
    assert_eq!(floor_at(b'.', false, true), b'.');
    assert_eq!(floor_at(b'.', false, false), b' ');
    assert_eq!(floor_at(b'+', false, false), b'+');
}

#[test]
fn creatures_step_around_rock_walls_and_monsters() {
    assert!(step_ok(b'.'));
    assert!(step_ok(b'#'));
    assert!(step_ok(b'+'));
    assert!(step_ok(b'!'));
    assert!(!step_ok(b' '));
    assert!(!step_ok(b'|'));
    assert!(!step_ok(b'-'));
    assert!(!step_ok(b'K'));
    assert!(!step_ok(b'k'));
}
