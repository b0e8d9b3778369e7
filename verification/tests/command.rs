use rogue::command::{action_of, begin_command, command_is_free, next_key_source, sleep_turn, Action, CommandState, Dispatch, KeySource};
use rogue::command::{
    confused_step, count_step, ctrl_run, direction_key, keeps_count, move_delta, remembers_command, run_key, DirAnswer,
    MAX_COUNT,
};
use rogue::command::{illegal_command_message, climb_message, current_message, go_down, go_up, identify_message, Climb};
use rogue::rnd::Dice;

#[test]
fn typed_counts_build_up_and_cap() {
    assert_eq!(count_step(0, b'4'), 4);
    assert_eq!(count_step(4, b'2'), 42);
    assert_eq!(count_step(42, b'0'), MAX_COUNT);
    assert_eq!(count_step(25, b'5'), 255);
    assert_eq!(count_step(25, b'6'), 255);
}

#[test]
fn counts_apply_to_moves_and_searches_only() {
    for c in [b'h', b's', b'.', b'a', b'H', b'C', 2u8, 1u8, 4u8] {
        assert!(keeps_count(c), "{}", c);
    }
    for c in [b'i', b'e', b'w', b'Q', b'?', 27u8] {
        assert!(!keeps_count(c), "{}", c);
    }
}

#[test]
fn only_fresh_commands_are_remembered() {
    assert!(remembers_command(b'q', false, 0, false));
    assert!(!remembers_command(b'a', false, 0, false));
    assert!(!remembers_command(27, false, 0, false));
    assert!(!remembers_command(b'q', true, 0, false));
    assert!(!remembers_command(b'q', false, 3, false));
    assert!(!remembers_command(b'q', false, 0, true));
}

#[test]
fn movement_keys_step_and_run() {
    assert_eq!(move_delta(b'h'), Some((0, -1)));
    assert_eq!(move_delta(b'n'), Some((1, 1)));
    assert_eq!(move_delta(b'x'), None);
    assert_eq!(run_key(b'K'), Some(b'k'));
    assert_eq!(run_key(b'X'), None);
    assert_eq!(run_key(b'k'), None);
    assert_eq!(ctrl_run(b'K' & 0x1f, 0, false, b'J'), b'K');
    assert_eq!(ctrl_run(b'K' & 0x1f, 3, false, b'J'), b'J');
    assert_eq!(ctrl_run(b'K' & 0x1f, 3, true, b'J'), b'K');
}

#[test]
fn directions_come_from_movement_keys_in_either_case() {
    assert_eq!(direction_key(b'h'), DirAnswer::Toward { dy: 0, dx: -1, key: b'h' });
    assert_eq!(direction_key(b'N'), DirAnswer::Toward { dy: 1, dx: 1, key: b'n' });
    assert_eq!(direction_key(27), DirAnswer::Cancel);
    assert_eq!(direction_key(b'x'), DirAnswer::Retry);
    assert_eq!(direction_key(b'X'), DirAnswer::Retry);
}

#[test]
fn confused_heroes_always_stumble_somewhere() {
    let mut dice = Dice::new();
    let mut seen = std::collections::HashSet::new();
    for _ in 0..400 {
        let (dy, dx) = confused_step(&mut dice);
        assert!((-1..=1).contains(&dy) && (-1..=1).contains(&dx));
        assert!(!(dy == 0 && dx == 0));
        seen.insert((dy, dx));
    }
    assert_eq!(seen.len(), 8);
}

#[test]
fn identify_names_what_a_character_stands_for() {
    assert_eq!(identify_message(b'K'), "'K': kestrel");
    assert_eq!(identify_message(b'.'), "'.': room floor");
    assert_eq!(identify_message(b'@'), "'@': you");
    assert_eq!(identify_message(b'/'), "'/': wand or staff");
    assert_eq!(identify_message(1), "'^A': unknown character");
}

#[test]
fn stairs_lead_up_only_with_the_amulet() {
    assert_eq!(go_up(true, true, true, 5), Climb::Floating);
    assert_eq!(go_up(false, false, true, 5), Climb::NoStairs);
    assert_eq!(go_up(false, true, false, 5), Climb::Blocked);
    assert_eq!(go_up(false, true, true, 5), Climb::Arrive(4));
    assert_eq!(go_up(false, true, true, 1), Climb::Escape);
    assert_eq!(go_down(false, true, 5), Climb::Arrive(6));
    assert_eq!(go_down(false, false, 5), Climb::NoStairs);
    assert_eq!(go_down(true, true, 5), Climb::Floating);
    assert_eq!(climb_message(Climb::NoStairs, true), "I see no way up");
    assert_eq!(climb_message(Climb::NoStairs, false), "I see no way down");
    assert_eq!(climb_message(Climb::Arrive(4), true), "you feel a wrenching sensation in your gut");
    assert_eq!(climb_message(Climb::Blocked, true), "your way is magically blocked");
}

#[test]
fn current_equipment_is_described() {
    assert_eq!(
        current_message(Some((b'c', "a +1 mace")), "wielding", Some("in hand"), false),
        "you are wielding (c) a +1 mace in hand"
    );
    assert_eq!(current_message(Some((b'c', "a +1 mace")), "wielding", None, true), "c) a +1 mace");
    assert_eq!(current_message(None, "wearing", None, false), "you are wearing nothing");
    assert_eq!(current_message(None, "wearing", Some("on left hand"), true), "wearing nothing on left hand");
}

#[test]
fn unknown_keys_are_illegal_commands() {
    assert_eq!(illegal_command_message(b'X'), "illegal command 'X'");
    assert_eq!(illegal_command_message(7), "illegal command '^G'");
}

fn reader_state() -> CommandState {
    CommandState {
        count: 0,
        new_count: false,
        direction: b'L',
        last_comm: 0,
        last_dir: 0,
        l_last_comm: 0,
        l_last_dir: 0,
        again: false,
        door_stop: false,
        firstmove: false,
    }
}

#[test]
fn a_command_is_remembered_for_repeating() {
    let (s, d) = begin_command(reader_state(), b's', false, false, false);
    assert_eq!(d, Dispatch::Run(b's'));
    assert_eq!(s.last_comm, b's');
    let (s2, d2) = begin_command(s, b'a', false, false, false);
    assert_eq!(d2, Dispatch::Run(b's'));
    assert!(s2.again);
    assert_eq!(s2.last_comm, b's');
}

#[test]
fn repeating_with_nothing_typed_yet() {
    let (_, d) = begin_command(reader_state(), b'a', false, false, false);
    assert_eq!(d, Dispatch::NothingToRepeat);
}

#[test]
fn a_count_is_used_up_one_command_at_a_time() {
    let mut st = reader_state();
    st.count = 3;
    let (s, d) = begin_command(st, b'l', false, false, false);
    assert_eq!(d, Dispatch::Run(b'l'));
    assert_eq!(s.count, 2);
    assert_eq!(s.last_comm, 0);
}

#[test]
fn ctrl_run_keys_become_careful_runs() {
    let (s, d) = begin_command(reader_state(), 8, false, false, false);
    assert_eq!(d, Dispatch::Run(b'H'));
    assert_eq!(s.direction, b'H');
    assert!(s.door_stop && s.firstmove);
    let mut st = reader_state();
    st.count = 2;
    st.direction = b'J';
    let (s, d) = begin_command(st, 12, false, false, true);
    assert_eq!(d, Dispatch::Run(b'J'));
    assert!(!s.door_stop);
}

#[test]
fn which_commands_take_no_time() {
    assert!(command_is_free(b'i'));
    assert!(command_is_free(b'X'));
    assert!(!command_is_free(b'h'));
    assert!(!command_is_free(b's'));
}

#[test]
fn the_next_key_comes_from_the_run_the_count_or_the_keyboard() {
    assert_eq!(next_key_source(2, true, false, 3, b'l', b's'), KeySource::Rest);
    assert_eq!(next_key_source(0, true, false, 3, b'l', b's'), KeySource::Repeat(b'l'));
    assert_eq!(next_key_source(0, false, true, 0, b'h', b's'), KeySource::Repeat(b'h'));
    assert_eq!(next_key_source(0, false, false, 3, b'l', b's'), KeySource::Counted(b's'));
    assert_eq!(next_key_source(0, false, false, 0, b'l', b's'), KeySource::Keyboard);
    assert_eq!(sleep_turn(1), (0, true));
    assert_eq!(sleep_turn(3), (2, false));
}

#[test]
fn the_key_table() {
    assert_eq!(action_of(b'h', false), Action::Move { dy: 0, dx: -1 });
    assert_eq!(action_of(b'N', false), Action::Run(b'n'));
    assert_eq!(action_of(12, false), Action::CarefulRun);
    assert_eq!(action_of(b'F', false), Action::Fight { to_death: true });
    assert_eq!(action_of(b'q', false), Action::Quaff);
    assert_eq!(action_of(b'z', false), Action::Zap);
    assert_eq!(action_of(27, false), Action::Escape);
    assert_eq!(action_of(b'C', false), Action::Illegal(b'C'));
    assert_eq!(action_of(b'C', true), Action::Wizard(b'C'));
    assert_eq!(action_of(b'X', true), Action::Illegal(b'X'));
}
