use rogue::look::{look_step, LookInput, LookMonster, LookSquare};
use rogue::rnd::Dice;

fn square(ch: u8) -> LookSquare {
    LookSquare { ch, passage: false, monster: None, screen: b' ', known_stairs: false }
}

fn input(squares: Vec<LookSquare>) -> LookInput {
    LookInput {
        hero_y: 5,
        hero_x: 5,
        old_y: 5,
        old_x: 4,
        squares,
        blind: false,
        hallucinating: false,
        acted: true,
        wakeup: false,
        careful: false,
        running: false,
        run_key: b'l',
        dark_room: false,
        see_floor: true,
        jump: false,
    }
}

#[test]
fn look_draws_the_lit_room_around_the_hero() {
    let mut dice = Dice::new();
    let r = look_step(&mut dice, &input(vec![square(b'.'); 9]));
    assert!(r.moved);
    let expected: Vec<(i32, i32, u8)> = vec![
        (4, 4, b'.'), (4, 5, b'.'), (4, 6, b'.'),
        (5, 4, b'.'), (5, 6, b'.'),
        (6, 4, b'.'), (6, 5, b'.'), (6, 6, b'.'),
    ];
    assert_eq!(r.drawn, expected);
    assert!(r.woken.is_empty());
    assert!(!r.running);
    assert!(r.hero_shown);
}

#[test]
fn look_hides_the_floor_of_a_dark_room() {
    let mut dice = Dice::new();
    let mut v = input(vec![square(b'.'); 9]);
    v.dark_room = true;
    v.see_floor = false;
    let r = look_step(&mut dice, &v);
    assert_eq!(r.drawn.len(), 8);
    assert!(r.drawn.iter().all(|&(_, _, c)| c == b' '));
}

#[test]
fn a_careful_run_stops_at_a_door_beside_the_hero() {
    let mut dice = Dice::new();
    let mut squares = vec![square(b'.'); 9];
    squares[5] = square(b'+');
    let mut v = input(squares);
    v.careful = true;
    v.running = true;
    v.jump = true;
    let r = look_step(&mut dice, &v);
    assert!(!r.running);
    assert!(r.hero_shown);
}

#[test]
fn a_careful_run_goes_on_past_plain_floor() {
    let mut dice = Dice::new();
    let mut v = input(vec![square(b'.'); 9]);
    v.careful = true;
    v.running = true;
    v.jump = true;
    let r = look_step(&mut dice, &v);
    assert!(r.running);
    assert!(!r.hero_shown);
}

#[test]
fn look_wakes_a_monster_it_sees_and_keeps_its_looks() {
    let mut dice = Dice::new();
    let mut squares = vec![square(b'.'); 9];
    squares[0].monster = Some(LookMonster { invisible_seen: false, visible: true, disguise: b'K' });
    let mut v = input(squares);
    v.wakeup = true;
    let r = look_step(&mut dice, &v);
    assert_eq!(r.woken, vec![(4, 4)]);
    assert_eq!(r.drawn[0], (4, 4, b'K'));
}

#[test]
fn look_skips_the_top_line_and_rock() {
    let mut dice = Dice::new();
    let mut squares = vec![square(b'.'); 9];
    squares[3] = square(b' ');
    let mut v = input(squares);
    v.hero_y = 1;
    let r = look_step(&mut dice, &v);
    let expected: Vec<(i32, i32, u8)> = vec![(1, 6, b'.'), (2, 4, b'.'), (2, 5, b'.'), (2, 6, b'.')];
    assert_eq!(r.drawn, expected);
}

#[test]
fn a_hallucinating_hero_sees_monsters_as_capital_letters() {
    let mut dice = Dice::new();
    let mut squares = vec![square(b'.'); 9];
    squares[8].monster = Some(LookMonster { invisible_seen: false, visible: true, disguise: b'K' });
    let mut v = input(squares);
    v.hallucinating = true;
    let r = look_step(&mut dice, &v);
    let (y, x, c) = r.drawn[7];
    assert_eq!((y, x), (6, 6));
    assert!(c.is_ascii_uppercase());
}
