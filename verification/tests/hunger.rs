use rogue::hunger::{digest, pang_message, ring_eat, stomach, Pang, Stomach, R_DIGEST};
use rogue::rnd::Dice;

fn fed(food_left: i32) -> Stomach {
    Stomach { food_left, hungry: 0, no_command: 0 }
}

#[test]
fn food_runs_down_into_hunger_and_weakness() {
    assert_eq!(digest(fed(1000), 0, false, 0, 4), (fed(999), Pang::Quiet));
    assert_eq!(digest(fed(1000), 0, true, 0, 4), (fed(1000), Pang::Quiet));
    assert_eq!(digest(fed(300), 0, false, 0, 4), (Stomach { food_left: 299, hungry: 1, no_command: 0 }, Pang::Hungry));
    assert_eq!(digest(fed(150), 1, false, 0, 4), (Stomach { food_left: 148, hungry: 2, no_command: 0 }, Pang::Weak));
    assert_eq!(digest(fed(149), 0, false, 0, 4), (fed(148), Pang::Quiet));
}

#[test]
fn an_empty_stomach_faints_and_starves() {
    assert_eq!(digest(fed(0), 0, false, 0, 7), (Stomach { food_left: -1, hungry: 3, no_command: 7 }, Pang::Faint));
    assert_eq!(digest(fed(0), 0, false, 2, 7), (fed(-1), Pang::Quiet));
    let stuck = Stomach { food_left: -5, hungry: 3, no_command: 2 };
    assert_eq!(digest(stuck, 0, false, 0, 7), (Stomach { food_left: -6, ..stuck }, Pang::Quiet));
    assert_eq!(digest(fed(-851), 0, false, 0, 7), (fed(-852), Pang::Starved));
    assert_eq!(digest(fed(-850), 0, false, 1, 7), (fed(-851), Pang::Quiet));
}

#[test]
fn rings_eat_their_share() {
    let mut dice = Dice::new();
    assert_eq!(ring_eat(&mut dice, None), 0);
    assert_eq!(ring_eat(&mut dice, Some(0)), 1);
    assert_eq!(ring_eat(&mut dice, Some(9)), 2);
    assert_eq!(ring_eat(&mut dice, Some(5)), 0);
    assert_eq!(ring_eat(&mut dice, Some(40)), 0);
    for _ in 0..20 {
        let d = ring_eat(&mut dice, Some(R_DIGEST));
        assert!(d == 0 || d == -1);
        let s = ring_eat(&mut dice, Some(3));
        assert!(s == 0 || s == 1);
    }
}

#[test]
fn a_turn_of_the_stomach_uses_food() {
    let mut dice = Dice::new();
    let (s, p) = stomach(&mut dice, fed(500), Some(9), None, false);
    assert_eq!(s.food_left, 497);
    assert_eq!(p, Pang::Quiet);
    for _ in 0..30 {
        let (s, p) = stomach(&mut dice, fed(0), None, None, false);
        assert_eq!(s.food_left, -1);
        if p == Pang::Faint {
            assert!(s.no_command >= 4 && s.no_command < 12);
        } else {
            assert_eq!(p, Pang::Quiet);
        }
    }
}

#[test]
fn pangs_have_their_words() {
    assert_eq!(pang_message(Pang::Faint, false, false), "you feel too weak from lack of food.  You faint");
    assert_eq!(pang_message(Pang::Faint, true, true), "You freak out");
    assert_eq!(pang_message(Pang::Weak, false, false), "you are starting to feel weak");
    assert_eq!(pang_message(Pang::Hungry, true, false), "getting hungry");
    assert_eq!(pang_message(Pang::Hungry, false, true), "you are getting the munchies");
    assert_eq!(pang_message(Pang::Quiet, false, false), "");
}

use rogue::hunger::{eat_food, taste, taste_message, Taste, STOMACHSIZE};
use rogue::potions::{add_haste, Haste, potion_trip, start_trip, trip_message, CANSEE, ISBLIND, ISHALU, ISHUH, ISLEVIT};

#[test]
fn a_meal_fills_the_stomach_up_to_its_size() {
    let mut dice = Dice::new();
    for _ in 0..30 {
        let f = eat_food(&mut dice, -40);
        assert!((1100..1500).contains(&f));
        assert_eq!(eat_food(&mut dice, 1900), STOMACHSIZE);
    }
}

#[test]
fn meals_taste_of_something() {
    let mut dice = Dice::new();
    assert_eq!(taste(&mut dice, 1), Taste::Fruit);
    for _ in 0..30 {
        assert_ne!(taste(&mut dice, 0), Taste::Fruit);
    }
    assert_eq!(taste_message(Taste::Fruit, "mango"), "my, that was a yummy mango");
    assert_eq!(taste_message(Taste::Awful, "mango"), "bummer, this food tastes awful");
    assert_eq!(taste_message(Taste::Good, "mango"), "yum, that tasted good");
}

#[test]
fn trip_potions_set_a_state_for_a_while() {
    assert_eq!(potion_trip(0), Some((ISHUH, 20)));
    assert_eq!(potion_trip(1), Some((ISHALU, 850)));
    assert_eq!(potion_trip(4), Some((CANSEE, 850)));
    assert_eq!(potion_trip(12), Some((ISBLIND, 850)));
    assert_eq!(potion_trip(13), Some((ISLEVIT, 30)));
    assert_eq!(potion_trip(2), None);
    assert_eq!(start_trip(0, ISHUH), (ISHUH, true));
    assert_eq!(start_trip(ISHUH | ISBLIND, ISHUH), (ISHUH | ISBLIND, false));
    assert_eq!(trip_message(0, true, ""), "what a tripy feeling!");
    assert_eq!(trip_message(4, false, "this potion tastes like slime-mold juice"), "this potion tastes like slime-mold juice");
    assert_eq!(trip_message(13, false, ""), "you start to float in the air");
    assert_eq!(trip_message(9, false, "x"), "");
}

#[test]
fn haste_on_haste_exhausts() {
    let mut dice = Dice::new();
    for _ in 0..20 {
        match add_haste(&mut dice, true, true) {
            Haste::Exhausted { lost } => assert!((0..8).contains(&lost)),
            other => panic!("{:?}", other),
        }
        match add_haste(&mut dice, false, true) {
            Haste::Hasted { turns: Some(t) } => assert!((4..8).contains(&t)),
            other => panic!("{:?}", other),
        }
    }
    assert_eq!(add_haste(&mut dice, false, false), Haste::Hasted { turns: None });
}
