use rogue::geom::IVec2;
use rogue::rnd::Dice;
use rogue::sticks::StickType;
use rogue::zap::{bolt_outcome, drain_hp, zap, BoltOutcome, ZapScene, ZapSquare, ZapWork};

fn scene() -> ZapScene {
    ZapScene {
        hero: IVec2::new(10, 5),
        dir: IVec2::new(1, 0),
        line: vec![
            ZapSquare { ch: b'@', monster: false },
            ZapSquare { ch: b'.', monster: false },
            ZapSquare { ch: b'K', monster: true },
        ],
        missile_end: IVec2::new(12, 5),
        missile_target: Some(true),
        bolt_target: Some(true),
        hero_saves: false,
    }
}

#[test]
fn an_empty_stick_does_nothing() {
    let mut dice = Dice::new();
    let z = zap(&mut dice, Some(StickType::Light), 0, 10, false, &scene());
    assert_eq!(z.charges, 0);
    assert_eq!(z.message, "nothing happens");
    assert!(z.work.is_empty());
}

#[test]
fn drain_life_needs_two_hit_points_and_halves_them() {
    let mut dice = Dice::new();
    let z = zap(&mut dice, Some(StickType::Drain), 3, 1, false, &scene());
    assert_eq!(z.charges, 3);
    assert_eq!(z.message, "you are too weak to use it");
    let z = zap(&mut dice, Some(StickType::Drain), 3, 9, false, &scene());
    assert_eq!(z.charges, 2);
    assert_eq!(z.hp, 4);
    assert_eq!(z.message, "you have a tingling feeling");
    assert_eq!(drain_hp(1), (1, "you have a tingling feeling"));
}

#[test]
fn light_is_known_and_spends_a_charge() {
    let mut dice = Dice::new();
    let z = zap(&mut dice, Some(StickType::Light), 5, 10, false, &scene());
    assert_eq!(z.charges, 4);
    assert!(z.known);
    assert_eq!(z.message, "the corridor glows and then fades");
}

#[test]
fn a_spell_tells_when_it_reaches_a_monster() {
    let mut dice = Dice::new();
    let z = zap(&mut dice, Some(StickType::SlowM), 5, 10, false, &scene());
    assert_eq!(z.message, "the spell takes effect");
    let mut s = scene();
    s.line[2].monster = false;
    let z = zap(&mut dice, Some(StickType::Polymorph), 5, 10, false, &s);
    assert_eq!(z.message, "");
}

#[test]
fn a_missile_hits_or_vanishes() {
    let mut dice = Dice::new();
    let z = zap(&mut dice, Some(StickType::Missile), 5, 10, false, &scene());
    assert_eq!(z.work, vec![ZapWork::MissileHits { y: 5, x: 12 }]);
    let mut s = scene();
    s.missile_target = Some(false);
    let z = zap(&mut dice, Some(StickType::Missile), 5, 10, true, &s);
    assert_eq!(z.message, "missle vanishes");
}

#[test]
fn a_bolt_hits_the_monster_beside_the_hero() {
    let mut dice = Dice::new();
    let z = zap(&mut dice, Some(StickType::Fire), 5, 10, false, &scene());
    assert!(z.known);
    assert_eq!(z.work, vec![ZapWork::BoltHits { kind: StickType::Fire, y: 5, x: 11 }, ZapWork::DrawBolt { y: 5, x: 11 }]);
    let mut s = scene();
    s.bolt_target = None;
    let z = zap(&mut dice, Some(StickType::Cold), 5, 10, false, &s);
    assert_eq!(z.message, "the bolt misses");
}

#[test]
fn a_bolt_landing_on_the_hero() {
    let mut dice = Dice::new();
    let start = IVec2::new(9, 5);
    let hero = IVec2::new(10, 5);
    let dir = IVec2::new(1, 0);
    assert_eq!(bolt_outcome(&mut dice, start, hero, dir, None, true, 10), BoltOutcome::WhizzesBy);
    assert_eq!(bolt_outcome(&mut dice, start, hero, dir, None, false, 1), BoltOutcome::HitsHero { dies: true });
    assert_eq!(bolt_outcome(&mut dice, start, hero, dir, None, false, 100), BoltOutcome::HitsHero { dies: false });
}

#[test]
fn an_unknown_stick_is_bizarre() {
    let mut dice = Dice::new();
    let z = zap(&mut dice, None, 2, 10, false, &scene());
    assert_eq!(z.message, "what a bizarre schtick!");
    assert_eq!(z.charges, 1);
}
