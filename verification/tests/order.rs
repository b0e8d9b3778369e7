use rogue::rnd::Dice;
use rogue::things::set_order;

#[test]
fn set_order_gives_each_number_once() {
    let mut dice = Dice::new();
    for n in [0usize, 1, 2, 7, 14] {
        let mut v = set_order(&mut dice, n);
        assert_eq!(v.len(), n);
        v.sort();
        let expected: Vec<i32> = (0..n as i32).collect();
        assert_eq!(v, expected);
    }
}
