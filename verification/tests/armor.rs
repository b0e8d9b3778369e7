use rogue::armor::{refusal_message, taken_off_message, wear_check, wearing_message, WearCheck};
use rogue::wizard::{ARMOR, WEAPON};

#[test]
fn armor_goes_on_one_suit_at_a_time() {
    assert_eq!(wear_check(true, ARMOR), WearCheck::AlreadyWearing);
    assert_eq!(wear_check(false, WEAPON), WearCheck::NotArmor);
    assert_eq!(wear_check(false, ARMOR), WearCheck::Wear);
    assert_eq!(
        refusal_message(WearCheck::AlreadyWearing, false),
        "you are already wearing some.  You'll have to take it off first"
    );
    assert_eq!(refusal_message(WearCheck::AlreadyWearing, true), "you are already wearing some");
    assert_eq!(refusal_message(WearCheck::NotArmor, false), "you can't wear that");
}

#[test]
fn putting_on_and_taking_off_are_told() {
    assert_eq!(wearing_message("ring mail", false), "you are now wearing ring mail");
    assert_eq!(wearing_message("ring mail", true), "wearing ring mail");
    assert_eq!(taken_off_message(Some((b'b', "ring mail")), false), "you used to be wearing b) ring mail");
    assert_eq!(taken_off_message(Some((b'b', "ring mail")), true), "was wearing b) ring mail");
    assert_eq!(taken_off_message(None, false), "you aren't wearing any armor");
    assert_eq!(taken_off_message(None, true), "not wearing armor");
}
