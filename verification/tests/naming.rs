use rogue::naming::{call_plan, call_prompt, was_called, CallPlan};
use rogue::wizard::{ARMOR, FOOD, POTION, RING, WEAPON};

fn asked(p: CallPlan) -> (Option<String>, String) {
    match p {
        CallPlan::Ask { was, current } => (was, current),
        other => panic!("expected a question, got {:?}", other),
    }
}

#[test]
fn food_and_known_sorts_are_not_named() {
    assert!(matches!(call_plan(FOOD, false, None, "", None), CallPlan::CannotCall));
    assert!(matches!(call_plan(POTION, true, Some("water"), "blue", None), CallPlan::AlreadyKnown));
}

#[test]
fn sorts_go_by_the_guess_or_their_looks() {
    assert_eq!(asked(call_plan(POTION, false, None, "blue", None)), (None, "blue".to_string()));
    assert_eq!(
        asked(call_plan(RING, false, Some("speed?"), "ruby", None)),
        (Some("speed?".to_string()), "speed?".to_string())
    );
}

#[test]
fn single_items_go_by_their_label() {
    assert_eq!(asked(call_plan(WEAPON, true, None, "", Some("stabby"))), (Some("stabby".to_string()), "stabby".to_string()));
    assert_eq!(asked(call_plan(ARMOR, false, None, "", None)), (None, String::new()));
}

#[test]
fn the_hero_is_reminded_and_asked() {
    assert_eq!(was_called("speed?", false), "Was called \"speed?\"");
    assert_eq!(was_called("speed?", true), "called \"speed?\"");
    assert_eq!(call_prompt(true), "call it: ");
    assert_eq!(call_prompt(false), "what do you want to call it? ");
}
