use rogue::pack::{drop_all, inv_name, Wearing, AMULET, GOLD};
use rogue::wizard::{ARMOR, FOOD, POTION, RING, SCROLL, STICK, WEAPON};

fn bare() -> Wearing {
    Wearing { armor: false, weapon: false, left_hand: false, right_hand: false }
}

#[test]
fn names_single_and_counted_potions() {
    assert_eq!(inv_name(POTION, 1, 0, "healing", None, bare(), false, false), "A healing");
    assert_eq!(inv_name(POTION, 3, 0, "healing", None, bare(), false, false), "3 healings");
    assert_eq!(inv_name(POTION, 1, 0, "healing", None, bare(), false, true), "a healing");
}

#[test]
fn names_rings_sticks_and_scrolls() {
    assert_eq!(inv_name(RING, 1, 0, "ruby", None, bare(), false, false), "A ruby ring");
    assert_eq!(inv_name(RING, 2, 0, "ruby", None, bare(), false, false), "2 ruby rings");
    assert_eq!(inv_name(STICK, 1, 0, "oak staff", None, bare(), false, true), "a oak staff");
    assert_eq!(inv_name(SCROLL, 1, 0, "magic mapping", None, bare(), false, false), "A scroll of magic mapping");
    assert_eq!(inv_name(SCROLL, 4, 0, "identify", None, bare(), false, false), "4 scrolls of identify");
}

#[test]
fn names_food_amulet_gold_and_unknown() {
    assert_eq!(inv_name(FOOD, 1, 0, "", None, bare(), false, false), "Some food");
    assert_eq!(inv_name(FOOD, 2, 0, "", None, bare(), false, true), "2 rations of food");
    assert_eq!(inv_name(AMULET, 1, 0, "", None, bare(), false, true), "the Amulet of Yendor");
    assert_eq!(inv_name(GOLD, 1, 57, "", None, bare(), false, false), "57 Gold pieces");
    assert_eq!(inv_name(7, 1, 0, "", None, bare(), false, false), "Something");
}

#[test]
fn weapons_take_an_article_and_labels() {
    assert_eq!(inv_name(WEAPON, 1, 0, "arrow", None, bare(), false, true), "an arrow");
    assert_eq!(inv_name(WEAPON, 1, 0, "mace", None, bare(), false, false), "A mace");
    assert_eq!(inv_name(WEAPON, 12, 3, "arrow", None, bare(), false, true), "12 arrows");
    assert_eq!(
        inv_name(WEAPON, 1, 0, "mace", Some("old faithful"), bare(), false, true),
        "a mace called old faithful"
    );
    assert_eq!(
        inv_name(ARMOR, 1, 0, "leather armor", Some("smelly"), bare(), false, false),
        "Leather armor called smelly"
    );
}

#[test]
fn slot_notes_only_when_describing() {
    let worn = Wearing { armor: true, weapon: false, left_hand: false, right_hand: false };
    assert_eq!(inv_name(ARMOR, 1, 0, "ring mail", None, worn, true, false), "Ring mail (being worn)");
    assert_eq!(inv_name(ARMOR, 1, 0, "ring mail", None, worn, false, false), "Ring mail");
    let hands = Wearing { armor: false, weapon: false, left_hand: true, right_hand: true };
    assert_eq!(inv_name(RING, 1, 0, "jade", None, hands, true, false), "A jade ring (on left hand)");
    let right = Wearing { armor: false, weapon: true, left_hand: false, right_hand: true };
    assert_eq!(
        inv_name(WEAPON, 1, 0, "dagger", None, right, true, true),
        "a dagger (weapon in hand) (on right hand)"
    );
}

#[test]
fn long_names_are_cut_to_the_buffer() {
    let long = "x".repeat(2000);
    let name = inv_name(ARMOR, 1, 0, &long, None, bare(), false, true);
    assert_eq!(name.len(), 1023);
}

use rogue::pack::{
    empty_inventory_message, get_item_prompt, is_magic, invalid_item_message, inventory_line, no_room_message, not_in_pack_message, AddOutcome, Pack, PackItem, PickyStart, CALLABLE, ISFOUND, MAXPACK, S_SCARE,
};
use rogue::wizard::R_OR_S;

fn item(kind: i32, which: i32, count: i32, group: i32) -> PackItem {
    PackItem { kind, which, count, group, flags: 0, letter: 0 }
}

#[test]
fn first_item_starts_the_pack_with_letter_a() {
    let mut p = Pack::new();
    assert_eq!(p.add_pack(item(POTION, 2, 1, 0)), AddOutcome::Started);
    assert_eq!(p.items().len(), 1);
    assert_eq!(p.items()[0].letter, b'a');
    assert_eq!(p.items()[0].flags, ISFOUND);
    assert_eq!(p.carried(), 1);
}

#[test]
fn potions_of_a_sort_pile_up() {
    let mut p = Pack::new();
    p.add_pack(item(POTION, 2, 1, 0));
    assert_eq!(p.add_pack(item(POTION, 2, 1, 0)), AddOutcome::Stacked(0));
    assert_eq!(p.items()[0].count, 2);
    assert_eq!(p.carried(), 2);
}

#[test]
fn new_entries_go_next_to_their_kind() {
    let mut p = Pack::new();
    p.add_pack(item(POTION, 2, 1, 0));
    assert_eq!(p.add_pack(item(SCROLL, 4, 1, 0)), AddOutcome::Inserted(1));
    assert_eq!(p.add_pack(item(POTION, 3, 1, 0)), AddOutcome::Inserted(1));
    let kinds: Vec<i32> = p.items().iter().map(|e| e.kind).collect();
    assert_eq!(kinds, vec![POTION, POTION, SCROLL]);
    let letters: Vec<u8> = p.items().iter().map(|e| e.letter).collect();
    assert_eq!(letters, vec![b'a', b'c', b'b']);
    assert_eq!(p.carried(), 3);
}

#[test]
fn missiles_of_one_throw_join_together() {
    let mut p = Pack::new();
    p.add_pack(item(POTION, 2, 1, 0));
    assert_eq!(p.add_pack(item(WEAPON, 1, 10, 5)), AddOutcome::Inserted(1));
    assert_eq!(p.add_pack(item(WEAPON, 1, 5, 5)), AddOutcome::Grouped(1));
    assert_eq!(p.items()[1].count, 15);
    assert_eq!(p.carried(), 2);
    assert_eq!(p.add_pack(item(WEAPON, 1, 3, 6)), AddOutcome::Inserted(2));
    assert_eq!(p.add_pack(item(WEAPON, 1, 1, 0)), AddOutcome::Inserted(2));
}

#[test]
fn a_found_scare_scroll_turns_to_dust() {
    let mut p = Pack::new();
    let mut scroll = item(SCROLL, S_SCARE, 1, 0);
    scroll.flags = ISFOUND;
    assert_eq!(p.add_pack(scroll), AddOutcome::Dust);
    assert_eq!(p.items().len(), 0);
    scroll.flags = 0;
    assert_eq!(p.add_pack(scroll), AddOutcome::Started);
}

#[test]
fn a_full_pack_refuses_more() {
    let mut p = Pack::new();
    p.add_pack(item(FOOD, 0, 1, 0));
    for _ in 1..MAXPACK {
        assert!(matches!(p.add_pack(item(FOOD, 0, 1, 0)), AddOutcome::Stacked(0)));
    }
    assert_eq!(p.carried(), MAXPACK);
    assert_eq!(p.add_pack(item(FOOD, 0, 1, 0)), AddOutcome::NoRoom);
    assert_eq!(p.add_pack(item(RING, 1, 1, 0)), AddOutcome::NoRoom);
    assert_eq!(p.items().len(), 1);
    assert_eq!(p.carried(), MAXPACK);
}

#[test]
fn leaving_one_of_a_pile_splits_it() {
    let mut p = Pack::new();
    p.add_pack(item(POTION, 2, 1, 0));
    p.add_pack(item(POTION, 2, 1, 0));
    let (one, removed) = p.leave_pack(0, true, false);
    assert!(!removed);
    assert_eq!(one.count, 1);
    assert_eq!(p.items()[0].count, 1);
    assert_eq!(p.carried(), 1);
    let (last, removed) = p.leave_pack(0, true, false);
    assert!(removed);
    assert_eq!(last.letter, b'a');
    assert_eq!(p.items().len(), 0);
    assert_eq!(p.add_pack(item(RING, 1, 1, 0)), AddOutcome::Started);
    assert_eq!(p.items()[0].letter, b'a');
}

#[test]
fn inventory_lists_what_was_asked_for() {
    let mut p = Pack::new();
    p.add_pack(item(FOOD, 0, 1, 0));
    p.add_pack(item(RING, 1, 1, 0));
    p.add_pack(item(STICK, 2, 1, 0));
    p.add_pack(item(ARMOR, 3, 1, 0));
    assert_eq!(p.inventory(0), vec![0, 1, 2, 3]);
    assert_eq!(p.inventory(R_OR_S), vec![1, 2]);
    assert_eq!(p.inventory(CALLABLE), vec![1, 2, 3]);
    assert_eq!(p.inventory(ARMOR), vec![3]);
    assert_eq!(p.inventory(SCROLL), Vec::<usize>::new());
    assert_eq!(p.find_letter(b'c'), Some(2));
    assert_eq!(p.find_letter(b'z'), None);
}

#[test]
fn food_and_the_amulet_drop_all_at_once() {
    assert!(drop_all(FOOD));
    assert!(drop_all(AMULET));
    assert!(!drop_all(POTION));
    assert!(!drop_all(WEAPON));
    assert!(!drop_all(SCROLL));
}

#[test]
fn inventorying_one_item() {
    let mut p = Pack::new();
    assert_eq!(p.picky_start(), PickyStart::Empty);
    p.add_pack(item(FOOD, 0, 1, 0));
    assert_eq!(p.picky_start(), PickyStart::Single);
    p.add_pack(item(RING, 1, 1, 0));
    assert_eq!(p.picky_start(), PickyStart::Ask);
    assert_eq!(inventory_line(b'b', "A ruby ring"), "b) A ruby ring");
    assert_eq!(inventory_line(0, "A ruby ring"), "A ruby ring");
    assert_eq!(not_in_pack_message(b'q'), "'q' not in pack");
}

#[test]
fn taking_out_a_new_entry_undoes_picking_it_up() {
    let mut p = Pack::new();
    p.add_pack(item(POTION, 2, 1, 0));
    p.add_pack(item(SCROLL, 4, 1, 0));
    let before: Vec<PackItem> = p.items().clone();
    let carried = p.carried();
    let at = match p.add_pack(item(POTION, 3, 1, 0)) {
        AddOutcome::Inserted(i) => i,
        other => panic!("{:?}", other),
    };
    p.leave_pack(at, false, true);
    assert_eq!(p.items(), &before);
    assert_eq!(p.carried(), carried);
    assert_eq!(p.add_pack(item(RING, 1, 1, 0)), AddOutcome::Inserted(2));
    assert_eq!(p.items()[2].letter, b'c');
}

#[test]
fn choosing_an_item_asks_and_complains() {
    assert_eq!(get_item_prompt("quaff", false), "which object do you want to quaff? (* for list): ");
    assert_eq!(get_item_prompt("quaff", true), "quaff what? (* for list): ");
    assert_eq!(invalid_item_message(b'#'), "'#' is not a valid item");
    assert_eq!(empty_inventory_message(0, false), "you are empty handed");
    assert_eq!(empty_inventory_message(POTION, true), "nothing appropriate");
    assert_eq!(no_room_message(false), "there's no room in your pack");
    assert_eq!(no_room_message(true), "no room");
}

#[test]
fn magic_items_are_the_enchanted_and_the_mysterious() {
    assert!(is_magic(ARMOR, 0o40, 0, 0, 0));
    assert!(is_magic(ARMOR, 0, 3, 0, 0));
    assert!(!is_magic(ARMOR, 0, 0, 0, 0));
    assert!(is_magic(WEAPON, 0, 0, 1, 0));
    assert!(!is_magic(WEAPON, 0, 0, 0, 0));
    assert!(is_magic(POTION, 0, 0, 0, 0));
    assert!(is_magic(AMULET, 0, 0, 0, 0));
    assert!(!is_magic(FOOD, 0, 0, 0, 0));
    assert!(!is_magic(GOLD, 0, 0, 0, 0));
}
