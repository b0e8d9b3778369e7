use rogue::help::{count_listed, help_cell, help_entries, help_for, help_rows};

#[test]
fn help_names_every_command() {
    let v = help_entries();
    assert_eq!(v.len(), 65);
    let i = help_for(&v, b'?').unwrap();
    assert_eq!(v[i].text, "\tprints help");
    let q = help_for(&v, b'Q').unwrap();
    assert_eq!(v[q].text, "\tquit");
    assert_eq!(help_for(&v, b'X'), None);
    let f = help_for(&v, b'f').unwrap();
    assert_eq!(v[f].text, "<dir>\tfight till death or near death");
    assert_eq!(help_for(&v, 0), Some(26));
}

#[test]
fn the_full_list_fills_two_columns() {
    let v = help_entries();
    assert_eq!(count_listed(&v), 49);
    assert_eq!(help_rows(49, 24), 23);
    assert_eq!(help_rows(10, 24), 5);
    assert_eq!(help_rows(9, 24), 5);
    assert_eq!(help_cell(3, 5, 80), (3, 0));
    assert_eq!(help_cell(7, 5, 80), (2, 40));
}
