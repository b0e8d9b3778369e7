use rogue::options::GameOptions;

#[test]
fn options_start_with_the_game_defaults() {
    let o = GameOptions::new();
    assert!(!o.terse && !o.flush && !o.jump && o.see_floor && !o.passgo && o.tombstone);
    assert_eq!(o.inv_type, 0);
    assert_eq!(o.fruit, b"slime-mold".to_vec());
    assert!(o.name.is_empty() && o.file_name.is_empty());
}

#[test]
fn switches_and_texts_are_read() {
    let mut o = GameOptions::new();
    o.parse_opts(b"terse,name=Rodney, jump,passgo", b"/home/r");
    assert!(o.terse && o.jump && o.passgo);
    assert_eq!(o.name, b"Rodney".to_vec());
}

#[test]
fn tilde_value_starts_with_home() {
    let mut o = GameOptions::new();
    o.parse_opts(b"file=~/rogue.save", b"/home/r");
    assert_eq!(o.file_name, b"/home/r~/rogue.save".to_vec());
}

#[test]
fn inventory_style_by_prefix() {
    let mut o = GameOptions::new();
    o.parse_opts(b"inven=slow", b"");
    assert_eq!(o.inv_type, 1);
    o.parse_opts(b"inven=C", b"");
    assert_eq!(o.inv_type, 2);
    o.parse_opts(b"inven=over", b"");
    assert_eq!(o.inv_type, 0);
    o.inv_type = 2;
    o.parse_opts(b"inven=xyz", b"");
    assert_eq!(o.inv_type, 2);
}

#[test]
fn unknown_option_ends_reading() {
    let mut o = GameOptions::new();
    o.parse_opts(b"bogus,terse", b"");
    assert!(!o.terse);
}

#[test]
fn empty_text_value_changes_nothing_and_long_ones_are_cut() {
    let mut o = GameOptions::new();
    o.parse_opts(b"fruit=,name=abc\x01def", b"");
    assert_eq!(o.fruit, b"slime-mold".to_vec());
    assert_eq!(o.name, b"abcdef".to_vec());
    let long = format!("name={}", "x".repeat(70));
    o.parse_opts(long.as_bytes(), b"");
    assert_eq!(o.name.len(), 50);
}

use rogue::ui::prompt::{style_key, switch_key, ChoiceKey, LineInput, PromptEnd};

#[test]
fn switch_and_style_prompts() {
    assert_eq!(switch_key(b'T' as i32), ChoiceKey::Chose(1));
    assert_eq!(switch_key(b'f' as i32), ChoiceKey::Chose(0));
    assert_eq!(switch_key(13), ChoiceKey::End(PromptEnd::Normal));
    assert_eq!(switch_key(27), ChoiceKey::End(PromptEnd::Quit));
    assert_eq!(switch_key(b'-' as i32), ChoiceKey::End(PromptEnd::Back));
    assert_eq!(switch_key(b'x' as i32), ChoiceKey::Retry);
    assert_eq!(style_key(b'S' as i32), ChoiceKey::Chose(1));
    assert_eq!(style_key(b'c' as i32), ChoiceKey::Chose(2));
    assert_eq!(style_key(b'z' as i32), ChoiceKey::Retry);
}

#[test]
fn line_prompt_edits() {
    let mut l = LineInput::new();
    for &c in b"rodnex" {
        assert_eq!(l.key(c as i32, 0x7f, 0x15), None);
    }
    l.key(0x7f, 0x7f, 0x15);
    l.key(b'y' as i32, 0x7f, 0x15);
    l.key(1, 0x7f, 0x15);
    assert_eq!(l.value(), Some(b"rodney".to_vec()));
    l.key(0x15, 0x7f, 0x15);
    assert_eq!(l.value(), None);
    for _ in 0..60 {
        l.key(b'a' as i32, 0x7f, 0x15);
    }
    assert_eq!(l.value().unwrap().len(), 50);
    assert_eq!(l.key(27, 0x7f, 0x15), Some(PromptEnd::Quit));
}

#[test]
fn the_options_screen_shows_each_option() {
    let o = GameOptions::new();
    assert_eq!(o.option_line(0), b"Terse output (\"terse\"): False".to_vec());
    assert_eq!(o.option_line(3), b"Show the lamp-illuminated floor (\"seefloor\"): True".to_vec());
    assert_eq!(o.option_line(6), b"Inventory style (\"inven\"): Overwrite".to_vec());
    assert_eq!(o.option_line(7), b"Name (\"name\"): ".to_vec());
    assert_eq!(o.option_line(8), b"Fruit (\"fruit\"): slime-mold".to_vec());
    let mut odd = GameOptions::new();
    odd.inv_type = 7;
    assert_eq!(odd.option_line(6), b"Inventory style (\"inven\"): ".to_vec());
}
