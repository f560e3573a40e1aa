use ted_core::prompt::Prompt;
use ted_core::unicode::UnicodeString;

#[test]
fn new_prompt_is_empty() {
    let p = Prompt::new("Enter file path");
    assert_eq!(p.get_answer().as_str(), "");
    assert_eq!(p.local_cursor, 0);
    assert_eq!(p.viewport_offset, 0);
}

#[test]
fn set_answer_replaces_and_clamps_cursor() {
    let mut p = Prompt::new("Enter file path");
    for ch in "longname".chars() {
        p.write_character(ch);
    }
    assert_eq!(p.local_cursor, 8);
    let short = UnicodeString::from("ab");
    p.set_answer(&short);
    assert_eq!(p.get_answer().as_str(), "ab");
    assert_eq!(p.local_cursor, 2);
}

#[test]
fn editing_the_answer() {
    let mut p = Prompt::new("q");
    p.write_character('a');
    p.write_character('c');
    p.move_cursor_left();
    p.write_character('b');
    assert_eq!(p.get_answer().as_str(), "abc");
    p.remove_character_before();
    assert_eq!(p.get_answer().as_str(), "ac");
    p.remove_character_after();
    assert_eq!(p.get_answer().as_str(), "a");
    p.remove_character_after();
    assert_eq!(p.get_answer().as_str(), "a");
}

#[test]
fn cursor_motion_stops_at_both_ends() {
    let mut p = Prompt::new("q");
    p.write_character('a');
    p.move_cursor_left();
    p.move_cursor_left();
    assert_eq!(p.local_cursor, 0);
    p.move_cursor_right();
    p.move_cursor_right();
    assert_eq!(p.local_cursor, 1);
}

#[test]
fn viewport_follows_the_cursor() {
    let mut p = Prompt::new("q");
    for ch in "0123456789".chars() {
        p.write_character(ch);
    }
    p.adjust_viewport(4);
    assert_eq!(p.viewport_offset, 7);
    p.local_cursor = 2;
    p.adjust_viewport(4);
    assert_eq!(p.viewport_offset, 2);
}

#[test]
fn global_cursor_accounts_for_label() {
    let mut p = Prompt::new("path");
    p.write_character('a');
    p.adjust_viewport(10);
    let pos = p.global_cursor(3, 7);
    // origin + (cursor - offset) + label width + two separator cells
    assert_eq!(pos, (3 + 1 + 4 + 2, 7));
}

#[test]
fn visible_answer_is_the_viewport_suffix() {
    let mut p = Prompt::new("q");
    for ch in "abcdef".chars() {
        p.write_character(ch);
    }
    p.adjust_viewport(3);
    assert_eq!(p.visible_answer(), "ef");
    p.viewport_offset = 0;
    assert_eq!(p.visible_answer(), "abcdef");
}

#[test]
fn multibyte_answer_editing() {
    let mut p = Prompt::new("q");
    p.write_character('å');
    p.write_character('ö');
    p.move_cursor_left();
    p.remove_character_before();
    assert_eq!(p.get_answer().as_str(), "ö");
}
