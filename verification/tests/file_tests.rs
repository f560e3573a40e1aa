use ted_core::file::File;
use ted_core::unicode::UnicodeString;

fn buffer_with(lines: &[&str], cursor: (usize, usize)) -> File {
    let mut v: Vec<UnicodeString> = Vec::new();
    for l in lines {
        v.push(UnicodeString::from(l));
    }
    File { path: UnicodeString::new(), lines: v, local_cursor: cursor, viewport_offset: (0, 0) }
}

#[test]
fn typing_into_empty_buffer() {
    let mut f = File::new();
    f.write_character('a');
    f.write_character('b');
    f.write_character('c');
    assert_eq!(f.to_string(), "abc");
    assert_eq!(f.local_cursor, (3, 0));
}

#[test]
fn backspace_at_line_start_joins_lines() {
    let mut f = buffer_with(&["ab", "cd"], (0, 1));
    f.remove_character_before();
    assert_eq!(f.to_string(), "abcd");
    assert_eq!(f.local_cursor, (2, 0));
}

#[test]
fn enter_splits_line_at_cursor() {
    let mut f = buffer_with(&["abcd"], (2, 0));
    f.break_line();
    assert_eq!(f.to_string(), "ab\ncd");
    assert_eq!(f.local_cursor, (0, 1));
}

#[test]
fn backspace_mid_line_removes_before_cursor() {
    let mut f = buffer_with(&["abcd"], (2, 0));
    f.remove_character_before();
    assert_eq!(f.to_string(), "acd");
    assert_eq!(f.local_cursor, (1, 0));
}

#[test]
fn backspace_at_origin_is_a_no_op() {
    let mut f = buffer_with(&["ab"], (0, 0));
    f.remove_character_before();
    assert_eq!(f.to_string(), "ab");
    assert_eq!(f.local_cursor, (0, 0));
}

#[test]
fn delete_removes_under_cursor() {
    let mut f = buffer_with(&["abcd"], (1, 0));
    f.remove_character_after();
    assert_eq!(f.to_string(), "acd");
    assert_eq!(f.local_cursor, (1, 0));
}

#[test]
fn delete_at_line_end_joins_next_line() {
    let mut f = buffer_with(&["ab", "cd"], (2, 0));
    f.remove_character_after();
    assert_eq!(f.to_string(), "abcd");
    assert_eq!(f.local_cursor, (2, 0));
}

#[test]
fn delete_at_buffer_end_is_a_no_op() {
    let mut f = buffer_with(&["ab"], (2, 0));
    f.remove_character_after();
    assert_eq!(f.to_string(), "ab");
}

#[test]
fn vertical_motion_keeps_intended_column() {
    let mut f = buffer_with(&["abcd", "x", "efgh"], (3, 0));
    f.move_cursor_down();
    assert_eq!(f.local_cursor, (3, 1));
    f.move_cursor_down();
    assert_eq!(f.local_cursor, (3, 2));
    f.move_cursor_up();
    f.move_cursor_up();
    assert_eq!(f.local_cursor, (3, 0));
}

#[test]
fn horizontal_motion_clamps_first() {
    let mut f = buffer_with(&["abcd", "x"], (3, 1));
    f.move_cursor_left();
    assert_eq!(f.local_cursor, (0, 1));
    let mut g = buffer_with(&["abcd", "x"], (3, 1));
    g.move_cursor_right();
    assert_eq!(g.local_cursor, (1, 1));
}

#[test]
fn home_and_end_jump_within_line() {
    let mut f = buffer_with(&["abcd", "xy"], (2, 0));
    f.move_cursor_line_start();
    assert_eq!(f.local_cursor, (0, 0));
    f.move_cursor_line_end();
    assert_eq!(f.local_cursor, (4, 0));
    f.move_cursor_down();
    f.move_cursor_line_end();
    assert_eq!(f.local_cursor, (2, 1));
    f.move_cursor_line_start();
    assert_eq!(f.local_cursor, (0, 1));
}

#[test]
fn motion_stops_at_edges() {
    let mut f = buffer_with(&["ab"], (0, 0));
    f.move_cursor_up();
    f.move_cursor_left();
    assert_eq!(f.local_cursor, (0, 0));
    f.move_cursor_down();
    assert_eq!(f.local_cursor, (0, 0));
    f.move_cursor_right();
    f.move_cursor_right();
    f.move_cursor_right();
    assert_eq!(f.local_cursor, (2, 0));
}

#[test]
fn writing_past_short_line_clamps_column() {
    let mut f = buffer_with(&["abcd", "x"], (4, 0));
    f.move_cursor_down();
    f.write_character('y');
    assert_eq!(f.to_string(), "abcd\nxy");
    assert_eq!(f.local_cursor, (2, 1));
}

#[test]
fn serialize_keeps_trailing_empty_line() {
    let f = buffer_with(&["ab", ""], (0, 0));
    assert_eq!(f.to_string(), "ab\n");
}

#[test]
fn serialize_then_resplit_reproduces_lines() {
    let lines = ["alpha", "", "béta", "g"];
    let f = buffer_with(&lines, (0, 0));
    let text = f.to_string();
    let back: Vec<&str> = text.split('\n').collect();
    assert_eq!(back, lines);
}

#[test]
fn serialize_multibyte_lines() {
    let f = buffer_with(&["åö", "xß"], (0, 0));
    assert_eq!(f.to_string(), "åö\nxß");
}

#[test]
fn viewport_scrolls_forward_by_exact_overflow() {
    let mut f = buffer_with(&["0123456789"], (9, 0));
    f.adjust_viewport(4, 3);
    assert_eq!(f.viewport_offset, (6, 0));
    assert!(f.viewport_offset.0 <= f.local_cursor.0);
    assert!(f.local_cursor.0 <= f.viewport_offset.0 + 3);
}

#[test]
fn viewport_scrolls_back_to_cursor() {
    let mut f = buffer_with(&["0123456789"], (1, 0));
    f.viewport_offset = (5, 0);
    f.adjust_viewport(4, 3);
    assert_eq!(f.viewport_offset, (1, 0));
}

#[test]
fn viewport_in_range_is_kept() {
    let mut f = buffer_with(&["0123456789"], (6, 0));
    f.viewport_offset = (5, 0);
    f.adjust_viewport(4, 3);
    assert_eq!(f.viewport_offset, (5, 0));
}

#[test]
fn viewport_tracks_rows() {
    let mut f = buffer_with(&["a", "b", "c", "d", "e"], (0, 4));
    f.adjust_viewport(10, 2);
    assert_eq!(f.viewport_offset, (0, 3));
}

#[test]
fn global_cursor_is_origin_plus_clamped_distance() {
    let mut f = buffer_with(&["ab", "wxyz"], (4, 1));
    f.adjust_viewport(3, 2);
    let pos = f.global_cursor(1, 1);
    assert_eq!(pos, (3, 2));
    f.move_cursor_up();
    let pos2 = f.global_cursor(1, 1);
    assert_eq!(pos2.0, 1);
}

#[test]
fn visible_lines_slice_the_viewport() {
    let mut f = buffer_with(&["0123456789", "ab", "cdefgh", "ij"], (0, 0));
    f.viewport_offset = (3, 1);
    let spans = f.visible_lines(2);
    assert_eq!(spans.len(), 2);
    assert_eq!(spans[0], "");
    assert_eq!(spans[1], "fgh");
}

#[test]
fn visible_lines_stop_at_last_line() {
    let f = buffer_with(&["a", "b"], (0, 0));
    let spans = f.visible_lines(5);
    assert_eq!(spans.len(), 2);
    assert_eq!(spans[0], "a");
    assert_eq!(spans[1], "b");
}
