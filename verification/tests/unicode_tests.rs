use ted_core::unicode::UnicodeString;

#[test]
fn new_is_empty() {
    let u = UnicodeString::new();
    assert_eq!(u.length(), 0);
    assert_eq!(u.as_str(), "");
}

#[test]
fn from_counts_codepoints_not_bytes() {
    let u = UnicodeString::from("åö");
    assert_eq!(u.length(), 2);
    assert_eq!(u.as_str(), "åö");
    assert_eq!(u.as_str().len(), 4);
}

#[test]
fn push_appends_codepoints() {
    let mut u = UnicodeString::new();
    u.push('a');
    u.push('ß');
    u.push('c');
    assert_eq!(u.as_str(), "aßc");
    assert_eq!(u.length(), 3);
}

#[test]
fn push_str_appends_each_codepoint() {
    let mut u = UnicodeString::from("ab");
    u.push_str("ćd");
    assert_eq!(u.as_str(), "abćd");
    assert_eq!(u.length(), 4);
}

#[test]
fn insert_at_length_behaves_as_push() {
    let mut u = UnicodeString::from("ab");
    u.insert(2, 'c');
    assert_eq!(u.as_str(), "abc");
}

#[test]
fn insert_shifts_offsets_by_inserted_width() {
    let mut u = UnicodeString::from("åö");
    u.insert(1, 'ä');
    assert_eq!(u.as_str(), "åäö");
    assert_eq!(u.length(), 3);
    assert_eq!(u.offset_at(0), 0);
    assert_eq!(u.offset_at(1), "å".len());
    assert_eq!(u.offset_at(2), "åä".len());
}

#[test]
fn remove_mixed_width_codepoint() {
    let mut u = UnicodeString::from("aßc");
    u.remove(1);
    assert_eq!(u.as_str(), "ac");
    assert_eq!(u.length(), 2);
    assert_eq!(u.offset_at(1), 1);
}

#[test]
fn insert_then_remove_restores_content() {
    let mut u = UnicodeString::from("abc");
    u.insert(1, 'x');
    assert_eq!(u.as_str(), "axbc");
    u.remove(1);
    assert_eq!(u.as_str(), "abc");
    assert_eq!(u.length(), 3);
}

#[test]
fn drain_empty_range_is_identity() {
    let mut u = UnicodeString::from("hello");
    let removed = u.drain(2, 2);
    assert_eq!(removed, "");
    assert_eq!(u.as_str(), "hello");
    assert_eq!(u.length(), 5);
}

#[test]
fn drain_returns_span_and_shifts_offsets() {
    let mut u = UnicodeString::from("håller");
    let removed = u.drain(1, 3);
    assert_eq!(removed, "ål");
    assert_eq!(u.as_str(), "hler");
    assert_eq!(u.length(), 4);
    assert_eq!(u.offset_at(0), 0);
    assert_eq!(u.offset_at(1), 1);
    assert_eq!(u.offset_at(2), 2);
    assert_eq!(u.offset_at(3), 3);
}

#[test]
fn drain_to_end() {
    let mut u = UnicodeString::from("abcd");
    let removed = u.drain(1, 4);
    assert_eq!(removed, "bcd");
    assert_eq!(u.as_str(), "a");
}

#[test]
fn suffix_from_slices_at_codepoint_boundary() {
    let u = UnicodeString::from("åäö");
    assert_eq!(u.suffix_from(0), "åäö");
    assert_eq!(u.suffix_from(1), "äö");
    assert_eq!(u.suffix_from(3), "");
}

#[test]
fn char_at_reads_codepoints() {
    let u = UnicodeString::from("aßc");
    assert_eq!(u.char_at(0), 'a');
    assert_eq!(u.char_at(1), 'ß');
    assert_eq!(u.char_at(2), 'c');
}

#[test]
fn clone_copies_content_and_offsets() {
    let u = UnicodeString::from("åö");
    let v = u.clone();
    assert_eq!(v.as_str(), "åö");
    assert_eq!(v.length(), 2);
    assert_eq!(v.offset_at(1), 2);
}

#[test]
fn offsets_track_four_byte_codepoints() {
    let mut u = UnicodeString::from("a𝄞b");
    assert_eq!(u.offset_at(0), 0);
    assert_eq!(u.offset_at(1), 1);
    assert_eq!(u.offset_at(2), 5);
    u.remove(1);
    assert_eq!(u.as_str(), "ab");
    assert_eq!(u.offset_at(1), 1);
}
