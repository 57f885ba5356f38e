use scratchbar::strs::{
    chars_of, dec_string, is_text, join_from, joined, lines_of, padded_left, padded_right,
    push_dec_signed, push_without_controls, with_number,
};

fn signed(n: i64) -> String {
    let mut out = String::new();
    push_dec_signed(&mut out, n);
    out
}

fn strings(list: &[&str]) -> Vec<String> {
    list.iter().map(|s| s.to_string()).collect()
}

#[test]
fn numbers_in_decimal() {
    for n in [0, 1, 9, 10, 99, 100, 12345, u64::MAX] {
        assert_eq!(dec_string(n), n.to_string());
    }
    assert_eq!(with_number("lines=", 7), "lines=7");
}

#[test]
fn signed_numbers_in_decimal() {
    for n in [0, 5, -5, i64::MAX, i64::MIN] {
        assert_eq!(signed(n), n.to_string());
    }
}

#[test]
fn padding_counts_characters() {
    assert_eq!(padded_left("7", 3), "  7");
    assert_eq!(padded_left("1234", 3), "1234");
    assert_eq!(padded_right("±1.5W", 6), "±1.5W ");
    assert_eq!(padded_right("-12.5W", 6), "-12.5W");
}

#[test]
fn lines_like_the_standard_library() {
    for text in ["", "a", "a\n", "a\nb", "a\r\nb\r\n", "\n\n", "a\r", "x\r\ny\r", "ä\nö"] {
        let expected: Vec<String> = text.lines().map(str::to_owned).collect();
        assert_eq!(lines_of(text), expected, "{text:?}");
    }
}

#[test]
fn joining_from_a_place() {
    let parts = strings(&["a", "b", "c"]);
    assert_eq!(join_from(&parts, 0, "\n"), "a\nb\nc");
    assert_eq!(join_from(&parts, 1, "\n"), "b\nc");
    assert_eq!(join_from(&parts, 3, "\n"), "");
    assert_eq!(joined("ab", "cd"), "abcd");
}

#[test]
fn control_characters_are_dropped() {
    let mut out = String::from("[");
    push_without_controls(&mut out, "a\x1b]0;b\x07\n\u{7f}ä");
    assert_eq!(out, "[a]0;bä");
}

#[test]
fn characters_one_by_one() {
    assert_eq!(chars_of("aß€"), vec!['a', 'ß', '€']);
    assert!(is_text(&"abc".to_owned(), "abc"));
    assert!(!is_text(&"abc".to_owned(), "abcd"));
}
