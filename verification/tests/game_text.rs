use twisted_fish::game::text::{bytes_next_word, bytes_reflow_in_place, is_byte_whitespace};

#[test]
fn bytes_reflow_in_place_reflows_this_found_example() {
    let initial = b"You asked for the Red Shrimp but you didn't get it.";
    assert_eq!(initial.len(), 51);
    let mut actual = initial.to_vec();

    bytes_reflow_in_place(&mut actual, 30);

    assert_eq!(&actual, b"You asked for the Red Shrimp\nbut you didn't get it.");
}

#[test]
fn game_bytes_reflow_in_place_reflows_this_found_example() {
    let initial = b"You asked for the Red Shrimp but you didn't get it.";
    assert_eq!(initial.len(), 51);
    let mut actual = initial.to_vec();

    bytes_reflow_in_place(&mut actual, 30);

    assert_eq!(&actual, b"You asked for the Red Shrimp\nbut you didn't get it.");
}

#[test]
fn bytes_next_word_works_on_this_found_example() {
    let bytes = b"You asked for the Red Shrimp but you didn't get it.";
    let expected = [Some((0, 3)), Some((4, 5)), Some((10, 3)), Some((14, 3))];
    let mut i = 0;

    for e in expected {
        assert_eq!(bytes_next_word(bytes, &mut i), e);
    }
}

#[test]
fn game_bytes_next_word_works_on_this_found_example() {
    let bytes = b"You asked for the Red Shrimp but you didn't get it.";
    let expected = [Some((0, 3)), Some((4, 5)), Some((10, 3)), Some((14, 3))];
    let mut i = 0;

    for e in expected {
        assert_eq!(bytes_next_word(bytes, &mut i), e);
    }
}

#[test]
fn bytes_next_word_returns_none_past_the_last_word() {
    let bytes = b"  one  ";
    let mut i = 0;
    assert_eq!(bytes_next_word(bytes, &mut i), Some((2, 3)));
    assert_eq!(bytes_next_word(bytes, &mut i), None);
}

#[test]
fn whitespace_is_space_tab_and_newline_like_bytes() {
    assert!(is_byte_whitespace(b' '));
    assert!(is_byte_whitespace(b'\n'));
    assert!(is_byte_whitespace(b'\t'));
    assert!(!is_byte_whitespace(b'a'));
}

#[test]
fn reflow_leaves_short_text_alone() {
    let mut actual = b"short text".to_vec();
    bytes_reflow_in_place(&mut actual, 30);
    assert_eq!(&actual, b"short text");
}

#[test]
fn reflow_breaks_every_line_that_is_too_long() {
    let mut actual = b"aaa bbb ccc".to_vec();
    bytes_reflow_in_place(&mut actual, 4);
    assert_eq!(&actual, b"aaa\nbbb\nccc");
}

#[test]
fn reflowing_twice_gives_what_reflowing_once_gives() {
    let mut once = b"You asked for the Red Shrimp but you didn't get it.".to_vec();
    bytes_reflow_in_place(&mut once, 20);
    let mut twice = once.clone();
    bytes_reflow_in_place(&mut twice, 20);
    assert_eq!(once, twice);
}

#[test]
fn the_accented_letters_are_not_whitespace() {
    assert!(!is_byte_whitespace(0xE9));
    assert!(!is_byte_whitespace(0xED));
    assert!(is_byte_whitespace(0xFF));
    assert!(is_byte_whitespace(0x7F));
    let mut actual = b"caf\xE9 ol\xE9".to_vec();
    bytes_reflow_in_place(&mut actual, 5);
    assert_eq!(&actual, b"caf\xE9\nol\xE9");
}
