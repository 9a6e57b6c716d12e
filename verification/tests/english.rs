use twisted_fish::english::{get_sentence_list, map_sentence_list, ordinal_display};

#[test]
fn a_sentence_list_of_nothing_is_empty() {
    assert_eq!(get_sentence_list(&[]), "");
}

#[test]
fn a_sentence_list_of_one_is_that_one() {
    assert_eq!(get_sentence_list(&["a Crab"]), "a Crab");
}

#[test]
fn a_sentence_list_of_two_has_a_comma_and_an_and() {
    assert_eq!(get_sentence_list(&["a Crab", "an Eel"]), "a Crab, and an Eel");
}

#[test]
fn a_sentence_list_of_three_uses_a_serial_comma() {
    assert_eq!(get_sentence_list(&["red", "green", "blue"]), "red, green, and blue");
}

#[test]
fn map_sentence_list_maps_each_element_first() {
    let text = map_sentence_list(&[1u8, 2, 3], |n: &u8| ordinal_display(*n));
    assert_eq!(text, "1st, 2nd, and 3rd");
}

#[test]
fn map_sentence_list_of_nothing_is_empty() {
    let empty: [u8; 0] = [];
    assert_eq!(map_sentence_list(&empty, |n: &u8| ordinal_display(*n)), "");
}

#[test]
fn ordinals_take_the_suffix_of_their_last_digit() {
    assert_eq!(ordinal_display(0), "0th");
    assert_eq!(ordinal_display(1), "1st");
    assert_eq!(ordinal_display(2), "2nd");
    assert_eq!(ordinal_display(3), "3rd");
    assert_eq!(ordinal_display(4), "4th");
    assert_eq!(ordinal_display(21), "21st");
    assert_eq!(ordinal_display(102), "102nd");
    assert_eq!(ordinal_display(255), "255th");
}

#[test]
fn the_teens_all_end_in_th() {
    assert_eq!(ordinal_display(11), "11th");
    assert_eq!(ordinal_display(12), "12th");
    assert_eq!(ordinal_display(13), "13th");
    assert_eq!(ordinal_display(111), "111th");
    assert_eq!(ordinal_display(112), "112th");
    assert_eq!(ordinal_display(213), "213th");
}
