use twisted_fish::platform_types::command::{Rect, X, Y};
use twisted_fish::platform_types::unscaled;
use twisted_fish::platform_types::{Button, Input, Speaker, SFX};

#[test]
fn from_unscaled_then_unscaled_is_identity_on_this_example() {
    let expected = Rect {
        x_min: X::clipped_inner(2),
        y_min: Y::clipped_inner(3),
        x_max: X::clipped_inner(5),
        y_max: Y::clipped_inner(7),
    };

    let actual = Rect::from_unscaled(expected.unscaled());

    assert_eq!(expected, actual);
}

#[test]
fn unscaled_then_from_unscaled_is_identity_on_this_example() {
    let expected = unscaled::Rect {
        x: unscaled::X(7),
        y: unscaled::Y(5),
        w: unscaled::W(3),
        h: unscaled::H(2),
    };

    let actual = Rect::from_unscaled(expected).unscaled();

    assert_eq!(expected, actual);
}

#[test]
fn clipping_keeps_coordinates_on_screen() {
    assert_eq!(X::clipped_inner(1000).get(), X::clipped_inner(479).get());
    assert_eq!(X::clipped_inner(10).get(), unscaled::X(10));
}

#[test]
fn a_button_is_pressed_only_on_the_frame_it_goes_down() {
    let mut input = Input::default();
    input.gamepad.insert(Button::A());
    assert!(input.pressed_this_frame(Button::A()));
    input.previous_gamepad.insert(Button::A());
    assert!(!input.pressed_this_frame(Button::A()));
    input.gamepad.remove(Button::A());
    assert!(input.released_this_frame(Button::A()));
}

#[test]
fn the_speaker_keeps_requests_in_order() {
    let mut speaker = Speaker::default();
    speaker.request_sfx(SFX::CardPlace);
    speaker.request_sfx(SFX::ButtonPress);
    assert_eq!(speaker.slice(), &[SFX::CardPlace, SFX::ButtonPress]);
    speaker.clear();
    assert!(speaker.slice().is_empty());
}
