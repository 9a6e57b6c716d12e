use twisted_fish::gfx::card_face::card_label_lines;
use twisted_fish::gfx::Commands;
use twisted_fish::models::{fish_card, Rank, Suit, DIVINE_INTERVENTION};
use twisted_fish::platform_types::unscaled::{X, XY, Y};

#[test]
fn a_fish_card_is_labelled_with_its_suit_and_rank() {
    let (first, second) = card_label_lines(fish_card(Rank::Crab, Suit::Red));
    assert_eq!(first.as_slice(), b"Red       ".as_slice());
    assert_eq!(second.as_slice(), b"Crab      ".as_slice());
    let (first, second) = card_label_lines(fish_card(Rank::CardShark, Suit::Purple));
    assert_eq!(first.as_slice(), b"Purple    ".as_slice());
    assert_eq!(second.as_slice(), b"Card Shark".as_slice());
}

#[test]
fn flying_fish_and_zingers_have_labels_of_their_own() {
    let (first, second) = card_label_lines(fish_card(Rank::FlyingFish, Suit::Green));
    assert_eq!(first.as_slice(), b"Green Fly-".as_slice());
    assert_eq!(second.as_slice(), b"ing fish  ".as_slice());
    let (first, second) = card_label_lines(DIVINE_INTERVENTION);
    assert_eq!(first.as_slice(), b"Divine In-".as_slice());
    assert_eq!(second.as_slice(), b"tervention".as_slice());
}

#[test]
fn a_card_face_starts_with_its_backing_and_picture() {
    let mut commands = Commands::default();
    commands.draw_card(fish_card(Rank::Eel, Suit::Blue), XY { x: X(10), y: Y(20) });
    let drawn = commands.slice();
    assert!(drawn.len() > 2);
    assert_eq!(drawn[0].sprite_xy.x.0, 432);
    assert_eq!(drawn[0].sprite_xy.y.0, 2 * 105);
    assert_eq!(drawn[1].sprite_xy.x.0, 2 * 72);
    assert_eq!(drawn[1].sprite_xy.y.0, 3 * 72);
}

#[test]
fn label_lines_leave_a_missing_suit_or_rank_blank() {
    let (first, second) = Commands::label_lines_for(Some(Suit::Blue), Some(Rank::Jellyfish));
    assert_eq!(first.as_slice(), b"Blue      ".as_slice());
    assert_eq!(second.as_slice(), b"Jellyfish ".as_slice());
    let (first, second) = Commands::label_lines_for(None, Some(Rank::Eel));
    assert_eq!(first.as_slice(), b"          ".as_slice());
    assert_eq!(second.as_slice(), b"Eel       ".as_slice());
    let (first, second) = Commands::label_lines_for(Some(Suit::Purple), None);
    assert_eq!(first.as_slice(), b"Purple    ".as_slice());
    assert_eq!(second.as_slice(), b"          ".as_slice());
    let (first, second) = Commands::label_lines_for(None, None);
    assert_eq!(first.as_slice(), b"line 1 ???".as_slice());
    assert_eq!(second.as_slice(), b"line 2 ???".as_slice());
}
