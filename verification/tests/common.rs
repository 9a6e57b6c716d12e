use twisted_fish::common::{
    card, get_char_xy, get_rank, get_rank_char, get_rank_char_from_rank, get_suit,
    get_suit_colour_and_char, suits, Command, Commands, Kind, Rect, BLACK_INDEX, CLUB_CHAR,
    FONT_FLIP, FONT_SIZE, HEART_CHAR, PURPLE_INDEX, RED_INDEX, TEN_CHAR,
};

#[test]
fn cards_are_numbered_by_suit_then_rank() {
    assert_eq!(get_suit(0), suits::CLUBS);
    assert_eq!(get_rank(0), 0);
    assert_eq!(get_suit(14), suits::DIAMONDS);
    assert_eq!(get_rank(14), 1);
    assert_eq!(get_suit(51), suits::SPADES);
    assert_eq!(get_rank(51), 12);
}

#[test]
fn suits_have_their_colours_and_characters() {
    assert_eq!(get_suit_colour_and_char(suits::CLUBS), (BLACK_INDEX, CLUB_CHAR));
    assert_eq!(get_suit_colour_and_char(suits::HEARTS), (RED_INDEX, HEART_CHAR));
    assert_eq!(get_suit_colour_and_char(4), (PURPLE_INDEX, b'!'));
}

#[test]
fn ranks_have_their_characters() {
    assert_eq!(get_rank_char_from_rank(0), b'a');
    assert_eq!(get_rank_char_from_rank(1), b'2');
    assert_eq!(get_rank_char_from_rank(8), b'9');
    assert_eq!(get_rank_char_from_rank(9), TEN_CHAR);
    assert_eq!(get_rank_char_from_rank(10), b'j');
    assert_eq!(get_rank_char_from_rank(11), b'q');
    assert_eq!(get_rank_char_from_rank(12), b'k');
    assert_eq!(get_rank_char_from_rank(13), b'!');
    assert_eq!(get_rank_char(13 + 12), b'k');
}

#[test]
fn characters_sit_ten_to_a_row_of_the_font() {
    assert_eq!(get_char_xy(0), (0, 0));
    assert_eq!(get_char_xy(9), (72, 0));
    assert_eq!(get_char_xy(10), (0, 8));
    assert_eq!(get_char_xy(b'a'), (56, 72));
}

#[test]
fn a_card_is_drawn_as_its_front_and_four_characters() {
    let mut commands = Commands::default();
    commands.draw_card(13 + 9, 10, 20);
    let colour = RED_INDEX;
    let char_rect = |x: u8, y: u8| Rect { x, y, w: FONT_SIZE, h: FONT_SIZE };
    let font = |c: u8, x: u8, y: u8| Command {
        kind: Kind::Font(get_char_xy(c), colour),
        rect: char_rect(x, y),
    };
    let diamond = 29;
    assert_eq!(
        commands.slice(),
        &[
            Command {
                kind: Kind::Gfx((card::FRONT_SPRITE_X, card::FRONT_SPRITE_Y)),
                rect: Rect { x: 10, y: 20, w: card::WIDTH, h: card::HEIGHT },
            },
            font(TEN_CHAR, 13, 23),
            font(diamond, 11, 30),
            font(TEN_CHAR | FONT_FLIP, 19, 39),
            font(diamond | FONT_FLIP, 21, 32),
        ]
    );
    commands.clear();
    assert!(commands.slice().is_empty());
}

#[test]
fn sspr_draws_one_sprite() {
    let mut commands = Commands::default();
    commands.sspr(1, 2, 3, 4, 5, 6);
    assert_eq!(
        commands.slice(),
        &[Command { kind: Kind::Gfx((1, 2)), rect: Rect { x: 5, y: 6, w: 3, h: 4 } }]
    );
}
