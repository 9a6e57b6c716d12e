//! A standard deck of fifty-two cards, and the commands that draw it with an
//! eight pixel font on a byte-addressed screen.
use vstd::prelude::*;
use crate::platform_types::{PaletteIndex, FONT_WIDTH};

pub mod card;
pub mod suits;

verus! {

pub const TEN_CHAR: u8 = 27;

pub const CLUB_CHAR: u8 = 31;
pub const DIAMOND_CHAR: u8 = 29;
pub const HEART_CHAR: u8 = 30;
pub const SPADE_CHAR: u8 = 28;

pub const RANK_COUNT: u8 = 13;
pub const SUIT_COUNT: u8 = 4;
pub const DECK_SIZE: u8 = 52;

pub const FONT_SIZE: u8 = 8;
/// Or'd into a character to draw it upside down.
pub const FONT_FLIP: u8 = 128;

/// A card of the deck: `suit * RANK_COUNT + rank`.
pub type Card = u8;

pub type Suit = u8;

pub type Rank = u8;

pub fn get_suit(card: Card) -> (res: Suit)
    ensures
        res == card / RANK_COUNT,
{
    card / RANK_COUNT
}

pub const RED_INDEX: PaletteIndex = 2;
pub const PURPLE_INDEX: PaletteIndex = 4;
pub const BLACK_INDEX: PaletteIndex = 7;

/// The palette index and font character a suit is drawn with.
pub open spec fn suit_colour_and_char(suit: Suit) -> (PaletteIndex, u8) {
    if suit == suits::CLUBS {
        (BLACK_INDEX, CLUB_CHAR)
    } else if suit == suits::DIAMONDS {
        (RED_INDEX, DIAMOND_CHAR)
    } else if suit == suits::HEARTS {
        (RED_INDEX, HEART_CHAR)
    } else if suit == suits::SPADES {
        (BLACK_INDEX, SPADE_CHAR)
    } else {
        // a purple "!"
        (PURPLE_INDEX, 33)
    }
}

pub fn get_suit_colour_and_char(suit: Suit) -> (res: (PaletteIndex, u8))
    ensures
        res == suit_colour_and_char(suit),
{
    match suit {
        suits::CLUBS => (BLACK_INDEX, CLUB_CHAR),
        suits::DIAMONDS => (RED_INDEX, DIAMOND_CHAR),
        suits::HEARTS => (RED_INDEX, HEART_CHAR),
        suits::SPADES => (BLACK_INDEX, SPADE_CHAR),
        _ => (PURPLE_INDEX, 33),
    }
}

pub fn get_rank(card: Card) -> (res: Rank)
    ensures
        res == card % RANK_COUNT,
{
    card % RANK_COUNT
}

/// The font character a rank is drawn with: "a", "2" to "9", a single
/// character for ten, "j", "q", "k", and "!" for what is no rank.
pub open spec fn rank_char(rank: Rank) -> u8 {
    if rank == 0 {
        97
    } else if 1 <= rank <= 8 {
        (49 + rank) as u8
    } else if rank == 9 {
        TEN_CHAR
    } else if rank == 10 {
        106
    } else if rank == 11 {
        113
    } else if rank == 12 {
        107
    } else {
        33
    }
}

pub fn get_rank_char(card: Card) -> (res: u8)
    ensures
        res == rank_char(card % RANK_COUNT),
{
    get_rank_char_from_rank(get_rank(card))
}

pub fn get_rank_char_from_rank(rank: Rank) -> (res: u8)
    ensures
        res == rank_char(rank),
{
    match rank {
        0 => 97,
        1 => 50,
        2 => 51,
        3 => 52,
        4 => 53,
        5 => 54,
        6 => 55,
        7 => 56,
        8 => 57,
        9 => TEN_CHAR,
        10 => 106,
        11 => 113,
        12 => 107,
        _ => 33,
    }
}

/// How many characters one row of the font sheet holds.
pub const SPRITES_PER_ROW: u8 = 10;

pub proof fn lemma_sprites_per_row()
    ensures
        SPRITES_PER_ROW == FONT_WIDTH / FONT_SIZE,
{
}

/// Where in the font sheet the character `sprite_number` is.
pub fn get_char_xy(sprite_number: u8) -> (res: (u8, u8))
    ensures
        res.0 == (sprite_number % SPRITES_PER_ROW) * FONT_SIZE,
        res.1 == (sprite_number / SPRITES_PER_ROW) * FONT_SIZE,
{
    ((sprite_number % SPRITES_PER_ROW) * FONT_SIZE, (sprite_number / SPRITES_PER_ROW) * FONT_SIZE)
}

/// A rectangle of the screen, in pixels.
#[derive(Clone, Copy, Debug, PartialEq, Eq, Structural)]
pub struct Rect {
    pub x: u8,
    pub y: u8,
    pub w: u8,
    pub h: u8,
}

/// What a command fills its rectangle with.
#[derive(Clone, Copy, Debug, PartialEq, Eq)]
pub enum Kind {
    /// The sprite at the given place in the sprite sheet.
    Gfx((u8, u8)),
    /// The font character at the given place in the font sheet, in a colour.
    Font((u8, u8), PaletteIndex),
    /// One colour.
    Colour(PaletteIndex),
}

#[derive(Clone, Copy, Debug, PartialEq, Eq)]
pub struct Command {
    pub kind: Kind,
    pub rect: Rect,
}

/// The commands of a frame, in the order they are to be drawn.
pub struct Commands {
    commands: Vec<Command>,
}

impl View for Commands {
    type V = Seq<Command>;

    closed spec fn view(&self) -> Seq<Command> {
        self.commands@
    }
}

impl Default for Commands {
    fn default() -> (res: Self)
        ensures
            res@ == Seq::<Command>::empty(),
    {
        Commands { commands: Vec::new() }
    }
}

/// The command that draws the character `character` at `(x, y)`.
pub open spec fn char_command(character: u8, x: u8, y: u8, colour: PaletteIndex) -> Command {
    Command {
        kind: Kind::Font(
            (
                ((character % SPRITES_PER_ROW) * FONT_SIZE) as u8,
                ((character / SPRITES_PER_ROW) * FONT_SIZE) as u8,
            ),
            colour,
        ),
        rect: Rect { x, y, w: FONT_SIZE, h: FONT_SIZE },
    }
}

/// The commands that draw `card` with its top left corner at `(x, y)`: the
/// card's front, then its rank and suit in the top left corner, then both again
/// upside down in the bottom right corner.
pub open spec fn card_commands(card: Card, x: u8, y: u8) -> Seq<Command> {
    let (colour, suit_char) = suit_colour_and_char(card / RANK_COUNT);
    let rank_c = rank_char(card % RANK_COUNT);
    seq![
        Command {
            kind: Kind::Gfx((card::FRONT_SPRITE_X, card::FRONT_SPRITE_Y)),
            rect: Rect { x, y, w: card::WIDTH, h: card::HEIGHT },
        },
        char_command(rank_c, (x + card::LEFT_RANK_X) as u8, (y + card::LEFT_RANK_Y) as u8, colour),
        char_command(suit_char, (x + card::LEFT_SUIT_X) as u8, (y + card::LEFT_SUIT_Y) as u8, colour),
        char_command(
            rank_c | FONT_FLIP,
            (x + card::RIGHT_RANK_X) as u8,
            (y + card::RIGHT_RANK_Y) as u8,
            colour,
        ),
        char_command(
            suit_char | FONT_FLIP,
            (x + card::RIGHT_SUIT_X) as u8,
            (y + card::RIGHT_SUIT_Y) as u8,
            colour,
        ),
    ]
}

impl Commands {
    pub fn slice(&self) -> (res: &[Command])
        ensures
            res@ == self@,
    {
        self.commands.as_slice()
    }

    pub fn clear(&mut self)
        ensures
            final(self)@ == Seq::<Command>::empty(),
    {
        self.commands.clear();
    }

    /// Draws the `w` by `h` sprite at `(sprite_x, sprite_y)` in the sprite sheet
    /// at `(display_x, display_y)` on the screen.
    pub fn sspr(
        &mut self,
        sprite_x: u8,
        sprite_y: u8,
        w: u8,
        h: u8,
        display_x: u8,
        display_y: u8,
    )
        ensures
            final(self)@ == old(self)@.push(
                Command {
                    kind: Kind::Gfx((sprite_x, sprite_y)),
                    rect: Rect { x: display_x, y: display_y, w, h },
                },
            ),
    {
        self.commands.push(
            Command {
                kind: Kind::Gfx((sprite_x, sprite_y)),
                rect: Rect { x: display_x, y: display_y, w, h },
            },
        );
    }

    fn print_char_raw(
        &mut self,
        sprite_xy: (u8, u8),
        wh: (u8, u8),
        display_xy: (u8, u8),
        colour: PaletteIndex,
    )
        ensures
            final(self)@ == old(self)@.push(
                Command {
                    kind: Kind::Font(sprite_xy, colour),
                    rect: Rect { x: display_xy.0, y: display_xy.1, w: wh.0, h: wh.1 },
                },
            ),
    {
        self.commands.push(
            Command {
                kind: Kind::Font(sprite_xy, colour),
                rect: Rect { x: display_xy.0, y: display_xy.1, w: wh.0, h: wh.1 },
            },
        );
    }

    /// Draws the font character `character` at `(x, y)` in `colour`.
    pub fn print_char(&mut self, character: u8, x: u8, y: u8, colour: u8)
        ensures
            final(self)@ == old(self)@.push(char_command(character, x, y, colour)),
    {
        let (sprite_x, sprite_y) = get_char_xy(character);
        self.print_char_raw((sprite_x, sprite_y), (FONT_SIZE, FONT_SIZE), (x, y), colour);
    }

    /// Draws `card` with its top left corner at `(x, y)`.
    pub fn draw_card(&mut self, card: Card, x: u8, y: u8)
        requires
            x + card::RIGHT_SUIT_X <= u8::MAX,
            y + card::RIGHT_RANK_Y <= u8::MAX,
        ensures
            final(self)@ == old(self)@ + card_commands(card, x, y),
    {
        self.sspr(card::FRONT_SPRITE_X, card::FRONT_SPRITE_Y, card::WIDTH, card::HEIGHT, x, y);

        let (colour, suit_char) = get_suit_colour_and_char(get_suit(card));

        let rank_char = get_rank_char(card);

        self.print_char(rank_char, x + card::LEFT_RANK_X, y + card::LEFT_RANK_Y, colour);
        self.print_char(suit_char, x + card::LEFT_SUIT_X, y + card::LEFT_SUIT_Y, colour);

        self.print_char(rank_char | FONT_FLIP, x + card::RIGHT_RANK_X, y + card::RIGHT_RANK_Y, colour);
        self.print_char(suit_char | FONT_FLIP, x + card::RIGHT_SUIT_X, y + card::RIGHT_SUIT_Y, colour);
        assert(self@ =~= old(self)@ + card_commands(card, x, y));
    }
}

} // verus!
