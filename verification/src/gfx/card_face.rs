//! The face of a card: its backing, its picture, and two lines of label.
use vstd::prelude::*;
use vstd::string::{is_ascii, is_ascii_spec_bytes, StringSliceAdditionalSpecFns};
use crate::game::text::append_bytes;
use crate::gfx::{
    appended, backing_target, lemma_appended_trans, line_targets, Commands, Target, BACKING_SPRITE_X, CARD_H,
    CARD_W, CHAR_ADVANCE_HEIGHT,
};
use crate::models::{
    get_rank, get_rank_spec, get_suit, get_suit_spec, get_zinger, get_zinger_spec, Card, Rank, Suit, Zinger,
    DECK_SIZE, RANK_COUNT,
};
use crate::platform_types::{sprite, unscaled, ARGB};

verus! {

/// The size of a card's picture, each way.
pub const IMAGE_SIZE: u16 = 72;

/// The sprite sheet column of the zingers' pictures, right of the suits'.
pub const ZINGER_IMAGE_X: u16 = 360;

/// The colour of a card's label.
pub const TEXT_COLOUR: ARGB = 0xFF222222;

/// Where a card's label starts, right of its left edge and below its top.
pub const LINE_X_OFFSET: u16 = 2;
pub const LINE_1_Y_OFFSET: u16 = 76;

/// The number of characters of a line of a card's label.
pub const LABEL_LENGTH: usize = 10;

/// The picture of `card` drawn at `xy`: a column per suit, the zingers in the
/// column after the suits, and a row per rank or zinger.
pub open spec fn image_target(card: Card, xy: unscaled::XY) -> Target {
    let x = match get_suit_spec(card) {
        Some(suit) => suit.index() * IMAGE_SIZE,
        None => ZINGER_IMAGE_X as int,
    };
    let y = match get_rank_spec(card) {
        Some(rank) => rank.index() * IMAGE_SIZE,
        None => match get_zinger_spec(card) {
            Some(zinger) => zinger.index() * IMAGE_SIZE,
            None => 0,
        },
    };
    (
        sprite::XY { x: sprite::X(x as u16), y: sprite::Y(y as u16) },
        unscaled::Rect {
            x: unscaled::X((xy.x.0 + 1) as u16),
            y: unscaled::Y((xy.y.0 + 4) as u16),
            w: unscaled::W(IMAGE_SIZE),
            h: unscaled::H(IMAGE_SIZE),
        },
        0,
    )
}

/// `name` followed by spaces up to the length of a label line.
pub open spec fn padded(name: Seq<u8>) -> Seq<u8> {
    name + Seq::new((LABEL_LENGTH - name.len()) as nat, |i: int| 32u8)
}

/// The label of a flying fish of `suit`, which does not fit on one line.
pub open spec fn flying_fish_lines(suit: Suit) -> (Seq<u8>, Seq<u8>) {
    match suit {
        Suit::Red => ("Red Flying".spec_bytes(), "fish      ".spec_bytes()),
        Suit::Green => ("Green Fly-".spec_bytes(), "ing fish  ".spec_bytes()),
        Suit::Blue => ("Blue Fly- ".spec_bytes(), "ing fish  ".spec_bytes()),
        Suit::Yellow => ("Yellow Fl-".spec_bytes(), "ying fish ".spec_bytes()),
        Suit::Purple => ("Purple Fl-".spec_bytes(), "ying fish ".spec_bytes()),
    }
}

/// The label of a zinger.
pub open spec fn zinger_lines(zinger: Zinger) -> (Seq<u8>, Seq<u8>) {
    match zinger {
        Zinger::DeadScubaDiver => ("Dead Scuba".spec_bytes(), "Diver     ".spec_bytes()),
        Zinger::DivineIntervention => ("Divine In-".spec_bytes(), "tervention".spec_bytes()),
        Zinger::GlassBottomBoat => ("Glass Bot-".spec_bytes(), "tom boat  ".spec_bytes()),
        Zinger::NoFishing => ("No        ".spec_bytes(), "Fishing   ".spec_bytes()),
        Zinger::TheGameWarden => ("The Game  ".spec_bytes(), "Warden    ".spec_bytes()),
        Zinger::TheLure => ("The       ".spec_bytes(), "Lure      ".spec_bytes()),
        Zinger::TheNet => ("The       ".spec_bytes(), "Net       ".spec_bytes()),
        Zinger::TwoFistedFisherman => ("2-fisted  ".spec_bytes(), "fisherman ".spec_bytes()),
    }
}

/// The two lines of the label of `card`: for a fish card its suit, then its
/// rank, each padded to the length of a line; the flying fish and the zingers
/// have labels of their own.
pub open spec fn card_label_lines_spec(card: Card) -> (Seq<u8>, Seq<u8>) {
    match (get_suit_spec(card), get_rank_spec(card)) {
        (Some(suit), Some(rank)) => if rank == Rank::FlyingFish {
            flying_fish_lines(suit)
        } else {
            (padded(suit.name().spec_bytes()), padded(rank.name().spec_bytes()))
        },
        _ => match get_zinger_spec(card) {
            Some(zinger) => zinger_lines(zinger),
            None => ("line 1 ???".spec_bytes(), "line 2 ???".spec_bytes()),
        },
    }
}

proof fn lemma_names_fit(suit: Suit, rank: Rank)
    ensures
        suit.name().spec_bytes().len() <= LABEL_LENGTH,
        rank != Rank::FlyingFish ==> rank.name().spec_bytes().len() <= LABEL_LENGTH,
{
    reveal_strlit("Red");
    reveal_strlit("Green");
    reveal_strlit("Blue");
    reveal_strlit("Yellow");
    reveal_strlit("Purple");
    reveal_strlit("Barnacle");
    reveal_strlit("Crab");
    reveal_strlit("Dogfish");
    reveal_strlit("Eel");
    reveal_strlit("Hammerhead");
    reveal_strlit("Jellyfish");
    reveal_strlit("Shrimp");
    reveal_strlit("Blowfish");
    reveal_strlit("Clownfish");
    reveal_strlit("Starfish");
    reveal_strlit("Whale");
    reveal_strlit("Card Shark");
    let s = suit.name();
    assert(is_ascii(s));
    is_ascii_spec_bytes(s);
    if rank != Rank::FlyingFish {
        let r = rank.name();
        assert(is_ascii(r));
        is_ascii_spec_bytes(r);
    }
}

/// Appends spaces to `line` up to the length of a label line.
fn pad_line(line: &mut Vec<u8>)
    requires
        old(line)@.len() <= LABEL_LENGTH,
    ensures
        final(line)@ == padded(old(line)@),
{
    while line.len() < 10
        invariant
            old(line)@.len() <= line@.len() <= LABEL_LENGTH,
            line@ == old(line)@ + Seq::new((line@.len() - old(line)@.len()) as nat, |i: int| 32u8),
        decreases LABEL_LENGTH - line@.len(),
    {
        line.push(32u8);
        assert(line@ =~= old(line)@ + Seq::new((line@.len() - old(line)@.len()) as nat, |i: int| 32u8));
    }
    assert(line@ =~= padded(old(line)@));
}

/// The lines as owned bytes.
fn lines_of_literals(first: &str, second: &str) -> (res: (Vec<u8>, Vec<u8>))
    ensures
        res.0@ == first.spec_bytes(),
        res.1@ == second.spec_bytes(),
{
    let mut a: Vec<u8> = Vec::new();
    append_bytes(&mut a, first.as_bytes());
    let mut b: Vec<u8> = Vec::new();
    append_bytes(&mut b, second.as_bytes());
    assert(a@ =~= first.spec_bytes());
    assert(b@ =~= second.spec_bytes());
    (a, b)
}

/// The two lines of the label of `card`, as `card_label_lines_spec` says.
pub fn card_label_lines(card: Card) -> (res: (Vec<u8>, Vec<u8>))
    ensures
        (res.0@, res.1@) == card_label_lines_spec(card),
{
    match (get_suit(card), get_rank(card)) {
        (Some(suit), Some(rank)) => {
            if rank == Rank::FlyingFish {
                match suit {
                    Suit::Red => lines_of_literals("Red Flying", "fish      "),
                    Suit::Green => lines_of_literals("Green Fly-", "ing fish  "),
                    Suit::Blue => lines_of_literals("Blue Fly- ", "ing fish  "),
                    Suit::Yellow => lines_of_literals("Yellow Fl-", "ying fish "),
                    Suit::Purple => lines_of_literals("Purple Fl-", "ying fish "),
                }
            } else {
                proof {
                    lemma_names_fit(suit, rank);
                }
                let mut first: Vec<u8> = Vec::new();
                append_bytes(&mut first, suit.text());
                pad_line(&mut first);
                let mut second: Vec<u8> = Vec::new();
                append_bytes(&mut second, rank.text());
                pad_line(&mut second);
                assert(first@ =~= padded(suit.name().spec_bytes()));
                assert(second@ =~= padded(rank.name().spec_bytes()));
                (first, second)
            }
        },
        _ => match get_zinger(card) {
            Some(zinger) => match zinger {
                Zinger::DeadScubaDiver => lines_of_literals("Dead Scuba", "Diver     "),
                Zinger::DivineIntervention => lines_of_literals("Divine In-", "tervention"),
                Zinger::GlassBottomBoat => lines_of_literals("Glass Bot-", "tom boat  "),
                Zinger::NoFishing => lines_of_literals("No        ", "Fishing   "),
                Zinger::TheGameWarden => lines_of_literals("The Game  ", "Warden    "),
                Zinger::TheLure => lines_of_literals("The       ", "Lure      "),
                Zinger::TheNet => lines_of_literals("The       ", "Net       "),
                Zinger::TwoFistedFisherman => lines_of_literals("2-fisted  ", "fisherman "),
            },
            None => lines_of_literals("line 1 ???", "line 2 ???"),
        },
    }
}

/// The line that stands where a suit or a rank is missing: all blanks.
pub open spec fn blank_line() -> Seq<u8> {
    padded(Seq::empty())
}

/// The label lines for an optional suit and an optional rank: the suit's name
/// on the first line and the rank's on the second, each padded to the length
/// of a line, a blank line standing for either that is missing. Where both
/// are missing, or the rank is the flying fish, whose name does not fit on a
/// line, the lines say that there is no label.
pub open spec fn label_lines_spec(suit: Option<Suit>, rank: Option<Rank>) -> (Seq<u8>, Seq<u8>) {
    if (suit is None && rank is None) || rank == Some(Rank::FlyingFish) {
        ("line 1 ???".spec_bytes(), "line 2 ???".spec_bytes())
    } else {
        (
            match suit {
                Some(s) => padded(s.name().spec_bytes()),
                None => blank_line(),
            },
            match rank {
                Some(r) => padded(r.name().spec_bytes()),
                None => blank_line(),
            },
        )
    }
}

/// The padded name, or a blank line.
fn name_line(name: Option<&[u8]>) -> (res: Vec<u8>)
    requires
        name matches Some(n) ==> n@.len() <= LABEL_LENGTH,
    ensures
        res@ == match name {
            Some(n) => padded(n@),
            None => blank_line(),
        },
{
    let mut line: Vec<u8> = Vec::new();
    match name {
        Some(n) => append_bytes(&mut line, n),
        None => {},
    }
    assert(line@ =~= match name {
        Some(n) => n@,
        None => Seq::<u8>::empty(),
    });
    pad_line(&mut line);
    line
}

impl Commands {
    /// The two lines of a card's label for an optional suit and an optional
    /// rank, as `label_lines_spec` says.
    pub fn label_lines_for(suit: Option<Suit>, rank: Option<Rank>) -> (res: (Vec<u8>, Vec<u8>))
        ensures
            (res.0@, res.1@) == label_lines_spec(suit, rank),
    {
        let no_rank = match rank {
            None => true,
            Some(_) => false,
        };
        let flying = match rank {
            Some(Rank::FlyingFish) => true,
            _ => false,
        };
        let no_suit = match suit {
            None => true,
            Some(_) => false,
        };
        if (no_suit && no_rank) || flying {
            return lines_of_literals("line 1 ???", "line 2 ???");
        }
        proof {
            lemma_names_fit(
                match suit {
                    Some(s) => s,
                    None => Suit::Red,
                },
                match rank {
                    Some(r) => r,
                    None => Rank::Barnacle,
                },
            );
        }
        let first = name_line(
            match suit {
                Some(s) => Some(s.text()),
                None => None,
            },
        );
        let second = name_line(
            match rank {
                Some(r) => Some(r.text()),
                None => None,
            },
        );
        (first, second)
    }
}

proof fn lemma_label_lengths(card: Card)
    ensures
        card_label_lines_spec(card).0.len() == LABEL_LENGTH,
        card_label_lines_spec(card).1.len() == LABEL_LENGTH,
{
    reveal_strlit("Red Flying");
    reveal_strlit("fish      ");
    reveal_strlit("Green Fly-");
    reveal_strlit("ing fish  ");
    reveal_strlit("Blue Fly- ");
    reveal_strlit("Yellow Fl-");
    reveal_strlit("ying fish ");
    reveal_strlit("Purple Fl-");
    reveal_strlit("Dead Scuba");
    reveal_strlit("Diver     ");
    reveal_strlit("Divine In-");
    reveal_strlit("tervention");
    reveal_strlit("Glass Bot-");
    reveal_strlit("tom boat  ");
    reveal_strlit("No        ");
    reveal_strlit("Fishing   ");
    reveal_strlit("The Game  ");
    reveal_strlit("Warden    ");
    reveal_strlit("The       ");
    reveal_strlit("Lure      ");
    reveal_strlit("Net       ");
    reveal_strlit("2-fisted  ");
    reveal_strlit("fisherman ");
    reveal_strlit("line 1 ???");
    reveal_strlit("line 2 ???");
    match (get_suit_spec(card), get_rank_spec(card)) {
        (Some(suit), Some(rank)) => {
            lemma_names_fit(suit, rank);
            if rank == Rank::FlyingFish {
                let (a, b) = match suit {
                    Suit::Red => ("Red Flying", "fish      "),
                    Suit::Green => ("Green Fly-", "ing fish  "),
                    Suit::Blue => ("Blue Fly- ", "ing fish  "),
                    Suit::Yellow => ("Yellow Fl-", "ying fish "),
                    Suit::Purple => ("Purple Fl-", "ying fish "),
                };
                assert(is_ascii(a));
                assert(is_ascii(b));
                is_ascii_spec_bytes(a);
                is_ascii_spec_bytes(b);
            }
        },
        _ => {
            let (a, b) = match get_zinger_spec(card) {
                Some(zinger) => match zinger {
                    Zinger::DeadScubaDiver => ("Dead Scuba", "Diver     "),
                    Zinger::DivineIntervention => ("Divine In-", "tervention"),
                    Zinger::GlassBottomBoat => ("Glass Bot-", "tom boat  "),
                    Zinger::NoFishing => ("No        ", "Fishing   "),
                    Zinger::TheGameWarden => ("The Game  ", "Warden    "),
                    Zinger::TheLure => ("The       ", "Lure      "),
                    Zinger::TheNet => ("The       ", "Net       "),
                    Zinger::TwoFistedFisherman => ("2-fisted  ", "fisherman "),
                },
                None => ("line 1 ???", "line 2 ???"),
            };
            assert(is_ascii(a));
            assert(is_ascii(b));
            is_ascii_spec_bytes(a);
            is_ascii_spec_bytes(b);
        },
    }
}

/// The column of the picture of `card`.
fn image_column(card: Card) -> (res: u16)
    ensures
        res == (match get_suit_spec(card) {
            Some(suit) => suit.index() * IMAGE_SIZE,
            None => ZINGER_IMAGE_X as int,
        }),
{
    match get_suit(card) {
        Some(suit) => suit.to_u8() as u16 * IMAGE_SIZE,
        None => ZINGER_IMAGE_X,
    }
}

/// The row of the picture of `card`.
fn image_row(card: Card) -> (res: u16)
    ensures
        res == (match get_rank_spec(card) {
            Some(rank) => rank.index() * IMAGE_SIZE,
            None => match get_zinger_spec(card) {
                Some(zinger) => zinger.index() * IMAGE_SIZE,
                None => 0,
            },
        }),
{
    match get_rank(card) {
        Some(rank) => rank.to_u8() as u16 * IMAGE_SIZE,
        None => match get_zinger(card) {
            Some(zinger) => {
                let i: u16 = match zinger {
                    Zinger::DeadScubaDiver => 0,
                    Zinger::DivineIntervention => 1,
                    Zinger::GlassBottomBoat => 2,
                    Zinger::NoFishing => 3,
                    Zinger::TheGameWarden => 4,
                    Zinger::TheLure => 5,
                    Zinger::TheNet => 6,
                    Zinger::TwoFistedFisherman => 7,
                };
                i * IMAGE_SIZE
            },
            None => 0,
        },
    }
}

/// Where the first line of a card's label starts, for a card at `xy`.
pub open spec fn line_1_xy(xy: unscaled::XY) -> unscaled::XY {
    unscaled::XY {
        x: unscaled::X((xy.x.0 + LINE_X_OFFSET) as u16),
        y: unscaled::Y((xy.y.0 + LINE_1_Y_OFFSET) as u16),
    }
}

/// Where the second line of a card's label starts, a line below the first.
pub open spec fn line_2_xy(xy: unscaled::XY) -> unscaled::XY {
    unscaled::XY {
        x: unscaled::X((xy.x.0 + LINE_X_OFFSET) as u16),
        y: unscaled::Y((xy.y.0 + LINE_1_Y_OFFSET + CHAR_ADVANCE_HEIGHT) as u16),
    }
}

/// What drawing `card` face up at `xy` draws: its backing, in the row of its
/// suit (the zingers after the suits), its picture, and the two lines of its
/// label.
pub open spec fn card_face_targets(card: Card, xy: unscaled::XY) -> Seq<Target> {
    let (first, second) = card_label_lines_spec(card);
    seq![backing_target((card / RANK_COUNT) as int, xy), image_target(card, xy)] + line_targets(
        first,
        line_1_xy(xy),
        TEXT_COLOUR,
    ) + line_targets(second, line_2_xy(xy), TEXT_COLOUR)
}

impl Commands {
    /// Draws `card` face up with its top left corner at `xy`.
    pub fn draw_card(&mut self, card: Card, xy: unscaled::XY)
        requires
            card < DECK_SIZE,
            xy.x.0 + CARD_W <= 65535,
            xy.y.0 + CARD_H <= 65535,
        ensures
            appended(old(self)@, final(self)@, card_face_targets(card, xy)),
    {
        proof {
            lemma_label_lengths(card);
        }
        let ghost start = self@;
        let row = (card / RANK_COUNT) as u16;
        self.draw_backing(row, xy);
        let ghost backed = self@;
        let image = sprite::XY { x: sprite::X(image_column(card)), y: sprite::Y(image_row(card)) };
        let rect = unscaled::Rect {
            x: unscaled::X(xy.x.0 + 1),
            y: unscaled::Y(xy.y.0 + 4),
            w: unscaled::W(IMAGE_SIZE),
            h: unscaled::H(IMAGE_SIZE),
        };
        self.push_target(image, rect, 0);
        let ghost pictured = self@;
        let (first, second) = card_label_lines(card);
        let xy1 = unscaled::XY { x: unscaled::X(xy.x.0 + LINE_X_OFFSET), y: unscaled::Y(xy.y.0 + LINE_1_Y_OFFSET) };
        self.print_line(first.as_slice(), xy1, TEXT_COLOUR);
        let ghost labelled = self@;
        let xy2 = unscaled::XY {
            x: unscaled::X(xy.x.0 + LINE_X_OFFSET),
            y: unscaled::Y(xy.y.0 + LINE_1_Y_OFFSET + CHAR_ADVANCE_HEIGHT),
        };
        self.print_line(second.as_slice(), xy2, TEXT_COLOUR);
        proof {
            let a = seq![backing_target(row as int, xy)];
            let b = seq![image_target(card, xy)];
            let c = line_targets(first@, xy1, TEXT_COLOUR);
            let d = line_targets(second@, xy2, TEXT_COLOUR);
            assert((image, rect, 0u32) == image_target(card, xy));
            lemma_appended_trans(start, backed, pictured, a, b);
            lemma_appended_trans(start, pictured, labelled, a + b, c);
            lemma_appended_trans(start, labelled, self@, a + b + c, d);
            assert(a + b =~= seq![backing_target((card / RANK_COUNT) as int, xy), image_target(card, xy)]);
        }
    }
}

} // verus!
