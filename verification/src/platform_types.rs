//! The types that the game and the platform layer share.
use vstd::prelude::*;

pub mod unscaled;
pub mod sprite;
pub mod command;
pub mod button;
pub mod lines;

pub use command::Command;
pub use button::Button;
pub use lines::{bytes_lines, longest_line_of};

verus! {

/// A colour given by a byte for each of alpha, red, green and blue, alpha being
/// the most significant: `0xaarrggbb`.
pub type ARGB = u32;

pub type PaletteIndex = u8;

/// The width of a card, in pixels.
pub const CARD_WIDTH_INNER: unscaled::Inner = 74;
/// The height of a card, in pixels.
pub const CARD_HEIGHT_INNER: unscaled::Inner = 105;

/// The width of a card.
pub fn card_width() -> (res: unscaled::W)
    ensures
        res.0 == CARD_WIDTH_INNER,
{
    unscaled::W(CARD_WIDTH_INNER)
}

/// The height of a card.
pub fn card_height() -> (res: unscaled::H)
    ensures
        res.0 == CARD_HEIGHT_INNER,
{
    unscaled::H(CARD_HEIGHT_INNER)
}

pub const GFX_WIDTH: u16 = 512;
pub const GFX_HEIGHT: u16 = 1024;
pub const GFX_LENGTH: usize = 524288;

pub const CHAR_WIDTH: u8 = 5;
pub const CHAR_ASC: u8 = 2;
pub const CHAR_LOWERCASE_H: u8 = 5;
pub const CHAR_DESC: u8 = 2;
pub const CHAR_HEIGHT: u8 = 9;

pub const FONT_WIDTH_IN_CHARS: u8 = 16;
pub const FONT_HEIGHT_IN_CHARS: u8 = 16;
pub const FONT_WIDTH: u8 = 80;
pub const FONT_HEIGHT: u8 = 144;

/// The width of a character of the font.
pub fn char_w() -> (res: command::W)
    ensures
        res@ == CHAR_WIDTH,
{
    command::W::clipped(unscaled::W(CHAR_WIDTH as u16))
}

/// The height of a character of the font.
pub fn char_h() -> (res: command::H)
    ensures
        res@ == CHAR_HEIGHT,
{
    command::H::clipped(unscaled::H(CHAR_HEIGHT as u16))
}

// Reportedly colourblind friendly colours.
pub const BLUE: ARGB = 0xFF3352E1;
pub const GREEN: ARGB = 0xFF30B06E;
pub const RED: ARGB = 0xFFDE4949;
pub const YELLOW: ARGB = 0xFFFFB937;
pub const PURPLE: ARGB = 0xFF533354;
pub const GREY: ARGB = 0xFF5A7D8B;
pub const GRAY: ARGB = 0xFF5A7D8B;
pub const WHITE: ARGB = 0xFFEEEEEE;
pub const BLACK: ARGB = 0xFF222222;

/// The colours of the palette, in palette index order.
pub fn palette() -> (res: [ARGB; 8])
    ensures
        res@ == seq![BLUE, GREEN, RED, YELLOW, PURPLE, GREY, WHITE, BLACK],
{
    [BLUE, GREEN, RED, YELLOW, PURPLE, GREY, WHITE, BLACK]
}

/// A sound effect.
#[derive(Clone, Copy, Debug, PartialEq, Eq, Structural)]
pub enum SFX {
    CardPlace,
    CardSlide,
    ButtonPress,
}

/// The sound effects requested during a frame, in request order.
pub struct Speaker {
    requests: Vec<SFX>,
}

impl View for Speaker {
    type V = Seq<SFX>;

    closed spec fn view(&self) -> Seq<SFX> {
        self.requests@
    }
}

impl Default for Speaker {
    fn default() -> (res: Speaker)
        ensures
            res@ == Seq::<SFX>::empty(),
    {
        Speaker { requests: Vec::with_capacity(8) }
    }
}

impl Speaker {
    /// Forgets all requests.
    pub fn clear(&mut self)
        ensures
            final(self)@ == Seq::<SFX>::empty(),
    {
        self.requests.clear();
    }

    /// Requests `sfx` after all earlier requests.
    pub fn request_sfx(&mut self, sfx: SFX)
        ensures
            final(self)@ == old(self)@.push(sfx),
    {
        self.requests.push(sfx);
    }

    /// The requests, in order.
    pub fn slice(&self) -> (res: &[SFX])
        ensures
            res@ == self@,
    {
        self.requests.as_slice()
    }
}

/// A direction on the directional pad.
#[derive(Copy, Clone, Debug, PartialEq, Eq, Structural)]
pub enum Dir {
    Up,
    Down,
    Left,
    Right,
}

/// The buttons held this frame and last frame.
#[derive(Clone, Copy, Default, Debug)]
pub struct Input {
    pub gamepad: Button,
    pub previous_gamepad: Button,
}

impl Input {
    /// Whether all of `buttons` are held now and not all of them were held before.
    pub fn pressed_this_frame(&self, buttons: Button) -> (res: bool)
        ensures
            res == (!self.previous_gamepad.spec_contains(buttons) && self.gamepad.spec_contains(
                buttons,
            )),
    {
        !self.previous_gamepad.contains(buttons) && self.gamepad.contains(buttons)
    }

    /// The first of up, down, left and right that was pressed this frame.
    pub fn dir_pressed_this_frame(&self) -> (res: Option<Dir>)
        ensures
            res == (if self.spec_pressed(Button::up_spec()) {
                Some(Dir::Up)
            } else if self.spec_pressed(Button::down_spec()) {
                Some(Dir::Down)
            } else if self.spec_pressed(Button::left_spec()) {
                Some(Dir::Left)
            } else if self.spec_pressed(Button::right_spec()) {
                Some(Dir::Right)
            } else {
                None
            }),
    {
        if self.pressed_this_frame(Button::UP()) {
            Some(Dir::Up)
        } else if self.pressed_this_frame(Button::DOWN()) {
            Some(Dir::Down)
        } else if self.pressed_this_frame(Button::LEFT()) {
            Some(Dir::Left)
        } else if self.pressed_this_frame(Button::RIGHT()) {
            Some(Dir::Right)
        } else {
            None
        }
    }

    /// Whether all of `buttons` were held before and not all of them are held now.
    pub fn released_this_frame(&self, buttons: Button) -> (res: bool)
        ensures
            res == (self.previous_gamepad.spec_contains(buttons)
                && !self.gamepad.spec_contains(buttons)),
    {
        self.previous_gamepad.contains(buttons) && !self.gamepad.contains(buttons)
    }

    pub open spec fn spec_pressed(&self, buttons: Button) -> bool {
        !self.previous_gamepad.spec_contains(buttons) && self.gamepad.spec_contains(buttons)
    }
}

} // verus!
