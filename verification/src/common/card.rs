//! Where the parts of a card are drawn, relative to its top left corner.
use vstd::prelude::*;
use crate::common::FONT_SIZE;

verus! {


pub const WIDTH: u8 = 20;
pub const HEIGHT: u8 = 30;

pub const FRONT_SPRITE_X: u8 = 2;
pub const FRONT_SPRITE_Y: u8 = 1;

pub const LEFT_RANK_X: u8 = 3;
pub const LEFT_RANK_Y: u8 = 3;

pub const LEFT_SUIT_X: u8 = 1;
pub const LEFT_SUIT_Y: u8 = 10;

pub const RIGHT_RANK_X: u8 = 9;
pub const RIGHT_RANK_Y: u8 = 19;

pub const RIGHT_SUIT_X: u8 = 11;
pub const RIGHT_SUIT_Y: u8 = 12;

pub proof fn lemma_right_offsets()
    ensures
        RIGHT_RANK_X == WIDTH - (LEFT_RANK_X + FONT_SIZE),
        RIGHT_RANK_Y == HEIGHT - (LEFT_RANK_Y + FONT_SIZE),
        RIGHT_SUIT_X == WIDTH - (LEFT_SUIT_X + FONT_SIZE),
        RIGHT_SUIT_Y == HEIGHT - (LEFT_SUIT_Y + FONT_SIZE),
{
}

} // verus!
