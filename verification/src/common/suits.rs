//! The four suits.
use vstd::prelude::*;
use crate::common::Suit;

verus! {


pub const CLUBS: Suit = 0;
pub const DIAMONDS: Suit = 1;
pub const HEARTS: Suit = 2;
pub const SPADES: Suit = 3;

} // verus!
