//! The rules of the game and the state it is played in.
use vstd::prelude::*;

pub mod text;
pub mod layout;
pub mod cards;
pub mod anytime;
pub mod question;
pub mod play;
pub mod animation;
pub mod baskets;
pub mod ai;
pub mod zingers;
pub mod state;
pub mod tick;
pub mod cpu_turn;
pub mod resolve;
pub mod cpu_choice;
pub mod cpu_select;
pub mod player_turn;
pub mod cpu_respond;
pub mod anytime_play;
pub mod ui;
pub mod anytime_menu;
pub mod player_menus;
pub mod frame;

verus! {
} // verus!
