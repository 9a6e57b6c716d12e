//! The player choosing, at the start of a turn, which card of their hand to
//! use.
use vstd::prelude::*;
use vstd::string::StringSliceAdditionalSpecFns;
use crate::game::anytime::{find_almost_complete_baskets, no_full_basket, almost_complete_spec};
use crate::game::anytime_play::AvailablePlayAnytime;
use crate::game::question::Question;
use crate::game::state::{pressed, PlayerMenu, PlayerAskingSubMenu, PlayerSelection, PlayerSelectingSubMenu, State};
use crate::game::text::append_bytes;
use crate::game::ui::Id;
use crate::game::state::A_BITS;
use crate::models::{
    get_rank, get_rank_spec, get_zinger, get_zinger_spec, CardIndex, CpuId, HandId, LurePredicate, NetPredicate,
    Predicate, Rank, Suit, Targeting, Zinger,
};
use crate::platform_types::{Button, Input};
use crate::game::animation::{lemma_first_free_in_range, Animation, AnimationAction};
use crate::game::ai::{no_fishing_spec, should_use_no_fishing_against};
use crate::game::cards::ActiveCardCount;
use crate::game::cpu_turn::{first_match, first_match_from, handed_over_animation, lemma_first_match_in_range, lemma_matched_is_fish};
use crate::game::layout::{deck_xy, get_card_insert_position, get_card_position, spread};
use crate::game::zingers::{discard_no_fishing, first_index, push_spec};
use crate::models::{NO_FISHING, TWO_FISTED_FISHERMAN};

verus! {

pub const LEFT_BITS: u8 = 64;
pub const RIGHT_BITS: u8 = 128;

/// The card selected after left or right is pressed with the card at
/// `selected` of `len` selected: the selection moves one card along, wrapping
/// round at both ends.
pub open spec fn navigated(selected: int, len: int, input: Input) -> int {
    let last = if len > 0 { len - 1 } else { 0 };
    if pressed(input, LEFT_BITS) {
        if selected > 0 { selected - 1 } else { last }
    } else if pressed(input, RIGHT_BITS) {
        if selected < last { selected + 1 } else { 0 }
    } else {
        selected
    }
}

/// Why a zinger cannot be used now, for the ones that say so.
pub open spec fn no_baskets_message() -> Seq<u8> {
    "There are no almost-full baskets in your hand.".spec_bytes()
}

pub open spec fn no_fishing_message() -> Seq<u8> {
    "This card can only be played when someone asks you for a fish.".spec_bytes()
}

pub open spec fn two_fisted_message() -> Seq<u8> {
    "This card can only be played when you have asked someone for a fish and received a negative response.".spec_bytes()
}

pub open spec fn start_of_turn_message() -> Seq<u8> {
    "This card can only be played at the start of your turn.".spec_bytes()
}

pub open spec fn whole_turn_message() -> Seq<u8> {
    "You must use your entire turn to discard this, and you have already done something this turn!".spec_bytes()
}

pub open spec fn too_late_message() -> Seq<u8> {
    "All of the other zingers have been played. You missed your chance to discard this!".spec_bytes()
}

/// The menu that using the card at `selected`, a zinger, brings up, as its
/// message where it is one.
pub open spec fn zinger_message(zinger: Zinger, hand_has_almost_basket: bool, done: bool, too_late: bool) -> Option<Seq<u8>> {
    match zinger {
        Zinger::DeadScubaDiver => if hand_has_almost_basket { None } else { Some(no_baskets_message()) },
        Zinger::NoFishing => Some(no_fishing_message()),
        Zinger::TwoFistedFisherman => Some(two_fisted_message()),
        Zinger::TheNet | Zinger::TheLure => if done { Some(start_of_turn_message()) } else { None },
        Zinger::DivineIntervention => if done {
            Some(whole_turn_message())
        } else if too_late {
            Some(too_late_message())
        } else {
            None
        },
        _ => None,
    }
}

fn message(text: &str) -> (res: PlayerMenu)
    ensures
        res matches PlayerMenu::Selecting { sub_menu: PlayerSelectingSubMenu::Message(m) } && m@ == text.spec_bytes(),
{
    let mut m: Vec<u8> = Vec::new();
    append_bytes(&mut m, text.as_bytes());
    PlayerMenu::Selecting { sub_menu: PlayerSelectingSubMenu::Message(m) }
}

impl State {
    /// A frame of the player's turn on the root of the selecting menu, with
    /// `input`. Left and right move the selection along the hand, as
    /// `navigated` says. A uses the selected card: a fish card starts a
    /// question to the first computer player for that rank in red; a zinger
    /// brings up the menu to play it, or a message saying why it cannot be
    /// played now. Nothing happens without a card at the selection.
    pub fn player_select(&mut self, input: Input)
        requires
            old(self).selection.player_menu matches PlayerMenu::Selecting { sub_menu: PlayerSelectingSubMenu::Root },
            old(self).cards.well_formed(),
            no_full_basket(old(self).cards.player@),
        ensures
            final(self).cards == old(self).cards,
            final(self).animations == old(self).animations,
            final(self).stack == old(self).stack,
            final(self).turn_id == old(self).turn_id,
            final(self).cpu_menu == old(self).cpu_menu,
            ({
                let hand = old(self).cards.player@;
                let selected = old(self).selection.card_index as int;
                if selected >= hand.len() {
                    final(self).selection == old(self).selection && final(self).has_started
                        == old(self).has_started
                } else if pressed(input, LEFT_BITS) || pressed(input, RIGHT_BITS) {
                    &&& final(self).has_started
                    &&& final(self).selection.card_index == navigated(selected, hand.len() as int, input)
                    &&& final(self).selection.player_menu == old(self).selection.player_menu
                } else if pressed(input, A_BITS) {
                    let card = hand[selected];
                    &&& final(self).has_started
                    &&& final(self).selection.card_index == old(self).selection.card_index
                    &&& match get_zinger_spec(card) {
                        Some(zinger) => match zinger_message(
                            zinger,
                            exists|r: int| 0 <= r < 13 && #[trigger] almost_complete_spec(hand)[r] is Some,
                            old(self).done_something_this_turn,
                            old(self).cards.played_zingers_spec() >= 7,
                        ) {
                            Some(text) => final(self).selection.player_menu matches PlayerMenu::Selecting {
                                sub_menu: PlayerSelectingSubMenu::Message(m),
                            } && m@ == text,
                            None => match zinger {
                                Zinger::TheGameWarden => final(self).selection.player_menu matches PlayerMenu::Selecting {
                                    sub_menu: PlayerSelectingSubMenu::Anytime(_, available),
                                } && available.warden_i == selected,
                                Zinger::GlassBottomBoat => final(self).selection.player_menu matches PlayerMenu::Selecting {
                                    sub_menu: PlayerSelectingSubMenu::Anytime(_, available),
                                } && available.boat_i == selected,
                                Zinger::DeadScubaDiver => final(self).selection.player_menu matches PlayerMenu::Selecting {
                                    sub_menu: PlayerSelectingSubMenu::Anytime(_, available),
                                } && available.scuba_i == selected,
                                Zinger::TheNet => final(self).selection.player_menu == (PlayerMenu::Net {
                                    target: CpuId::One,
                                    predicate: NetPredicate::Suit(Suit::Red),
                                }),
                                Zinger::TheLure => final(self).selection.player_menu == (PlayerMenu::Lure {
                                    target: CpuId::One,
                                    predicate: LurePredicate { rank: Rank::Barnacle, suit: Suit::Red },
                                }),
                                Zinger::DivineIntervention => final(self).selection.player_menu matches PlayerMenu::Selecting {
                                    sub_menu: PlayerSelectingSubMenu::DiscardDivineIntervention,
                                },
                                _ => true,
                            },
                        },
                        None => match get_rank_spec(card) {
                            Some(rank) => {
                                &&& final(self).selection.player_menu matches PlayerMenu::Asking {
                                    used,
                                    question,
                                    sub_menu: PlayerAskingSubMenu::Root,
                                } && used == card && question.targeting == (Targeting {
                                    source: HandId::Player,
                                    target: HandId::Cpu1,
                                }) && question.predicate == Predicate::RankSuit(rank, Suit::Red)
                                &&& final(self).ctx.next_hot == Id::CpuIdSelect
                            },
                            None => final(self).selection.player_menu == old(self).selection.player_menu,
                        },
                    }
                } else {
                    final(self).selection == old(self).selection && final(self).has_started
                }
            }),
    {
        let selected = self.selection.card_index;
        let len = self.cards.player.len();
        let player_card = match self.cards.player.get(selected) {
            Some(card) => card,
            None => {
                return;
            },
        };
        self.has_started = true;
        if input.pressed_this_frame(Button::LEFT()) {
            self.selection.card_index = if selected > 0 {
                selected - 1
            } else {
                len.saturating_sub(1)
            };
        } else if input.pressed_this_frame(Button::RIGHT()) {
            self.selection.card_index = if selected < len.saturating_sub(1) {
                selected + 1
            } else {
                0
            };
        } else if input.pressed_this_frame(Button::A()) {
            match get_zinger(player_card) {
                Some(zinger) => match zinger {
                    Zinger::TheGameWarden => {
                        self.selection.player_menu = PlayerMenu::Selecting {
                            sub_menu: PlayerSelectingSubMenu::Anytime(
                                PlayerSelection::default(),
                                AvailablePlayAnytime::game_warden(selected),
                            ),
                        };
                    },
                    Zinger::GlassBottomBoat => {
                        self.selection.player_menu = PlayerMenu::Selecting {
                            sub_menu: PlayerSelectingSubMenu::Anytime(
                                PlayerSelection::default(),
                                AvailablePlayAnytime::glass_bottom_boat(selected),
                            ),
                        };
                    },
                    Zinger::DeadScubaDiver => {
                        match find_almost_complete_baskets(&self.cards.player) {
                            Some(baskets) => {
                                self.selection.player_menu = PlayerMenu::Selecting {
                                    sub_menu: PlayerSelectingSubMenu::Anytime(
                                        PlayerSelection::default(),
                                        AvailablePlayAnytime::dead_scuba_diver(selected, baskets),
                                    ),
                                };
                            },
                            None => {
                                self.selection.player_menu = message(
                                    "There are no almost-full baskets in your hand.",
                                );
                            },
                        }
                    },
                    Zinger::NoFishing => {
                        self.selection.player_menu = message(
                            "This card can only be played when someone asks you for a fish.",
                        );
                    },
                    Zinger::TwoFistedFisherman => {
                        self.selection.player_menu = message(
                            "This card can only be played when you have asked someone for a fish and received a negative response.",
                        );
                    },
                    Zinger::TheNet => {
                        if self.done_something_this_turn {
                            self.selection.player_menu = message(
                                "This card can only be played at the start of your turn.",
                            );
                        } else {
                            self.selection.card_index = selected;
                            self.selection.player_menu = PlayerMenu::Net {
                                target: CpuId::One,
                                predicate: NetPredicate::default(),
                            };
                        }
                    },
                    Zinger::TheLure => {
                        if self.done_something_this_turn {
                            self.selection.player_menu = message(
                                "This card can only be played at the start of your turn.",
                            );
                        } else {
                            self.selection.card_index = selected;
                            self.selection.player_menu = PlayerMenu::Lure {
                                target: CpuId::One,
                                predicate: LurePredicate { rank: Rank::Barnacle, suit: Suit::Red },
                            };
                        }
                    },
                    Zinger::DivineIntervention => {
                        if self.done_something_this_turn {
                            self.selection.player_menu = message(
                                "You must use your entire turn to discard this, and you have already done something this turn!",
                            );
                        } else if self.cards.can_discard_divine_intervention() {
                            self.selection.player_menu = message(
                                "All of the other zingers have been played. You missed your chance to discard this!",
                            );
                        } else {
                            self.selection.player_menu = PlayerMenu::Selecting {
                                sub_menu: PlayerSelectingSubMenu::DiscardDivineIntervention,
                            };
                        }
                    },
                },
                None => match get_rank(player_card) {
                    Some(rank) => {
                        self.selection.card_index = selected;
                        self.selection.player_menu = PlayerMenu::Asking {
                            used: player_card,
                            question: Question::new(
                                Targeting { source: HandId::Player, target: HandId::Cpu1 },
                                Predicate::RankSuit(rank, Suit::Red),
                            ),
                            sub_menu: PlayerAskingSubMenu::Root,
                        };
                        self.ctx.set_next_hot(Id::CpuIdSelect);
                    },
                    None => {},
                },
            }
        }
    }
}

/// What submitting the question of the player's asking menu does, from
/// `before` to `after`: see `State::player_submit_question`.
pub open spec fn question_submitted(before: State, after: State) -> bool {
    &&& after.well_formed()
    &&& after.turn_id == before.turn_id
    &&& after.cpu_menu == before.cpu_menu
    &&& after.ctx == before.ctx
    &&& after.stack == before.stack
    &&& after.sub_turn_ids == before.sub_turn_ids
    &&& after.sub_turn_index == before.sub_turn_index
    &&& after.has_started == before.has_started
    &&& after.paused == before.paused
    &&& after.selection.card_index == before.selection.card_index
    &&& after.selection.player_selection == before.selection.player_selection
    &&& match before.selection.player_menu {
        PlayerMenu::Asking { used, question, sub_menu } => {
            let target = question.targeting.target;
            let target_id = CpuId::try_from_hand_spec(target)->0;
            let held = before.cards.hand_spec(target);
            let blocked = held.contains(NO_FISHING) && no_fishing_spec(
                before.memories.memory_spec(target_id),
                held,
                HandId::Player,
                question.predicate,
                if before.cards.active_spec() <= 15 {
                    ActiveCardCount::VeryFew
                } else {
                    ActiveCardCount::Several
                },
            );
            if blocked {
                &&& after.cards.hand_spec(target) == held.remove(first_index(held, NO_FISHING))
                &&& after.cards.same_but_hand(before.cards, target)
                &&& after.selection.player_menu == before.selection.player_menu
            } else {
                match first_match_from(held, question.predicate, 0) {
                    Some(i) => {
                        &&& after.cards.hand_spec(target) == held.remove(i)
                        &&& after.cards.same_but_hand(before.cards, target)
                        &&& after.animations.slots() == push_spec(
                            before.animations.slots(),
                            handed_over_animation(
                                held[i],
                                target,
                                held.len() - 1,
                                i,
                                HandId::Player,
                                before.cards.player@.len() as int,
                            ),
                        )
                        &&& after.selection.player_menu matches PlayerMenu::Selecting {
                            sub_menu: PlayerSelectingSubMenu::Root,
                        }
                        &&& after.done_something_this_turn
                    },
                    None => if before.cards.player@.contains(TWO_FISTED_FISHERMAN) {
                        &&& after.cards == before.cards
                        &&& after.selection.player_menu == (PlayerMenu::Asking {
                            used,
                            question,
                            sub_menu: PlayerAskingSubMenu::TwoFistedFisherman,
                        })
                    } else {
                        let deck = before.cards.deck@;
                        &&& after.selection.player_menu == (PlayerMenu::Fished {
                            question,
                            drew: if deck.len() > 0 {
                                Some(deck.last())
                            } else {
                                None
                            },
                        })
                        &&& after.cards.piles() == (if deck.len() > 0 {
                            before.cards.piles().update(0, deck.drop_last())
                        } else {
                            before.cards.piles()
                        })
                        &&& after.done_something_this_turn
                    },
                }
            }
        },
        _ => true,
    }
}

impl State {
    /// The player submits the question of their asking menu to the computer
    /// player it targets. That player blocks it with No Fishing if it holds that
    /// and judges it worth it. Otherwise everyone notes the question, and the
    /// first matching card of the target's hand goes to the player; without one,
    /// a player holding the Two-Fisted Fisherman is offered to play it, and any
    /// other player goes fishing: the top card of the deck, if any, comes to
    /// their hand and the fished menu shows the question.
    pub fn player_submit_question(&mut self)
        requires
            old(self).well_formed(),
            old(self).selection.player_menu matches PlayerMenu::Asking { question, .. }
                && CpuId::try_from_hand_spec(question.targeting.target) is Some,
        ensures
            final(self).well_formed(),
            final(self).turn_id == old(self).turn_id,
            final(self).cpu_menu == old(self).cpu_menu,
            final(self).ctx == old(self).ctx,
            final(self).stack == old(self).stack,
            final(self).sub_turn_ids == old(self).sub_turn_ids,
            final(self).sub_turn_index == old(self).sub_turn_index,
            final(self).has_started == old(self).has_started,
            final(self).paused == old(self).paused,
            final(self).selection.card_index == old(self).selection.card_index,
            final(self).selection.player_selection == old(self).selection.player_selection,
            match old(self).selection.player_menu {
                PlayerMenu::Asking { used, question, sub_menu } => {
                    let target = question.targeting.target;
                    let target_id = CpuId::try_from_hand_spec(target)->0;
                    let held = old(self).cards.hand_spec(target);
                    let blocked = held.contains(NO_FISHING) && no_fishing_spec(
                        old(self).memories.memory_spec(target_id),
                        held,
                        HandId::Player,
                        question.predicate,
                        if old(self).cards.active_spec() <= 15 {
                            ActiveCardCount::VeryFew
                        } else {
                            ActiveCardCount::Several
                        },
                    );
                    if blocked {
                        &&& final(self).cards.hand_spec(target) == held.remove(first_index(held, NO_FISHING))
                        &&& final(self).cards.same_but_hand(old(self).cards, target)
                        &&& final(self).selection.player_menu == old(self).selection.player_menu
                    } else {
                        match first_match_from(held, question.predicate, 0) {
                            Some(i) => {
                                &&& final(self).cards.hand_spec(target) == held.remove(i)
                                &&& final(self).cards.same_but_hand(old(self).cards, target)
                                &&& final(self).animations.slots() == push_spec(
                                    old(self).animations.slots(),
                                    handed_over_animation(
                                        held[i],
                                        target,
                                        held.len() - 1,
                                        i,
                                        HandId::Player,
                                        old(self).cards.player@.len() as int,
                                    ),
                                )
                                &&& final(self).selection.player_menu matches PlayerMenu::Selecting {
                                    sub_menu: PlayerSelectingSubMenu::Root,
                                }
                                &&& final(self).done_something_this_turn
                            },
                            None => if old(self).cards.player@.contains(TWO_FISTED_FISHERMAN) {
                                &&& final(self).cards == old(self).cards
                                &&& final(self).selection.player_menu == (PlayerMenu::Asking {
                                    used,
                                    question,
                                    sub_menu: PlayerAskingSubMenu::TwoFistedFisherman,
                                })
                            } else {
                                let deck = old(self).cards.deck@;
                                &&& final(self).selection.player_menu == (PlayerMenu::Fished {
                                    question,
                                    drew: if deck.len() > 0 {
                                        Some(deck.last())
                                    } else {
                                        None
                                    },
                                })
                                &&& final(self).cards.piles() == (if deck.len() > 0 {
                                    old(self).cards.piles().update(0, deck.drop_last())
                                } else {
                                    old(self).cards.piles()
                                })
                                &&& final(self).done_something_this_turn
                            },
                        }
                    }
                },
                _ => true,
            },
    {
        proof {
            lemma_first_free_in_range(self.animations.slots(), 0);
        }
        let mut menu = PlayerMenu::default();
        core::mem::swap(&mut menu, &mut self.selection.player_menu);
        match menu {
            PlayerMenu::Asking { used, question, sub_menu } => {
                let target = question.targeting.target;
                let target_id = match CpuId::try_from_hand(target) {
                    Ok(id) => id,
                    Err(()) => {
                        assert(false);
                        CpuId::One
                    },
                };
                let predicate = question.predicate;
                if self.cards.hand(target).contains(NO_FISHING) && should_use_no_fishing_against(
                    self.memories.memory(target_id),
                    self.cards.hand(target),
                    HandId::Player,
                    predicate,
                    self.cards.active_count(),
                ) {
                    discard_no_fishing(
                        &mut self.cards,
                        &mut self.animations,
                        target.with_target(HandId::Player),
                        predicate,
                    );
                    self.selection.player_menu = PlayerMenu::Asking { used, question, sub_menu };
                    return;
                }
                let player_len = self.cards.player.len();
                self.memories.asked_for(HandId::Player, predicate);
                match first_match(self.cards.hand(target), predicate) {
                    Some(i) => {
                        proof {
                            lemma_first_match_in_range(self.cards.hand_spec(target), predicate, 0);
                        }
                        let target_len = self.cards.hand(target).len();
                        assert(i < target_len);
                        let card = match self.cards.hand_mut(target).remove(i) {
                            Some(card) => card,
                            None => {
                                assert(false);
                                0
                            },
                        };
                        proof {
                            lemma_matched_is_fish(predicate, card);
                        }
                        self.memories.found(HandId::Player, card);
                        let left = self.cards.hand(target).len();
                        let at = get_card_position(spread(target), left, i);
                        let to = get_card_insert_position(spread(HandId::Player), player_len);
                        self.animations.push(
                            Animation {
                                card,
                                at,
                                target: to,
                                action: AnimationAction::AddToHand(HandId::Player),
                                delay: 0,
                                shown: true,
                            },
                        );
                        self.selection.player_menu = PlayerMenu::default();
                        self.done_something_this_turn = true;
                    },
                    None => {
                        if self.cards.player.contains(TWO_FISTED_FISHERMAN) {
                            self.selection.player_menu = PlayerMenu::Asking {
                                used,
                                question,
                                sub_menu: PlayerAskingSubMenu::TwoFistedFisherman,
                            };
                        } else {
                            let drew = self.cards.deck.draw();
                            self.done_something_this_turn = true;
                            if let Some(card) = drew {
                                let to = get_card_insert_position(spread(HandId::Player), player_len);
                                self.animations.push(
                                    Animation {
                                        card,
                                        at: deck_xy(),
                                        target: to,
                                        action: AnimationAction::AddToHand(HandId::Player),
                                        delay: 0,
                                        shown: false,
                                    },
                                );
                            }
                            self.selection.player_menu = PlayerMenu::Fished { question, drew };
                        }
                    },
                }
            },
            other => {
                self.selection.player_menu = other;
            },
        }
    }
}

} // verus!
