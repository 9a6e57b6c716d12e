//! How a computer player's question is answered: the card it asked for changes
//! hands, or it goes fishing.
use vstd::prelude::*;
use crate::game::animation::{lemma_first_free_in_range, Animation, AnimationAction};
use crate::game::layout::{card_position_spec, deck_xy, get_card_insert_position, get_card_position, spread, spread_spec};
use crate::game::play::{Play, PlayKind};
use crate::game::state::{CpuMenu, PlayerMenu, PlayerSelectingSubMenu, State};
use crate::game::ai::{no_fishing_spec, should_use_no_fishing_against};
use crate::game::zingers::discard_no_fishing;
use crate::models::NO_FISHING;
use crate::game::cards::ActiveCardCount;
use crate::game::zingers::{discard_animation, discard_two_fisted_fisherman, first_index, push_spec};
use crate::game::animation::AfterDiscard;
use crate::game::ai::can_and_should_play_two_fisted_fisherman;
use crate::models::{Card, CardIndex, CpuId, Hand, HandId, Predicate, DECK_SIZE};
use crate::memories::Location;
use crate::models::TWO_FISTED_FISHERMAN;
use crate::platform_types::unscaled::{X, Y, XY};

verus! {

/// The animation that brings a card drawn from the deck into the hand of `id`,
/// which holds `len` cards.
pub open spec fn fished_animation(card: Card, id: HandId, len: int) -> Animation {
    Animation {
        delay: 0,
        card,
        at: XY { x: X(203), y: Y(107) },
        target: card_position_spec(spread_spec(id), len + 1, len),
        action: AnimationAction::AddToHand(id),
        shown: false,
    }
}

/// The animation that moves the card at position `i` of the hand of `from`,
/// which holds `from_len` cards once it is gone, to the hand of `to`, which
/// holds `to_len` cards.
pub open spec fn handed_over_animation(card: Card, from: HandId, from_len: int, i: int, to: HandId, to_len: int) -> Animation {
    Animation {
        delay: 0,
        card,
        at: card_position_spec(spread_spec(from), from_len, i),
        target: card_position_spec(spread_spec(to), to_len + 1, to_len),
        action: AnimationAction::AddToHand(to),
        shown: true,
    }
}

/// The position of the first card in `cards` that `predicate` matches.
pub open spec fn first_match_from(cards: Seq<Card>, predicate: Predicate, i: int) -> Option<int>
    decreases cards.len() - i,
{
    if i < 0 || i >= cards.len() {
        None
    } else if predicate.matches_spec(cards[i]) {
        Some(i)
    } else {
        first_match_from(cards, predicate, i + 1)
    }
}

pub proof fn lemma_first_match_in_range(cards: Seq<Card>, predicate: Predicate, i: int)
    ensures
        first_match_from(cards, predicate, i) matches Some(k) ==> i <= k < cards.len()
            && predicate.matches_spec(cards[k]),
    decreases cards.len() - i,
{
    if 0 <= i < cards.len() && !predicate.matches_spec(cards[i]) {
        lemma_first_match_in_range(cards, predicate, i + 1);
    }
}

/// The position of the first card in `hand` that `predicate` matches.
pub fn first_match(hand: &Hand, predicate: Predicate) -> (res: Option<CardIndex>)
    ensures
        match first_match_from(hand@, predicate, 0) {
            Some(i) => res == Some(i as CardIndex),
            None => res is None,
        },
{
    let n = hand.len();
    let mut i: u8 = 0;
    while i < n
        invariant
            i <= n,
            n == hand@.len(),
            first_match_from(hand@, predicate, 0) == first_match_from(hand@, predicate, i as int),
        decreases n - i,
    {
        match hand.get(i) {
            Some(card) => {
                if predicate.matches(card) {
                    return Some(i);
                }
            },
            None => {},
        }
        i = i + 1;
    }
    None
}

/// Every card that a question can match is a fish card.
pub proof fn lemma_matched_is_fish(predicate: Predicate, card: Card)
    requires
        predicate.matches_spec(card),
    ensures
        card < DECK_SIZE,
{
}

impl State {
    /// The computer player `id` asks the holder of the hand `target` for a
    /// card that `predicate` matches, and everyone notes the question. If the
    /// hand holds such a card, the first one goes to the asker, everyone learns
    /// it, and the asker waits for it to arrive. Otherwise the asker goes
    /// fishing, as `cpu_handle_negative_response` says.
    pub fn cpu_handle_ask(&mut self, id: CpuId, target: HandId, predicate: Predicate)
        requires
            old(self).well_formed(),
            old(self).cards.deck@.len() > 0 ==> old(self).cards.deck@.last() < DECK_SIZE,
        ensures
            final(self).well_formed(),
            final(self).same_but_fishing(*old(self)),
            ({
                let asker = HandId::from_cpu_spec(id);
                let held = old(self).cards.hand_spec(target);
                match first_match_from(held, predicate, 0) {
                    Some(i) => {
                        &&& final(self).cards.hand_spec(target) == held.remove(i)
                        &&& final(self).cards.same_but_hand(old(self).cards, target)
                        &&& final(self).animations.slots() == push_spec(
                            old(self).animations.slots(),
                            handed_over_animation(
                                held[i],
                                target,
                                held.len() - 1,
                                i,
                                asker,
                                old(self).cards.hand_spec(asker).len() as int,
                            ),
                        )
                        &&& forall|c: CpuId|
                            #[trigger] final(self).memories.memory_spec(c).locations_spec() == old(
                                self,
                            ).memories.memory_spec(c).after_asked(asker, predicate).update(
                                held[i] as int,
                                Location::Known(asker),
                            )
                        &&& final(self).cpu_menu is WaitingForSuccesfulAsk
                        &&& final(self).done_something_this_turn
                        &&& final(self).stack == old(self).stack
                    },
                    None => {
                        &&& final(self).cards.hand_spec(target) == held || target == asker
                        &&& final(self).done_something_this_turn
                    },
                }
            }),
    {
        proof {
            lemma_first_free_in_range(self.animations.slots(), 0);
        }
        let asker = HandId::from(id);
        self.memories.asked_for(asker, predicate);
        let my_len = self.cards.hand(asker).len();
        match first_match(self.cards.hand(target), predicate) {
            Some(i) => {
                proof {
                    lemma_first_match_in_range(self.cards.hand_spec(target), predicate, 0);
                }
                let target_len = self.cards.hand(target).len();
                assert(i < target_len);
                let target_hand = self.cards.hand_mut(target);
                let removed = target_hand.remove(i);
                let left = target_hand.len();
                let card = match removed {
                    Some(card) => card,
                    None => {
                        assert(false);
                        0
                    },
                };
                proof {
                    lemma_matched_is_fish(predicate, card);
                }
                self.memories.found(asker, card);
                let at = get_card_position(spread(target), left, i);
                let to = get_card_insert_position(spread(asker), my_len);
                self.animations.push(
                    Animation {
                        card,
                        at,
                        target: to,
                        action: AnimationAction::AddToHand(asker),
                        delay: 0,
                        shown: true,
                    },
                );
                self.cpu_menu = CpuMenu::WaitingForSuccesfulAsk;
                self.done_something_this_turn = true;
            },
            None => {
                self.cpu_handle_negative_response(id, predicate);
            },
        }
    }

    /// Whether, apart from what a computer player's fishing changes, `self`
    /// is as `old` was.
    pub open spec fn same_but_fishing(self, old: State) -> bool {
        &&& self.ctx == old.ctx
        &&& self.has_started == old.has_started
        &&& self.turn_id == old.turn_id
        &&& self.paused == old.paused
        &&& self.selection == old.selection
    }

    /// The computer player `id` was told to go fish for a card that
    /// `predicate` matches. If it holds the Two-Fisted Fisherman it plays it,
    /// and the others may respond. Otherwise it draws the top card of the deck:
    /// if that is what it was fishing for, everyone learns it has the card and
    /// it waits for the card to arrive; if not, or if the deck is empty, the
    /// others may respond to its unsuccessful fishing.
    pub fn cpu_handle_negative_response(&mut self, id: CpuId, predicate: Predicate)
        requires
            old(self).well_formed(),
            old(self).cards.deck@.len() > 0 ==> old(self).cards.deck@.last() < DECK_SIZE,
        ensures
            final(self).well_formed(),
            final(self).same_but_fishing(*old(self)),
            ({
                let hand_id = HandId::from_cpu_spec(id);
                let hand = old(self).cards.hand_spec(hand_id);
                let deck = old(self).cards.deck@;
                if hand.contains(TWO_FISTED_FISHERMAN) {
                    let i = first_index(hand, TWO_FISTED_FISHERMAN);
                    &&& final(self).cards.hand_spec(hand_id) == hand.remove(i)
                    &&& final(self).cards.same_but_hand(old(self).cards, hand_id)
                    &&& final(self).animations.slots() == push_spec(
                        old(self).animations.slots(),
                        discard_animation(
                            hand_id,
                            hand.len() - 1,
                            i,
                            TWO_FISTED_FISHERMAN,
                            AfterDiscard::BackToSelecting(hand_id),
                        ),
                    )
                    &&& final(self).cpu_menu is WaitingWhenPlayedTwoFistedFisherman
                    &&& final(self).stack@.len() == old(self).stack@.len() + 1
                    &&& final(self).stack@.drop_last() == old(self).stack@
                    &&& final(self).stack@.last().sub_turn_ids@ == hand_id.besides_spec().push(hand_id)
                    &&& final(self).stack@.last().sub_turn_index == 0
                    &&& final(self).stack@.last().kind == (PlayKind::TwoFistedFisherman {
                        source: hand_id,
                        cancelled: false,
                    })
                    &&& final(self).sub_turn_ids@ == old(self).turn_id.besides_spec().push(old(self).turn_id)
                    &&& final(self).sub_turn_index == 0
                    &&& final(self).done_something_this_turn
                } else if deck.len() > 0 && predicate.matches_spec(deck.last()) {
                    &&& final(self).cards.piles() == old(self).cards.piles().update(0, deck.drop_last())
                    &&& forall|c: CpuId|
                        #[trigger] final(self).memories.memory_spec(c).locations_spec() == old(
                            self,
                        ).memories.memory_spec(c).locations_spec().update(
                            deck.last() as int,
                            Location::Known(hand_id),
                        )
                    &&& final(self).animations.slots() == push_spec(
                        old(self).animations.slots(),
                        fished_animation(deck.last(), hand_id, hand.len() as int),
                    )
                    &&& final(self).cpu_menu is WaitingWhenGotWhatWasFishingFor
                    &&& final(self).stack == old(self).stack
                    &&& final(self).sub_turn_ids == old(self).sub_turn_ids
                    &&& final(self).sub_turn_index == old(self).sub_turn_index
                    &&& final(self).done_something_this_turn
                } else {
                    &&& final(self).cards.piles() == (if deck.len() > 0 {
                        old(self).cards.piles().update(0, deck.drop_last())
                    } else {
                        old(self).cards.piles()
                    })
                    &&& final(self).animations.slots() == (if deck.len() > 0 {
                        push_spec(
                            old(self).animations.slots(),
                            fished_animation(deck.last(), hand_id, hand.len() as int),
                        )
                    } else {
                        old(self).animations.slots()
                    })
                    &&& final(self).memories == old(self).memories
                    &&& final(self).cpu_menu == old(self).cpu_menu
                    &&& final(self).stack@.len() == old(self).stack@.len() + 1
                    &&& final(self).stack@.drop_last() == old(self).stack@
                    &&& final(self).stack@.last().sub_turn_ids@ == hand_id.besides_spec().push(hand_id)
                    &&& final(self).stack@.last().sub_turn_index == 0
                    &&& final(self).stack@.last().kind == (PlayKind::FishedUnsuccessfully { source: hand_id })
                    &&& final(self).sub_turn_ids@ == old(self).turn_id.besides_spec().push(old(self).turn_id)
                    &&& final(self).sub_turn_index == 0
                    &&& final(self).done_something_this_turn
                }
            }),
    {
        proof {
            lemma_first_free_in_range(self.animations.slots(), 0);
        }
        let hand_id = HandId::from(id);
        if can_and_should_play_two_fisted_fisherman(
            &self.memories,
            self.cards.hand(hand_id),
            id,
            self.cards.active_count(),
        ) {
            discard_two_fisted_fisherman(&mut self.cards, &mut self.animations, hand_id);
            self.cpu_menu = CpuMenu::WaitingWhenPlayedTwoFistedFisherman;
            self.done_something_this_turn = true;
            let sub_turn_ids = hand_id.next_to_current();
            self.stack.push(
                Play {
                    sub_turn_ids,
                    sub_turn_index: 0,
                    kind: PlayKind::TwoFistedFisherman { source: hand_id, cancelled: false },
                },
            );
            self.allow_to_respond();
        } else {
            let my_len = self.cards.hand(hand_id).len();
            let card_option = self.cards.deck.draw();
            if let Some(card) = card_option {
                let target = get_card_insert_position(spread(hand_id), my_len);
                self.animations.push(
                    Animation {
                        card,
                        at: deck_xy(),
                        target,
                        action: AnimationAction::AddToHand(hand_id),
                        delay: 0,
                        shown: false,
                    },
                );
                if predicate.matches(card) {
                    self.memories.found(hand_id, card);
                    self.cpu_menu = CpuMenu::WaitingWhenGotWhatWasFishingFor;
                    self.done_something_this_turn = true;
                } else {
                    self.stack.push(
                        Play {
                            sub_turn_ids: hand_id.next_to_current(),
                            sub_turn_index: 0,
                            kind: PlayKind::FishedUnsuccessfully { source: hand_id },
                        },
                    );
                    self.allow_to_respond();
                }
            } else {
                self.stack.push(
                    Play {
                        sub_turn_ids: hand_id.next_to_current(),
                        sub_turn_index: 0,
                        kind: PlayKind::FishedUnsuccessfully { source: hand_id },
                    },
                );
                self.allow_to_respond();
            }
        }
    }
}

impl State {
    /// The computer player `id` acknowledged being dead in the water: it draws
    /// the top card of the deck, if any, and the menus start over; with the deck
    /// empty too, the turn passes on.
    pub fn cpu_dead_in_the_water_draws(&mut self, id: CpuId)
        requires
            old(self).well_formed(),
        ensures
            final(self).well_formed(),
            final(self).same_but_fishing_menus(*old(self)),
            final(self).cpu_menu is Selecting,
            final(self).selection.player_menu matches PlayerMenu::Selecting {
                sub_menu: PlayerSelectingSubMenu::Root,
            },
            ({
                let hand_id = HandId::from_cpu_spec(id);
                let deck = old(self).cards.deck@;
                if deck.len() > 0 {
                    &&& final(self).cards.piles() == old(self).cards.piles().update(0, deck.drop_last())
                    &&& final(self).animations.slots() == push_spec(
                        old(self).animations.slots(),
                        fished_animation(deck.last(), hand_id, old(self).cards.hand_spec(hand_id).len() as int),
                    )
                    &&& final(self).turn_id == old(self).turn_id
                    &&& final(self).selection.card_index == (if old(self).cards.player@.len() > 0 {
                        old(self).cards.player@.len() - 1
                    } else {
                        0
                    })
                } else {
                    &&& final(self).cards.piles() == old(self).cards.piles()
                    &&& final(self).animations == old(self).animations
                    &&& final(self).turn_id == HandId::from_index((old(self).turn_id.index() + 1) % 4)
                    &&& !final(self).done_something_this_turn
                }
            }),
    {
        proof {
            lemma_first_free_in_range(self.animations.slots(), 0);
        }
        let drew = self.cards.deck.draw();
        let hand_id = HandId::from(id);
        let len = self.cards.hand(hand_id).len();
        self.selection.card_index = self.cards.player.len().saturating_sub(1);
        self.selection.player_menu = PlayerMenu::default();
        self.cpu_menu = CpuMenu::default();
        match drew {
            Some(card) => {
                let target = get_card_insert_position(spread(hand_id), len);
                self.animations.push(
                    Animation {
                        card,
                        at: deck_xy(),
                        target,
                        action: AnimationAction::AddToHand(hand_id),
                        delay: 0,
                        shown: false,
                    },
                );
            },
            None => {
                self.to_next_turn();
            },
        }
    }

    /// Whether, apart from the cards, the animations, the menus and the turn,
    /// `self` is as `old` was.
    pub open spec fn same_but_fishing_menus(self, old: State) -> bool {
        &&& self.ctx == old.ctx
        &&& self.has_started == old.has_started
        &&& self.paused == old.paused
        &&& self.memories == old.memories
        &&& self.stack == old.stack
    }

    /// The computer player holding the hand `target`, asked by the computer
    /// player `asker` for what `predicate` matches, blocks the question with No
    /// Fishing if it holds that and judges it worth it. Returns whether it did.
    pub fn cpu_target_blocks(&mut self, asker: CpuId, target_id: CpuId, predicate: Predicate) -> (blocked: bool)
        requires
            old(self).well_formed(),
        ensures
            final(self).well_formed(),
            ({
                let target = HandId::from_cpu_spec(target_id);
                let held = old(self).cards.hand_spec(target);
                &&& blocked == (held.contains(NO_FISHING) && no_fishing_spec(
                    old(self).memories.memory_spec(target_id),
                    held,
                    HandId::from_cpu_spec(asker),
                    predicate,
                    if old(self).cards.active_spec() <= 15 {
                        ActiveCardCount::VeryFew
                    } else {
                        ActiveCardCount::Several
                    },
                ))
                &&& blocked ==> final(self).cards.hand_spec(target) == held.remove(first_index(held, NO_FISHING))
                    && final(self).cards.same_but_hand(old(self).cards, target)
                &&& !blocked ==> final(self).cards == old(self).cards && final(self).animations == old(self).animations
                &&& final(self).cpu_menu == old(self).cpu_menu
                &&& final(self).stack == old(self).stack
            }),
    {
        proof {
            lemma_first_free_in_range(self.animations.slots(), 0);
        }
        let target = HandId::from(target_id);
        let asker_id = HandId::from(asker);
        if self.cards.hand(target).contains(NO_FISHING) && should_use_no_fishing_against(
            self.memories.memory(target_id),
            self.cards.hand(target),
            asker_id,
            predicate,
            self.cards.active_count(),
        ) {
            discard_no_fishing(&mut self.cards, &mut self.animations, target.with_target(asker_id), predicate);
            true
        } else {
            false
        }
    }
}

} // verus!
