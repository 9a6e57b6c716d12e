//! A computer player acting on what it chose to do on its turn.
use vstd::prelude::*;
use crate::game::animation::{lemma_first_free_in_range, Animation, AnimationAction};
use crate::game::cpu_choice::{
    likely_filler_from, non_empty_from,
    back_zingers, choice_from, choose_cpu_play, consider_order, cpu_choice_spec, front_others, zinger_choice,
    CpuChoice, ZingerToPlay,
};
use crate::game::layout::{get_card_position, in_front_of};
use crate::game::question::Question;
use crate::game::state::{CpuMenu, State};
use crate::game::zingers::{
    push_spec,
    discard_divine_intervention, discard_glass_bottom_boat, discard_lure, discard_net, first_index,
    perform_game_warden,
};
use crate::game::layout::spread;
use crate::models::{
    get_zinger_spec, Card, CardIndex, CpuId, HandId, Suit, Targeting, Zinger, DECK_SIZE, DIVINE_INTERVENTION,
    GLASS_BOTTOM_BOAT, THE_GAME_WARDEN, THE_LURE, THE_NET,
};
use crate::platform_types::unscaled::XY;

verus! {

/// The card of the zinger that `play` plays.
pub open spec fn zinger_card(play: ZingerToPlay) -> Card {
    match play {
        ZingerToPlay::DivineIntervention => DIVINE_INTERVENTION,
        ZingerToPlay::GameWarden(_) => THE_GAME_WARDEN,
        ZingerToPlay::GlassBottomBoat(_) => GLASS_BOTTOM_BOAT,
        ZingerToPlay::Net(_, _) => THE_NET,
        ZingerToPlay::Lure(_, _) => THE_LURE,
        ZingerToPlay::DoNotPlay => 0,
    }
}

proof fn lemma_back_zingers_in_hand(hand: Seq<Card>, j: int, x: Card)
    requires
        j <= hand.len(),
        back_zingers(hand, j).contains(x),
    ensures
        hand.contains(x),
    decreases j,
{
    if j > 0 {
        let head = if get_zinger_spec(hand[j - 1]) is Some {
            seq![hand[j - 1]]
        } else {
            Seq::empty()
        };
        let k = choose|k: int| 0 <= k < back_zingers(hand, j).len() && back_zingers(hand, j)[k] == x;
        if k < head.len() {
            assert(hand[j - 1] == x);
        } else {
            assert(back_zingers(hand, j - 1)[k - head.len()] == x);
            lemma_back_zingers_in_hand(hand, j - 1, x);
        }
    }
}

proof fn lemma_front_others_in_hand(hand: Seq<Card>, j: int, x: Card)
    requires
        j <= hand.len(),
        front_others(hand, j).contains(x),
    ensures
        hand.contains(x),
    decreases j,
{
    if j > 0 {
        let rest = front_others(hand, j - 1);
        let k = choose|k: int| 0 <= k < front_others(hand, j).len() && front_others(hand, j)[k] == x;
        if k < rest.len() {
            assert(rest[k] == x);
            lemma_front_others_in_hand(hand, j - 1, x);
        } else {
            assert(hand[j - 1] == x);
        }
    }
}

/// Whether `play`, chosen by the computer player `id` holding `hand`, can be
/// carried out: it holds the zinger, and the hand the zinger is aimed at is
/// another's, not empty where a card is to be taken from it.
pub open spec fn chosen_play_ok(hand: Seq<Card>, cards: crate::game::cards::Cards, id: CpuId, play: ZingerToPlay) -> bool {
    &&& hand.contains(zinger_card(play))
    &&& (play matches ZingerToPlay::GameWarden(t) ==> t != HandId::from_cpu_spec(id))
    &&& (play matches ZingerToPlay::GlassBottomBoat(t) ==> t != HandId::from_cpu_spec(id)
        && cards.hand_spec(t).len() > 0)
}

proof fn lemma_besides_not_self(me: HandId, k: int)
    requires
        0 <= k < 3,
    ensures
        me.besides_spec()[k] != me,
        me.besides_spec().len() == 3,
{
}

proof fn lemma_likely_filler_other(memories: crate::memories::Memories, id: CpuId, i: int)
    ensures
        likely_filler_from(memories, id, HandId::from_cpu_spec(id).besides_spec(), i) matches Some(t) ==> t
            != HandId::from_cpu_spec(id),
    decreases 3 - i,
{
    let me = HandId::from_cpu_spec(id);
    if 0 <= i < 3 {
        lemma_besides_not_self(me, i);
        lemma_likely_filler_other(memories, id, i + 1);
    }
}

proof fn lemma_non_empty_other(cards: crate::game::cards::Cards, id: CpuId, offset: int, count: int)
    requires
        0 <= offset < 3,
    ensures
        non_empty_from(cards, HandId::from_cpu_spec(id).besides_spec(), offset, count) matches Some(t) ==> t
            != HandId::from_cpu_spec(id) && cards.hand_spec(t).len() > 0,
    decreases 3 - count,
{
    let me = HandId::from_cpu_spec(id);
    if 0 <= count < 3 {
        lemma_besides_not_self(me, (count + offset) % 3);
        lemma_non_empty_other(cards, id, offset, count + 1);
    }
}

proof fn lemma_zinger_choice_ok(
    zinger: Zinger,
    cards: crate::game::cards::Cards,
    stack: Seq<crate::game::play::Play>,
    memories: crate::memories::Memories,
    id: CpuId,
    done: bool,
    boat_offset: int,
)
    ensures
        match zinger_choice(zinger, cards, stack, memories, id, done, boat_offset) {
            Some(play) => zinger_card(play) == 65 + zinger.index() && (0 <= boat_offset < 3 ==> (play matches ZingerToPlay::GameWarden(t) ==> t
                != HandId::from_cpu_spec(id)) && (play matches ZingerToPlay::GlassBottomBoat(t) ==> t
                != HandId::from_cpu_spec(id) && cards.hand_spec(t).len() > 0)),
            None => true,
        },
{
    lemma_likely_filler_other(memories, id, 0);
    if 0 <= boat_offset < 3 {
        lemma_non_empty_other(cards, id, boat_offset, 0);
    }
}

/// A zinger that a computer player chooses to play is one it holds.
proof fn lemma_chosen_zinger_held(
    hand: Seq<Card>,
    k: int,
    cards: crate::game::cards::Cards,
    stack: Seq<crate::game::play::Play>,
    memories: crate::memories::Memories,
    id: CpuId,
    done: bool,
    target_choice: int,
    suit: Suit,
    boat_offset: int,
)
    requires
        0 <= k,
        0 <= boat_offset < 3,
    ensures
        match choice_from(consider_order(hand), k, cards, stack, memories, id, done, target_choice, suit, boat_offset) {
            CpuChoice::Zinger(play) => play != ZingerToPlay::DoNotPlay ==> chosen_play_ok(hand, cards, id, play),
            _ => true,
        },
    decreases consider_order(hand).len() - k,
{
    let ordered = consider_order(hand);
    if k < ordered.len() {
        match crate::models::get_rank_spec(ordered[k]) {
            Some(_) => {},
            None => match get_zinger_spec(ordered[k]) {
                Some(zinger) => match zinger_choice(zinger, cards, stack, memories, id, done, boat_offset) {
                    Some(play) => {
                        lemma_zinger_choice_ok(zinger, cards, stack, memories, id, done, boat_offset);
                        assert(ordered[k] == zinger_card(play));
                        assert(ordered.contains(ordered[k]));
                        let nz = back_zingers(hand, hand.len() as int).len();
                        if k < nz {
                            assert(back_zingers(hand, hand.len() as int)[k] == ordered[k]);
                            lemma_back_zingers_in_hand(hand, hand.len() as int, ordered[k]);
                        } else {
                            assert(front_others(hand, hand.len() as int)[k - nz] == ordered[k]);
                            lemma_front_others_in_hand(hand, hand.len() as int, ordered[k]);
                        }
                    },
                    None => lemma_chosen_zinger_held(hand, k + 1, cards, stack, memories, id, done, target_choice, suit, boat_offset),
                },
                None => lemma_chosen_zinger_held(hand, k + 1, cards, stack, memories, id, done, target_choice, suit, boat_offset),
            },
        }
    }
}

pub proof fn lemma_two_pushes_keep_slots(slots: Seq<Animation>)
    ensures
        forall|a: Animation, b: Animation| #[trigger] push_spec(push_spec(slots, a), b).len() == slots.len(),
        forall|a: Animation| #[trigger] push_spec(slots, a).len() == slots.len(),
{
    assert forall|a: Animation, b: Animation| #[trigger] push_spec(push_spec(slots, a), b).len() == slots.len() by {
        lemma_first_free_in_range(slots, 0);
        lemma_first_free_in_range(push_spec(slots, a), 0);
    }
    assert forall|a: Animation| #[trigger] push_spec(slots, a).len() == slots.len() by {
        lemma_first_free_in_range(slots, 0);
    }
}

impl State {
    /// The computer player `id`, on its turn and with nothing asked yet, does
    /// what `cpu_choice_spec` says: with `DoNotPlay` or an empty hand it is
    /// dead in the water; a question becomes its question; a zinger is played.
    /// `target_choice`, `suit` and `boat_offset` are as for `choose_cpu_play`;
    /// `roll` picks the card that the Game Warden or the Glass Bottom Boat
    /// takes, as its remainder by the size of the hand it comes from.
    pub fn cpu_select(&mut self, id: CpuId, target_choice: usize, suit: Suit, boat_offset: usize, roll: u32)
        requires
            old(self).well_formed(),
            old(self).cards.well_formed(),
            target_choice < 3,
            boat_offset < 3,
            forall|h: HandId, i: int|
                0 <= i < old(self).cards.hand_spec(h).len() ==> #[trigger] old(self).cards.hand_spec(h)[i] < DECK_SIZE,
        ensures
            final(self).well_formed(),
            ({
                let hand_id = HandId::from_cpu_spec(id);
                let choice = cpu_choice_spec(
                    old(self).cards,
                    old(self).stack@,
                    old(self).memories,
                    id,
                    old(self).done_something_this_turn,
                    target_choice as int,
                    suit,
                    boat_offset as int,
                );
                let hand = old(self).cards.hand_spec(hand_id);
                match choice {
                    CpuChoice::DeadInTheWater => final(self).cpu_menu is DeadInTheWater && final(self).cards
                        == old(self).cards,
                    CpuChoice::Zinger(ZingerToPlay::DoNotPlay) => final(self).cpu_menu is DeadInTheWater
                        && final(self).cards == old(self).cards,
                    CpuChoice::Ask(targeting, predicate) => (final(self).cpu_menu matches CpuMenu::Asking(q)
                        && q.targeting == targeting && q.predicate == predicate)
                        && final(self).done_something_this_turn && final(self).cards == old(self).cards,
                    CpuChoice::Zinger(play) => {
                        &&& final(self).cpu_menu == old(self).cpu_menu
                        &&& final(self).cards.hand_spec(hand_id) == (match play {
                            ZingerToPlay::GameWarden(_) => final(self).cards.hand_spec(hand_id),
                            _ => hand.remove(first_index(hand, zinger_card(play))),
                        })
                        &&& (play matches ZingerToPlay::GlassBottomBoat(target) ==> final(self).cards.hand_spec(
                            target,
                        ) == old(self).cards.hand_spec(target).remove(
                            (roll % (old(self).cards.hand_spec(target).len() as u32)) as int,
                        ))
                    },
                }
            }),
    {
        proof {
            lemma_two_pushes_keep_slots(self.animations.slots());
            lemma_first_free_in_range(self.animations.slots(), 0);
        }
        let hand_id = HandId::from(id);
        let choice = choose_cpu_play(
            &self.cards,
            self.stack.as_slice(),
            &self.memories,
            id,
            self.done_something_this_turn,
            target_choice,
            suit,
            boat_offset,
        );
        proof {
            let hand = self.cards.hand_spec(hand_id);
            if hand.len() > 0 && self.memories.memory_spec(id).informed_question_spec(hand, hand_id) is None {
                lemma_chosen_zinger_held(
                    hand,
                    0,
                    self.cards,
                    self.stack@,
                    self.memories,
                    id,
                    self.done_something_this_turn,
                    target_choice as int,
                    suit,
                    boat_offset as int,
                );
            }
        }
        match choice {
            CpuChoice::DeadInTheWater => {
                self.cpu_menu = CpuMenu::DeadInTheWater;
            },
            CpuChoice::Ask(targeting, predicate) => {
                self.cpu_menu = CpuMenu::Asking(Question::new(targeting, predicate));
                self.done_something_this_turn = true;
            },
            CpuChoice::Zinger(play) => match play {
                ZingerToPlay::DoNotPlay => {
                    self.cpu_menu = CpuMenu::DeadInTheWater;
                },
                ZingerToPlay::DivineIntervention => {
                    discard_divine_intervention(&mut self.cards, &mut self.animations, hand_id);
                },
                ZingerToPlay::Net(target, predicate) => {
                    discard_net(&mut self.cards, &mut self.animations, Targeting { source: hand_id, target }, predicate);
                },
                ZingerToPlay::Lure(target, predicate) => {
                    discard_lure(&mut self.cards, &mut self.animations, Targeting { source: hand_id, target }, predicate);
                },
                ZingerToPlay::GameWarden(target) => {
                    let len = self.cards.hand(target).len();
                    let pick: CardIndex = if len > 0 {
                        (roll % (len as u32)) as CardIndex
                    } else {
                        0
                    };
                    let _ = perform_game_warden(
                        &mut self.cards,
                        &mut self.animations,
                        pick,
                        Targeting { source: hand_id, target },
                    );
                },
                ZingerToPlay::GlassBottomBoat(target) => {
                    let len = self.cards.hand(target).len();
                    let i: CardIndex = (roll % (len as u32)) as CardIndex;
                    let card = match self.cards.hand_mut(target).remove(i) {
                        Some(card) => card,
                        None => {
                            assert(false);
                            0
                        },
                    };
                    let left = self.cards.hand(target).len();
                    let at = get_card_position(spread(target), left, i);
                    self.memories.memory_mut(id).known(target, card);
                    let to = in_front_of(target);
                    self.animations.push(
                        Animation {
                            card,
                            at,
                            target: to,
                            action: AnimationAction::AnimateBackToHand(target),
                            delay: 0,
                            shown: target == HandId::Player,
                        },
                    );
                    proof {
                        lemma_first_free_in_range(self.animations.slots(), 0);
                    }
                    discard_glass_bottom_boat(&mut self.cards, &mut self.animations, hand_id);
                },
            },
        }
    }
}

} // verus!
