//! A computer player's chance to respond to a play: it plays an anytime zinger
//! that `anytime_play` picks, or lets the chance pass.
use vstd::prelude::*;
use crate::game::animation::{lemma_first_free_in_range, Animation, AnimationAction};
use crate::game::anytime::{almost_complete_spec, no_full_basket, rank_indices};
use crate::game::anytime_play::{
    acb_of, anytime_play, anytime_play_from, others_only, card_play, first_likely_from, first_nonempty_from,
    first_single_from, last_basket_from, lemma_last_basket_some, pick_target, AnytimePlay, AnytimePlaySelection,
};
use crate::game::baskets::lemma_rank_indices;
use crate::game::layout::{get_card_position, in_front_of, spread};
use crate::game::state::State;
use crate::game::cpu_select::lemma_two_pushes_keep_slots;
use crate::game::zingers::{
    discard_glass_bottom_boat, kept_after, perform_game_warden, taken_after, play_dead_scuba_diver, play_divine_intervention, push_spec,
    scuba_positions,
};
use crate::memories::Memory;
use crate::game::cards::Cards;
use crate::game::play::Play;
use crate::memories::Memories;
use crate::models::{
    get_rank_spec, AlmostCompleteBasket, Card, CardIndex, CpuId, HandId, Rank, Targeting, DEAD_SCUBA_DIVER,
    DECK_SIZE, DIVINE_INTERVENTION, GLASS_BOTTOM_BOAT, THE_GAME_WARDEN,
};

verus! {


proof fn lemma_first_single_listed(cards: Cards, order: Seq<HandId>, i: int)
    ensures
        first_single_from(cards, order, i) matches Some(t) ==> exists|k: int| 0 <= k < 3 && #[trigger] order[k] == t,
    decreases 3 - i,
{
    if 0 <= i < 3 && cards.hand_spec(order[i]).len() != 1 {
        lemma_first_single_listed(cards, order, i + 1);
    }
}

proof fn lemma_first_nonempty_listed(cards: Cards, order: Seq<HandId>, i: int)
    ensures
        first_nonempty_from(cards, order, i) matches Some(t) ==> exists|k: int| 0 <= k < 3 && #[trigger] order[k] == t,
    decreases 3 - i,
{
    if 0 <= i < 3 && !(cards.hand_spec(order[i]).len() > 0) {
        lemma_first_nonempty_listed(cards, order, i + 1);
    }
}

proof fn lemma_first_likely_listed(memory: Memory, order: Seq<HandId>, i: int)
    ensures
        first_likely_from(memory, order, i) matches Some(t) ==> exists|k: int| 0 <= k < 3 && #[trigger] order[k] == t,
    decreases 3 - i,
{
    if 0 <= i < 3 && !(memory.likely_rank_from(order[i], 12) is Some) {
        lemma_first_likely_listed(memory, order, i + 1);
    }
}

/// The hand that the game warden or the glass bottom boat is aimed at is one
/// of `order`.
proof fn lemma_pick_target_listed(cards: Cards, memory: Memory, order: Seq<HandId>, me: HandId)
    requires
        others_only(order, me),
    ensures
        pick_target(cards, memory, order) matches Some(t) ==> t != me,
{
    lemma_first_single_listed(cards, order, 0);
    lemma_first_nonempty_listed(cards, order, 0);
    lemma_first_likely_listed(memory, order, 0);
}

/// What `anytime_play_from` picks is what one card of the hand gives.
proof fn lemma_anytime_witness(
    cards: Cards,
    memories: Memories,
    stack: Seq<Play>,
    id: CpuId,
    wo: Seq<HandId>,
    bo: Seq<HandId>,
    i: int,
)
    requires
        0 <= i,
    ensures
        match anytime_play_from(cards, memories, stack, id, wo, bo, i) {
            Some(sel) => exists|k: int|
                i <= k < cards.hand_spec(HandId::from_cpu_spec(id)).len() && #[trigger] card_play(
                    cards,
                    memories,
                    stack,
                    id,
                    wo,
                    bo,
                    k,
                    cards.hand_spec(HandId::from_cpu_spec(id))[k],
                ) == Some(sel),
            None => true,
        },
    decreases cards.hand_spec(HandId::from_cpu_spec(id)).len() - i,
{
    let hand = cards.hand_spec(HandId::from_cpu_spec(id));
    if i < hand.len() {
        if card_play(cards, memories, stack, id, wo, bo, i, hand[i]) is None {
            lemma_anytime_witness(cards, memories, stack, id, wo, bo, i + 1);
        }
    }
}

proof fn lemma_last_basket_listed(acb: Seq<Option<AlmostCompleteBasket>>, r: int)
    ensures
        last_basket_from(acb, r) matches Some(b) ==> exists|w: int| 0 <= w <= r && #[trigger] acb[w] == Some(b),
    decreases r + 1,
{
    if r >= 0 && acb[r] is None {
        lemma_last_basket_listed(acb, r - 1);
    }
}

/// The dead scuba diver at `i` and the almost complete basket that
/// `anytime_play` plays it on are five different positions of the hand.
proof fn lemma_scuba_positions_valid(hand: Seq<Card>, i: int)
    requires
        0 <= i < hand.len() <= DECK_SIZE,
        hand[i] == DEAD_SCUBA_DIVER,
        acb_of(hand) is Some,
    ensures
        last_basket_from(almost_complete_spec(hand), 12) is Some,
        ({
            let pos = scuba_positions(last_basket_from(almost_complete_spec(hand), 12)->0, i as CardIndex);
            &&& forall|j: int, k: int| 0 <= j < k < 5 ==> pos[j] != pos[k]
            &&& forall|j: int| 0 <= j < 5 ==> #[trigger] pos[j] < hand.len()
        }),
{
    let acb = almost_complete_spec(hand);
    let r0 = choose|r: int| 0 <= r < 13 && #[trigger] acb[r] is Some;
    lemma_last_basket_some(acb, 12, r0);
    lemma_last_basket_listed(acb, 12);
    let b = last_basket_from(acb, 12)->0;
    let w = choose|w: int| 0 <= w <= 12 && #[trigger] acb[w] == Some(b);
    let rank = Rank::from_index(w);
    let idx = rank_indices(hand, rank);
    lemma_rank_indices(hand, rank);
    assert(idx.len() == 4);
    assert(b@[0] == idx[0] && b@[1] == idx[1] && b@[2] == idx[2] && b@[3] == idx[3]);
    assert(get_rank_spec(hand[i]) is None);
    let pos = scuba_positions(b, i as CardIndex);
    assert forall|j: int| 0 <= j < 4 implies #[trigger] pos[j] != i as CardIndex by {
        assert(pos[j] == idx[j]);
        assert(get_rank_spec(hand[idx[j] as int]) == Some(rank));
    }
}

impl State {
    /// The computer player `responder` gets its chance to respond: it plays
    /// what `anytime_play` picks, given `warden_order` and `boat_order`, which
    /// are meant to be random orders of the other hands. `roll` picks the card
    /// that the Game Warden or the Glass Bottom Boat takes, as its remainder by
    /// the size of the hand it comes from. Divine intervention needs a play on
    /// the stack that it can answer. Returns whether it played something; if
    /// not, the chance passes.
    pub fn cpu_respond(
        &mut self,
        responder: CpuId,
        warden_order: &[HandId; 3],
        boat_order: &[HandId; 3],
        roll: u32,
    ) -> (responded: bool)
        requires
            old(self).well_formed(),
            old(self).cards.well_formed(),
            no_full_basket(old(self).cards.hand_spec(HandId::from_cpu_spec(responder))),
            others_only(warden_order@, HandId::from_cpu_spec(responder)),
            others_only(boat_order@, HandId::from_cpu_spec(responder)),
            forall|h: HandId, i: int|
                0 <= i < old(self).cards.hand_spec(h).len() ==> #[trigger] old(self).cards.hand_spec(h)[i] < DECK_SIZE,
            match anytime_play_from(
                old(self).cards,
                old(self).memories,
                old(self).stack@,
                responder,
                warden_order@,
                boat_order@,
                0,
            ) {
                Some(AnytimePlaySelection::GameWarden(t)) => old(self).cards.hand_spec(t).len() > 0,
                Some(AnytimePlaySelection::GlassBottomBoat(t)) => old(self).cards.hand_spec(t).len() > 0,
                _ => true,
            },
        ensures
            final(self).well_formed(),
            final(self).turn_id == old(self).turn_id,
            final(self).cpu_menu == old(self).cpu_menu,
            ({
                let me = HandId::from_cpu_spec(responder);
                let hand = old(self).cards.hand_spec(me);
                if hand.len() == 0 {
                    !responded && final(self).cards == old(self).cards && final(self).stack == old(self).stack
                } else {
                    match anytime_play_from(
                        old(self).cards,
                        old(self).memories,
                        old(self).stack@,
                        responder,
                        warden_order@,
                        boat_order@,
                        0,
                    ) {
                        None => !responded && final(self).cards == old(self).cards && final(self).stack
                            == old(self).stack,
                        Some(AnytimePlaySelection::DivineIntervention) => responded == (old(self).stack@.len() > 0
                            && old(self).stack@.last().kind.divine_target_spec() is Some),
                        Some(AnytimePlaySelection::DeadScubaDiver(basket, i)) => responded
                            && final(self).cards.hand_spec(me) == kept_after(hand, scuba_positions(basket, i), 0)
                            && final(self).cards.baskets_spec(me) == old(self).cards.baskets_spec(me) + taken_after(
                            hand,
                            scuba_positions(basket, i),
                            0,
                        ),
                        Some(AnytimePlaySelection::GlassBottomBoat(t)) => responded && final(self).cards.hand_spec(
                            t,
                        ) == old(self).cards.hand_spec(t).remove(
                            (roll % (old(self).cards.hand_spec(t).len() as u32)) as int,
                        ),
                        Some(AnytimePlaySelection::GameWarden(t)) => responded,
                    }
                }
            }),
    {
        proof {
            lemma_first_free_in_range(self.animations.slots(), 0);
            lemma_two_pushes_keep_slots(self.animations.slots());
        }
        let me = HandId::from(responder);
        if self.cards.hand(me).is_empty() {
            return false;
        }
        let choice = anytime_play(warden_order, boat_order, self.stack.as_slice(), &self.cards, &self.memories, responder);
        let ghost hand = self.cards.hand_spec(me);
        proof {
            lemma_anytime_witness(self.cards, self.memories, self.stack@, responder, warden_order@, boat_order@, 0);
            lemma_pick_target_listed(self.cards, self.memories.memory_spec(responder), warden_order@, me);
            lemma_pick_target_listed(self.cards, self.memories.memory_spec(responder), boat_order@, me);
        }
        match choice {
            None => false,
            Some(AnytimePlay { selection }) => {
                let ghost k = choose|k: int|
                    0 <= k < hand.len() && #[trigger] card_play(
                        self.cards,
                        self.memories,
                        self.stack@,
                        responder,
                        warden_order@,
                        boat_order@,
                        k,
                        hand[k],
                    ) == Some(selection);
                match selection {
                    AnytimePlaySelection::GameWarden(target) => {
                        assert(hand[k] == THE_GAME_WARDEN);
                        assert(hand.contains(THE_GAME_WARDEN));
                        let len = self.cards.hand(target).len();
                        let pick: CardIndex = (roll % (len as u32)) as CardIndex;
                        let done = perform_game_warden(
                            &mut self.cards,
                            &mut self.animations,
                            pick,
                            Targeting { source: me, target },
                        );
                        done.is_some()
                    },
                    AnytimePlaySelection::GlassBottomBoat(target) => {
                        assert(hand[k] == GLASS_BOTTOM_BOAT);
                        assert(hand.contains(GLASS_BOTTOM_BOAT));
                        let len = self.cards.hand(target).len();
                        let i: CardIndex = (roll % (len as u32)) as CardIndex;
                        let card = match self.cards.hand_mut(target).remove(i) {
                            Some(card) => card,
                            None => {
                                assert(false);
                                0
                            },
                        };
                        self.memories.memory_mut(responder).known(target, card);
                        let left = self.cards.hand(target).len();
                        let at = get_card_position(spread(target), left, i);
                        let to = in_front_of(me);
                        self.animations.push(
                            Animation {
                                card,
                                at,
                                target: to,
                                action: AnimationAction::AnimateBackToHand(target),
                                delay: 0,
                                shown: false,
                            },
                        );
                        proof {
                            lemma_first_free_in_range(self.animations.slots(), 0);
                        }
                        discard_glass_bottom_boat(&mut self.cards, &mut self.animations, me);
                        true
                    },
                    AnytimePlaySelection::DeadScubaDiver(basket, scuba_i) => {
                        proof {
                            assert(hand[k] == DEAD_SCUBA_DIVER);
                            lemma_scuba_positions_valid(hand, k);
                        }
                        play_dead_scuba_diver(&mut self.cards, me, basket, scuba_i);
                        true
                    },
                    AnytimePlaySelection::DivineIntervention => {
                        assert(hand[k] == DIVINE_INTERVENTION);
                        assert(hand.contains(DIVINE_INTERVENTION));
                        let n = self.stack.len();
                        if n == 0 {
                            return false;
                        }
                        match self.stack[n - 1].kind.divine_target() {
                            Ok(divine_target) => {
                                play_divine_intervention(
                                    &mut self.cards,
                                    &mut self.animations,
                                    &mut self.stack,
                                    me,
                                    divine_target,
                                );
                                true
                            },
                            Err(_) => false,
                        }
                    },
                }
            },
        }
    }
}

} // verus!
