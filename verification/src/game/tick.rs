//! One frame of the cards' movement: every animation moves on, and each card
//! that arrives is put where it was headed.
use vstd::prelude::*;
use vstd::multiset::Multiset;
use crate::game::animation::{
    advance_spec, lemma_first_free_in_range, AfterDiscard, Animation, AnimationAction, Animations,
};
use crate::game::baskets::{collect_baskets, collected, first_basket_from, lemma_first_basket_some, lemma_rank_indices, remove_basket_spec};
use crate::game::anytime::rank_indices;
use crate::game::layout::{card_position_spec, get_card_insert_position, spread, spread_spec};
use crate::game::play::Play;
use crate::game::state::{CpuMenu, State};
use crate::game::zingers::push_spec;
use crate::models::{Card, CardInner, CpuId, Hand, HandId, DECK_SIZE};
use crate::platform_types::unscaled::XY;
use crate::platform_types::{Speaker, SFX};

verus! {

/// Whether `card` can be put on `pile`. Every card is in one place at a time,
/// so with all the deck's cards in play a pile always has room.
pub open spec fn fits(pile: Seq<Card>, card: Card) -> bool {
    pile.len() < DECK_SIZE && card < CardInner::MAX
}

/// The piles, in the order of `Cards::piles`, after `card` lands in the hand of
/// `id`: the card goes last, then the complete baskets are taken out.
pub open spec fn piles_after_add_to_hand(piles: Seq<Seq<Card>>, id: HandId, card: Card) -> Seq<Seq<Card>> {
    let h = 1 + id.index();
    let b = 5 + id.index();
    if !fits(piles[h], card) {
        piles
    } else if piles[h].len() + 1 + piles[b].len() <= DECK_SIZE {
        let (hand, baskets) = collected(piles[h].push(card), piles[b]);
        piles.update(h, hand).update(b, baskets)
    } else {
        piles.update(h, piles[h].push(card))
    }
}

/// The piles after `card` is put on top of pile `k`.
pub open spec fn piles_after_push(piles: Seq<Seq<Card>>, k: int, card: Card) -> Seq<Seq<Card>> {
    if fits(piles[k], card) {
        piles.update(k, piles[k].push(card))
    } else {
        piles
    }
}

/// The piles after `card` arrives with `action`.
pub open spec fn piles_after_arrival(piles: Seq<Seq<Card>>, card: Card, action: AnimationAction) -> Seq<Seq<Card>> {
    match action {
        AnimationAction::AddToHand(id) => piles_after_add_to_hand(piles, id, card),
        AnimationAction::PerformGameWarden => piles_after_push(piles, 0, card),
        AnimationAction::AddToDiscard(_) => piles_after_push(piles, 9, card),
        _ => piles,
    }
}

/// The piles after the animations in the listed slots arrive, in order.
pub open spec fn piles_after_arrivals(piles: Seq<Seq<Card>>, slots: Seq<Animation>, arrivals: Seq<usize>) -> Seq<Seq<Card>>
    decreases arrivals.len(),
{
    if arrivals.len() == 0 {
        piles
    } else {
        let last = slots[arrivals.last() as int];
        piles_after_arrival(piles_after_arrivals(piles, slots, arrivals.drop_last()), last.card, last.action)
    }
}

/// Whether `after` is `before` followed by card-landing sounds only.
pub open spec fn only_card_sounds_added(before: Seq<SFX>, after: Seq<SFX>) -> bool {
    &&& before.len() <= after.len()
    &&& after.take(before.len() as int) == before
    &&& forall|k: int| before.len() <= k < after.len() ==> after[k] == SFX::CardPlace
}

/// The number of cards in the ten piles together.
pub open spec fn piles_total(piles: Seq<Seq<Card>>) -> int {
    (piles[0].len() + piles[1].len() + piles[2].len() + piles[3].len() + piles[4].len() + piles[5].len()
        + piles[6].len() + piles[7].len() + piles[8].len() + piles[9].len()) as int
}

/// Whether `card`, arriving with `action`, lands on a pile.
pub open spec fn lands(piles: Seq<Seq<Card>>, card: Card, action: AnimationAction) -> bool {
    match action {
        AnimationAction::AddToHand(id) => fits(piles[1 + id.index()], card),
        AnimationAction::PerformGameWarden => fits(piles[0], card),
        AnimationAction::AddToDiscard(_) => fits(piles[9], card),
        _ => false,
    }
}

/// Taking complete baskets out of a hand keeps every card: they go to the
/// baskets.
pub proof fn lemma_collected_keeps_cards(hand: Seq<Card>, baskets: Seq<Card>)
    requires
        hand.len() <= 256,
    ensures
        collected(hand, baskets).0.len() + collected(hand, baskets).1.len() == hand.len() + baskets.len(),
    decreases hand.len(),
{
    match remove_basket_spec(hand) {
        None => {},
        Some((basket, rest)) => {
            let rank = first_basket_from(hand, 0)->0;
            lemma_first_basket_some(hand, 0);
            lemma_rank_indices(hand, rank);
            let idx = rank_indices(hand, rank);
            assert(idx[0] < idx[1] && idx[1] < idx[2] && idx[2] < idx[3] && idx[3] < idx[4]);
            assert(idx[4] < hand.len());
            assert(rest.len() + 5 == hand.len());
            lemma_collected_keeps_cards(rest, baskets + basket@);
        },
    }
}

/// A card that arrives lands on exactly one pile, unless it does not fit;
/// no other card is lost or made on the way.
pub proof fn lemma_arrival_keeps_cards(piles: Seq<Seq<Card>>, card: Card, action: AnimationAction)
    requires
        piles.len() == 10,
        forall|k: int| 0 <= k < 10 ==> #[trigger] piles[k].len() <= DECK_SIZE,
    ensures
        piles_after_arrival(piles, card, action).len() == 10,
        piles_total(piles_after_arrival(piles, card, action)) == piles_total(piles) + if lands(
            piles,
            card,
            action,
        ) {
            1int
        } else {
            0int
        },
{
    match action {
        AnimationAction::AddToHand(id) => {
            let h = 1 + id.index();
            let b = 5 + id.index();
            if fits(piles[h], card) && piles[h].len() + 1 + piles[b].len() <= DECK_SIZE {
                lemma_collected_keeps_cards(piles[h].push(card), piles[b]);
            }
        },
        _ => {},
    }
}

/// The cards of the ten piles together, each as often as it is held.
pub open spec fn piles_cards(piles: Seq<Seq<Card>>) -> Multiset<Card> {
    piles[0].to_multiset().add(piles[1].to_multiset()).add(piles[2].to_multiset()).add(
        piles[3].to_multiset(),
    ).add(piles[4].to_multiset()).add(piles[5].to_multiset()).add(piles[6].to_multiset()).add(
        piles[7].to_multiset(),
    ).add(piles[8].to_multiset()).add(piles[9].to_multiset())
}

/// Taking a complete basket out of a hand moves its five cards and no other.
proof fn lemma_basket_keeps_cards(hand: Seq<Card>)
    requires
        hand.len() <= 256,
        remove_basket_spec(hand) is Some,
    ensures
        ({
            let (basket, rest) = remove_basket_spec(hand)->0;
            rest.to_multiset().add(basket@.to_multiset()) =~= hand.to_multiset()
        }),
{
    broadcast use vstd::seq_lib::group_to_multiset_ensures;
    let rank = first_basket_from(hand, 0)->0;
    lemma_first_basket_some(hand, 0);
    lemma_rank_indices(hand, rank);
    let idx = rank_indices(hand, rank);
    let (a, b, c, d, e) = (idx[0] as int, idx[1] as int, idx[2] as int, idx[3] as int, idx[4] as int);
    assert(a < b && b < c && c < d && d < e && e < hand.len());
    let r1 = hand.remove(e);
    let r2 = r1.remove(d);
    let r3 = r2.remove(c);
    let r4 = r3.remove(b);
    let r5 = r4.remove(a);
    assert(r1[d] == hand[d]);
    assert(r2[c] == hand[c]);
    assert(r3[b] == hand[b]);
    assert(r4[a] == hand[a]);
    let (basket, _rest) = remove_basket_spec(hand)->0;
    assert(basket@ =~= Seq::<Card>::empty().push(hand[e]).push(hand[d]).push(hand[c]).push(hand[b]).push(hand[a]));
    let s0 = Seq::<Card>::empty();
    assert(s0.to_multiset() =~= Multiset::empty());
}

/// Taking complete baskets out of a hand keeps every card: each goes to the
/// baskets, and none is made or lost.
pub proof fn lemma_collected_keeps_each_card(hand: Seq<Card>, baskets: Seq<Card>)
    requires
        hand.len() <= 256,
    ensures
        collected(hand, baskets).0.to_multiset().add(collected(hand, baskets).1.to_multiset()) =~= hand.to_multiset().add(
            baskets.to_multiset(),
        ),
    decreases hand.len(),
{
    broadcast use vstd::seq_lib::group_to_multiset_ensures;
    match remove_basket_spec(hand) {
        None => {},
        Some((basket, rest)) => {
            if rest.len() < hand.len() {
                lemma_basket_keeps_cards(hand);
                lemma_collected_keeps_each_card(rest, baskets + basket@);
                vstd::seq_lib::lemma_multiset_commutative(baskets, basket@);
            }
        },
    }
}

/// A card that arrives lands on exactly one pile, unless it does not fit: no
/// card of the piles is lost, duplicated or made on the way.
pub proof fn lemma_arrival_keeps_each_card(piles: Seq<Seq<Card>>, card: Card, action: AnimationAction)
    requires
        piles.len() == 10,
        forall|k: int| 0 <= k < 10 ==> #[trigger] piles[k].len() <= DECK_SIZE,
    ensures
        piles_cards(piles_after_arrival(piles, card, action)) =~= if lands(piles, card, action) {
            piles_cards(piles).insert(card)
        } else {
            piles_cards(piles)
        },
{
    broadcast use vstd::seq_lib::group_to_multiset_ensures;
    broadcast use vstd::multiset::group_multiset_axioms;
    let after = piles_after_arrival(piles, card, action);
    match action {
        AnimationAction::AddToHand(id) => {
            let h = 1 + id.index();
            let b = 5 + id.index();
            if fits(piles[h], card) {
                let hand = piles[h].push(card);
                assert(hand.to_multiset() =~= piles[h].to_multiset().insert(card));
                if piles[h].len() + 1 + piles[b].len() <= DECK_SIZE {
                    lemma_collected_keeps_each_card(hand, piles[b]);
                    let (nh, nb) = collected(hand, piles[b]);
                    assert forall|x: Card| #[trigger] piles_cards(after).count(x) == piles_cards(piles).insert(
                        card,
                    ).count(x) by {
                        assert(nh.to_multiset().add(nb.to_multiset()).count(x) == hand.to_multiset().add(
                            piles[b].to_multiset(),
                        ).count(x));
                    }
                } else {
                    assert forall|x: Card| #[trigger] piles_cards(after).count(x) == piles_cards(piles).insert(
                        card,
                    ).count(x) by {}
                }
            }
        },
        AnimationAction::PerformGameWarden => {
            if fits(piles[0], card) {
                assert(piles[0].push(card).to_multiset() =~= piles[0].to_multiset().insert(card));
            }
        },
        AnimationAction::AddToDiscard(_) => {
            if fits(piles[9], card) {
                assert(piles[9].push(card).to_multiset() =~= piles[9].to_multiset().insert(card));
            }
        },
        _ => {},
    }
}

/// The cards of the animations in the listed slots, each as often as listed.
pub open spec fn arrived_cards(slots: Seq<Animation>, arrivals: Seq<usize>) -> Multiset<Card>
    decreases arrivals.len(),
{
    if arrivals.len() == 0 {
        Multiset::empty()
    } else {
        arrived_cards(slots, arrivals.drop_last()).insert(slots[arrivals.last() as int].card)
    }
}

/// Whether a card arriving with `action` is put on a pile.
pub open spec fn goes_on_a_pile(action: AnimationAction) -> bool {
    action is AddToHand || action is PerformGameWarden || action is AddToDiscard
}

/// Where the piles have room for every card that arrives, each of those cards
/// is on the piles once they have arrived, and no other card comes or goes:
/// the piles hold what they held and the arrived cards, each as often.
pub proof fn lemma_arrivals_keep_each_card(piles: Seq<Seq<Card>>, slots: Seq<Animation>, arrivals: Seq<usize>)
    requires
        piles.len() == 10,
        piles_total(piles) + arrivals.len() <= DECK_SIZE,
        forall|k: int|
            0 <= k < arrivals.len() ==> #[trigger] arrivals[k] < slots.len() && slots[arrivals[k] as int].card
                < CardInner::MAX && goes_on_a_pile(slots[arrivals[k] as int].action),
    ensures
        piles_after_arrivals(piles, slots, arrivals).len() == 10,
        piles_total(piles_after_arrivals(piles, slots, arrivals)) == piles_total(piles) + arrivals.len(),
        piles_cards(piles_after_arrivals(piles, slots, arrivals)) =~= piles_cards(piles).add(
            arrived_cards(slots, arrivals),
        ),
    decreases arrivals.len(),
{
    broadcast use vstd::multiset::group_multiset_axioms;
    if arrivals.len() > 0 {
        let rest = arrivals.drop_last();
        assert forall|k: int| 0 <= k < rest.len() implies #[trigger] rest[k] < slots.len() && slots[rest[k] as int].card
            < CardInner::MAX && goes_on_a_pile(slots[rest[k] as int].action) by {
            assert(rest[k] == arrivals[k]);
        }
        lemma_arrivals_keep_each_card(piles, slots, rest);
        let mid = piles_after_arrivals(piles, slots, rest);
        let last = slots[arrivals.last() as int];
        assert(arrivals.last() == arrivals[arrivals.len() - 1]);
        assert forall|k: int| 0 <= k < 10 implies #[trigger] mid[k].len() <= DECK_SIZE by {
            assert(mid[k].len() <= piles_total(mid));
        }
        lemma_arrival_keeps_cards(mid, last.card, last.action);
        lemma_arrival_keeps_each_card(mid, last.card, last.action);
        assert(lands(mid, last.card, last.action));
    } else {
        assert(piles_cards(piles).add(Multiset::empty()) =~= piles_cards(piles));
    }
}

/// The cards of the first `i` slots whose animation is still running, each as
/// often as it is moving.
pub open spec fn busy_cards(slots: Seq<Animation>, i: int) -> Multiset<Card>
    decreases i,
{
    if i <= 0 {
        Multiset::empty()
    } else if !slots[i - 1].is_done_spec() {
        busy_cards(slots, i - 1).insert(slots[i - 1].card)
    } else {
        busy_cards(slots, i - 1)
    }
}

/// Moving the animations on a frame keeps every moving card: it still moves,
/// or it has just arrived.
pub proof fn lemma_advance_keeps_each_card(slots: Seq<Animation>, i: int)
    requires
        0 <= i <= slots.len() <= 73,
    ensures
        busy_cards(slots, i) =~= busy_cards(advanced_upto(slots, slots.len() as int), i).add(
            arrived_cards(advanced_upto(slots, slots.len() as int), arrivals_upto(slots, i)),
        ),
    decreases i,
{
    broadcast use vstd::multiset::group_multiset_axioms;
    let adv = advanced_upto(slots, slots.len() as int);
    if i > 0 {
        lemma_advance_keeps_each_card(slots, i - 1);
        let prev = arrivals_upto(slots, i - 1);
        let a = slots[i - 1];
        let b = advance_spec(a).0;
        assert(adv[i - 1] == b);
        assert(b.card == a.card);
        if a.is_done_spec() {
            assert(b == a);
        } else if a.delay > 0 {
            assert(b.at == a.at && b.target == a.target);
        }
        assert(advance_spec(a).1 == (!a.is_done_spec() && b.is_done_spec()));
        if advance_spec(a).1 {
            assert(arrivals_upto(slots, i).drop_last() =~= prev);
            assert(arrivals_upto(slots, i).last() as int == i - 1);
        }
    } else {
        assert(arrivals_upto(slots, 0) =~= Seq::<usize>::empty());
    }
}

/// The animation that brings `card` back from `from` into the hand of `id`,
/// which holds `len` cards.
pub open spec fn back_to_hand_animation(card: Card, from: XY, id: HandId, len: int) -> Animation {
    Animation {
        delay: 0,
        card,
        at: from,
        target: card_position_spec(spread_spec(id), len + 1, len),
        action: AnimationAction::AddToHand(id),
        shown: false,
    }
}

/// The position of the last card of a hand of `len` cards, as a `u8` wraps.
pub open spec fn last_index(len: int) -> u8 {
    ((len + 255) % 256) as u8
}

/// Whether, apart from the piles and the fields named, `a` and `b` agree.
pub open spec fn same_but_piles_and_turn(a: State, b: State) -> bool {
    &&& a.animations == b.animations
    &&& a.ctx == b.ctx
    &&& a.has_started == b.has_started
    &&& a.turn_id == b.turn_id
    &&& a.paused == b.paused
    &&& a.selection.player_selection == b.selection.player_selection
    &&& a.selection.player_menu == b.selection.player_menu
}

/// The slots after each animation in them has moved on by a frame, up to slot
/// `i`.
pub open spec fn advanced_upto(slots: Seq<Animation>, i: int) -> Seq<Animation> {
    Seq::new(slots.len(), |j: int| if j < i { advance_spec(slots[j]).0 } else { slots[j] })
}

/// The slots, among the first `i`, whose animation arrives in this frame, in
/// order.
pub open spec fn arrivals_upto(slots: Seq<Animation>, i: int) -> Seq<usize>
    decreases i,
{
    if i <= 0 {
        Seq::empty()
    } else if advance_spec(slots[i - 1]).1 {
        arrivals_upto(slots, i - 1).push((i - 1) as usize)
    } else {
        arrivals_upto(slots, i - 1)
    }
}

/// The slots after each of `anims` is started in turn.
pub open spec fn push_all(slots: Seq<Animation>, anims: Seq<Animation>) -> Seq<Animation>
    decreases anims.len(),
{
    if anims.len() == 0 {
        slots
    } else {
        push_spec(push_all(slots, anims.drop_last()), anims.last())
    }
}

proof fn lemma_arrivals_bounded(slots: Seq<Animation>, i: int)
    requires
        0 <= i <= slots.len(),
    ensures
        forall|k: int| 0 <= k < arrivals_upto(slots, i).len() ==> #[trigger] arrivals_upto(slots, i)[k] < i,
        arrivals_upto(slots, i).len() <= i,
    decreases i,
{
    if i > 0 {
        lemma_arrivals_bounded(slots, i - 1);
    }
}

proof fn lemma_push_all_len(slots: Seq<Animation>, anims: Seq<Animation>)
    ensures
        push_all(slots, anims).len() == slots.len(),
    decreases anims.len(),
{
    if anims.len() > 0 {
        lemma_push_all_len(slots, anims.drop_last());
        lemma_first_free_in_range(push_all(slots, anims.drop_last()), 0);
    }
}

/// An animation that is still on its way after a frame keeps its slot: new
/// animations only go into free slots.
proof fn lemma_push_all_keeps_busy(slots: Seq<Animation>, anims: Seq<Animation>, j: int)
    requires
        0 <= j < slots.len(),
        !slots[j].is_done_spec(),
    ensures
        push_all(slots, anims)[j] == slots[j],
    decreases anims.len(),
{
    if anims.len() > 0 {
        lemma_push_all_keeps_busy(slots, anims.drop_last(), j);
        lemma_push_all_len(slots, anims.drop_last());
        lemma_first_free_in_range(push_all(slots, anims.drop_last()), 0);
    }
}

fn push_if_fits(pile: &mut Hand, card: Card)
    ensures
        fits(old(pile)@, card) ==> final(pile)@ == old(pile)@.push(card),
        !fits(old(pile)@, card) ==> final(pile)@ == old(pile)@,
{
    if pile.len() < DECK_SIZE && card < CardInner::MAX {
        pile.push(card);
    }
}

fn add_to_hand(hand: &mut Hand, baskets: &mut Hand, memories: &mut crate::memories::Memories, card: Card)
    ensures
        ({
            let before = seq![old(hand)@, old(baskets)@];
            let after = if !fits(old(hand)@, card) {
                before
            } else if old(hand)@.len() + 1 + old(baskets)@.len() <= DECK_SIZE {
                let (h, b) = collected(old(hand)@.push(card), old(baskets)@);
                seq![h, b]
            } else {
                seq![old(hand)@.push(card), old(baskets)@]
            };
            seq![final(hand)@, final(baskets)@] == after
        }),
{
    if hand.len() < DECK_SIZE && card < CardInner::MAX {
        hand.push(card);
        if hand.len() as usize + baskets.len() as usize <= DECK_SIZE as usize {
            collect_baskets(hand, baskets, memories);
        }
    }
}

impl State {
    /// One frame of the cards' movement. Every animation moves on by a frame, as
    /// `Animation::advance` does; then the cards that arrived are put where
    /// they were headed, slot by slot, as `arrive` does; then the animations that
    /// bring cards back to hands are started. Returns whether the deck got a
    /// card back and so needs shuffling, which the caller does with its source
    /// of random numbers.
    pub fn tick(&mut self, speaker: &mut Speaker) -> (shuffle: bool)
        requires
            old(self).well_formed(),
        ensures
            final(self).well_formed(),
            ({
                let advanced = advanced_upto(old(self).animations.slots(), 73);
                let arrivals = arrivals_upto(old(self).animations.slots(), 73);
                &&& final(self).cards.piles() == piles_after_arrivals(old(self).cards.piles(), advanced, arrivals)
                &&& shuffle == exists|m: int|
                    0 <= m < arrivals.len() && (#[trigger] advanced[arrivals[m] as int]).action is PerformGameWarden
                &&& forall|j: int|
                    0 <= j < 73 && !(#[trigger] advanced[j]).is_done_spec() ==> final(self).animations.slots()[j]
                        == advanced[j]
                &&& exists|pushed: Seq<Animation>|
                    {
                        &&& final(self).animations.slots() == push_all(advanced, pushed)
                        &&& forall|k: int|
                            0 <= k < pushed.len() ==> (#[trigger] pushed[k]).action is AddToHand && pushed[k].delay == 0
                    }
                &&& (piles_total(old(self).cards.piles()) + arrivals.len() <= DECK_SIZE && forall|k: int|
                    0 <= k < arrivals.len() ==> (#[trigger] advanced[arrivals[k] as int]).card < CardInner::MAX
                        && goes_on_a_pile(advanced[arrivals[k] as int].action)) ==> piles_cards(
                    final(self).cards.piles(),
                ) =~= piles_cards(old(self).cards.piles()).add(arrived_cards(advanced, arrivals))
                &&& (piles_total(old(self).cards.piles()) + arrivals.len() <= DECK_SIZE && forall|k: int|
                    0 <= k < arrivals.len() ==> (#[trigger] advanced[arrivals[k] as int]).card < CardInner::MAX
                        && goes_on_a_pile(advanced[arrivals[k] as int].action)) ==> piles_cards(
                    final(self).cards.piles(),
                ).add(busy_cards(final(self).animations.slots(), 73)) =~= piles_cards(old(self).cards.piles()).add(
                    busy_cards(old(self).animations.slots(), 73),
                )
            }),
            only_card_sounds_added(old(speaker)@, final(speaker)@),
            final(self).ctx == old(self).ctx,
            final(self).has_started == old(self).has_started,
            final(self).turn_id == old(self).turn_id,
            final(self).paused == old(self).paused,
    {
        let ghost old_slots = self.animations.slots();
        let ghost old_speaker = speaker@;
        let mut arrived: Vec<usize> = Vec::new();
        let mut i: usize = 0;
        while i < 73
            invariant
                i <= 73,
                old_slots.len() == 73,
                self.animations.slots() == advanced_upto(old_slots, i as int),
                arrived@ == arrivals_upto(old_slots, i as int),
                self.cards == old(self).cards,
                self.ctx == old(self).ctx,
                self.has_started == old(self).has_started,
                self.turn_id == old(self).turn_id,
                self.paused == old(self).paused,
            decreases 73 - i,
        {
            let a = self.animations.advance_slot(i);
            if a {
                arrived.push(i);
            }
            i = i + 1;
            assert(self.animations.slots() =~= advanced_upto(old_slots, i as int));
        }
        let ghost advanced = advanced_upto(old_slots, 73);
        let ghost arrivals = arrived@;
        proof {
            lemma_arrivals_bounded(old_slots, 73);
        }
        let mut push_after: Vec<Animation> = Vec::new();
        let mut shuffle = false;
        assert(old_speaker.take(old_speaker.len() as int) =~= old_speaker);
        let mut k: usize = 0;
        while k < arrived.len()
            invariant
                k <= arrived@.len(),
                arrived@ == arrivals,
                advanced.len() == 73,
                forall|m: int| 0 <= m < arrivals.len() ==> #[trigger] arrivals[m] < 73,
                self.animations.slots() == advanced,
                self.cards.piles() == piles_after_arrivals(old(self).cards.piles(), advanced, arrivals.take(k as int)),
                shuffle == exists|m: int|
                    0 <= m < k && (#[trigger] advanced[arrivals[m] as int]).action is PerformGameWarden,
                forall|m: int| 0 <= m < push_after@.len() ==> (#[trigger] push_after@[m]).action is AddToHand
                    && push_after@[m].delay == 0,
                (forall|m: int| 0 <= m < k ==> goes_on_a_pile(#[trigger] advanced[arrivals[m] as int].action))
                    ==> push_after@.len() == 0,
                only_card_sounds_added(old_speaker, speaker@),
                self.ctx == old(self).ctx,
                self.has_started == old(self).has_started,
                self.turn_id == old(self).turn_id,
                self.paused == old(self).paused,
            decreases arrivals.len() - k,
        {
            let slot = arrived[k];
            let anim = self.animations.get(slot);
            let card = anim.card;
            let at = anim.target;
            let action = anim.action.clone();
            let ghost sp = speaker@;
            assert(piles_after_arrival(self.cards.piles(), card, action) == piles_after_arrival(
                self.cards.piles(),
                card,
                advanced[slot as int].action,
            ));
            let s = self.arrive(card, at, &action, speaker, &mut push_after);
            shuffle = shuffle || s;
            proof {
                assert(arrivals.take(k + 1).drop_last() =~= arrivals.take(k as int));
                assert(only_card_sounds_added(old_speaker, speaker@)) by {
                    assert(speaker@.take(old_speaker.len() as int) =~= sp.take(old_speaker.len() as int));
                }
            }
            k = k + 1;
        }
        assert(arrivals.take(arrivals.len() as int) =~= arrivals);
        let ghost all_pushed = push_after@;
        let ghost piles = self.cards.piles();
        let n = push_after.len();
        let mut m: usize = 0;
        while m < n
            invariant
                m <= n,
                n == all_pushed.len(),
                push_after@ == all_pushed.skip(m as int),
                self.animations.slots() == push_all(advanced, all_pushed.take(m as int)),
                self.cards.piles() == piles,
                self.ctx == old(self).ctx,
                self.has_started == old(self).has_started,
                self.turn_id == old(self).turn_id,
                self.paused == old(self).paused,
            decreases n - m,
        {
            let anim = push_after.remove(0);
            self.animations.push(anim);
            proof {
                assert(all_pushed.take(m + 1).drop_last() =~= all_pushed.take(m as int));
            }
            m = m + 1;
            assert(push_after@ =~= all_pushed.skip(m as int));
        }
        proof {
            let op = old(self).cards.piles();
            if piles_total(op) + arrivals.len() <= DECK_SIZE && forall|k: int|
                0 <= k < arrivals.len() ==> (#[trigger] advanced[arrivals[k] as int]).card < CardInner::MAX
                    && goes_on_a_pile(advanced[arrivals[k] as int].action) {
                assert forall|k: int| 0 <= k < arrivals.len() implies #[trigger] arrivals[k] < advanced.len()
                    && advanced[arrivals[k] as int].card < CardInner::MAX && goes_on_a_pile(
                    advanced[arrivals[k] as int].action,
                ) by {
                    assert(advanced[arrivals[k] as int].card < CardInner::MAX);
                }
                lemma_arrivals_keep_each_card(op, advanced, arrivals);
                lemma_advance_keeps_each_card(old_slots, 73);
                assert(advanced_upto(old_slots, old_slots.len() as int) == advanced);
                assert(all_pushed.len() == 0);
                assert(all_pushed =~= Seq::<Animation>::empty());
                assert(push_all(advanced, all_pushed) == advanced);
                assert(piles_cards(op).add(arrived_cards(advanced, arrivals)).add(busy_cards(advanced, 73))
                    =~= piles_cards(op).add(busy_cards(old_slots, 73)));
            }
            assert(all_pushed.take(m as int) =~= all_pushed);
            assert(self.animations.slots() == push_all(advanced, all_pushed));
            lemma_push_all_len(advanced, all_pushed);
            assert forall|j: int|
                0 <= j < 73 && !(#[trigger] advanced[j]).is_done_spec() implies self.animations.slots()[j]
                    == advanced[j] by {
                lemma_push_all_keeps_busy(advanced, all_pushed, j);
            }
        }
        shuffle
    }

    /// After a card reaches the hand of `id`: on the player's hand the last card
    /// becomes the selected one; a computer player waiting for cards carries on
    /// with its turn.
    pub fn back_to_selecting(&mut self, id: HandId)
        ensures
            final(self).cards == old(self).cards,
            final(self).memories == old(self).memories,
            final(self).stack == old(self).stack,
            final(self).sub_turn_ids == old(self).sub_turn_ids,
            final(self).sub_turn_index == old(self).sub_turn_index,
            same_but_piles_and_turn(*final(self), *old(self)),
            id == HandId::Player ==> final(self).selection.card_index == last_index(
                old(self).cards.player@.len() as int,
            ) && final(self).cpu_menu == old(self).cpu_menu && final(self).done_something_this_turn
                == old(self).done_something_this_turn,
            id != HandId::Player ==> final(self).selection.card_index == old(self).selection.card_index
                && (if old(self).cpu_menu.is_waiting() {
                final(self).cpu_menu is Selecting && final(self).done_something_this_turn
            } else {
                final(self).cpu_menu == old(self).cpu_menu && final(self).done_something_this_turn
                    == old(self).done_something_this_turn
            }),
    {
        match CpuId::try_from_hand(id) {
            Err(_) => {
                self.selection.card_index = self.cards.player.len().wrapping_sub(1);
            },
            Ok(_) => {
                if matches!(
                    self.cpu_menu,
                    CpuMenu::WaitingForSuccesfulAsk | CpuMenu::WaitingWhenGotWhatWasFishingFor
                    | CpuMenu::WaitingWhenPlayedTwoFistedFisherman
                    | CpuMenu::WaitingWhenPlayedGlassBottomBoat
                ) {
                    self.cpu_menu = CpuMenu::Selecting;
                    self.done_something_this_turn = true;
                }
            },
        }
    }

    /// Puts `card`, which has just reached `at`, where its `action` says, and
    /// asks for the sound of a card landing where one lands. A card heading back
    /// to a hand gets a new animation, added to `push_after`. Returns whether the
    /// deck got a card and so needs shuffling.
    pub fn arrive(
        &mut self,
        card: Card,
        at: XY,
        action: &AnimationAction,
        speaker: &mut Speaker,
        push_after: &mut Vec<Animation>,
    ) -> (shuffle: bool)
        ensures
            final(self).animations == old(self).animations,
            final(self).ctx == old(self).ctx,
            final(self).has_started == old(self).has_started,
            final(self).turn_id == old(self).turn_id,
            final(self).paused == old(self).paused,
            shuffle == (*action is PerformGameWarden),
            match *action {
                AnimationAction::DoNothing => final(self).cards.piles() == old(self).cards.piles()
                    && final(speaker)@ == old(speaker)@ && final(push_after)@ == old(push_after)@,
                AnimationAction::AddToHand(id) => final(self).cards.piles() == piles_after_add_to_hand(
                    old(self).cards.piles(),
                    id,
                    card,
                ) && final(speaker)@ == old(speaker)@.push(SFX::CardPlace) && final(push_after)@
                    == old(push_after)@,
                AnimationAction::PerformGameWarden => final(self).cards.piles() == piles_after_push(
                    old(self).cards.piles(),
                    0,
                    card,
                ) && final(speaker)@ == old(speaker)@ && final(push_after)@ == old(push_after)@,
                AnimationAction::AddToDiscard(after) => final(self).cards.piles() == piles_after_push(
                    old(self).cards.piles(),
                    9,
                    card,
                ) && final(speaker)@ == old(speaker)@.push(SFX::CardPlace) && final(push_after)@
                    == old(push_after)@ && match after {
                    AfterDiscard::PushPlay(play) => final(self).stack@.len() == old(self).stack@.len() + 1
                        && final(self).stack@.drop_last() == old(self).stack@ && final(self).stack@.last().same(
                        play,
                    ) && final(self).sub_turn_ids@ == old(self).turn_id.besides_spec().push(
                        old(self).turn_id,
                    ) && final(self).sub_turn_index == 0 && final(self).done_something_this_turn,
                    _ => final(self).stack == old(self).stack,
                },
                AnimationAction::AnimateBackToHand(id) => final(self).cards.piles() == old(self).cards.piles()
                    && final(speaker)@ == old(speaker)@ && (old(self).cards.hand_spec(id).len()
                    < u8::MAX ==> final(push_after)@ == old(push_after)@.push(
                    back_to_hand_animation(card, at, id, old(self).cards.hand_spec(id).len() as int),
                )) && (old(self).cards.hand_spec(id).len() >= u8::MAX ==> final(push_after)@ == old(
                    push_after,
                )@),
            },
            (*action matches AnimationAction::AddToHand(id) && id == HandId::Player)
                ==> final(self).selection.card_index == last_index(
                final(self).cards.player@.len() as int,
            ),
    {
        match action {
            AnimationAction::DoNothing => false,
            AnimationAction::AddToHand(id) => {
                let id = *id;
                match id {
                    HandId::Player => add_to_hand(
                        &mut self.cards.player,
                        &mut self.cards.player_baskets,
                        &mut self.memories,
                        card,
                    ),
                    HandId::Cpu1 => add_to_hand(
                        &mut self.cards.cpu1,
                        &mut self.cards.cpu1_baskets,
                        &mut self.memories,
                        card,
                    ),
                    HandId::Cpu2 => add_to_hand(
                        &mut self.cards.cpu2,
                        &mut self.cards.cpu2_baskets,
                        &mut self.memories,
                        card,
                    ),
                    HandId::Cpu3 => add_to_hand(
                        &mut self.cards.cpu3,
                        &mut self.cards.cpu3_baskets,
                        &mut self.memories,
                        card,
                    ),
                }
                speaker.request_sfx(SFX::CardPlace);
                self.back_to_selecting(id);
                false
            },
            AnimationAction::PerformGameWarden => {
                push_if_fits(&mut self.cards.deck, card);
                true
            },
            AnimationAction::AddToDiscard(after_discard) => {
                push_if_fits(&mut self.cards.discard, card);
                speaker.request_sfx(SFX::CardPlace);
                match after_discard {
                    AfterDiscard::BackToSelecting(id) => self.back_to_selecting(*id),
                    AfterDiscard::Nothing => {},
                    AfterDiscard::PushPlay(play) => {
                        self.stack.push(play.clone());
                        self.allow_to_respond();
                    },
                }
                false
            },
            AnimationAction::AnimateBackToHand(id) => {
                let id = *id;
                let len = self.cards.hand(id).len();
                if len < u8::MAX {
                    let target = get_card_insert_position(spread(id), len);
                    push_after.push(
                        Animation {
                            card,
                            at,
                            target,
                            action: AnimationAction::AddToHand(id),
                            delay: 0,
                            shown: false,
                        },
                    );
                }
                false
            },
        }
    }
}

} // verus!
