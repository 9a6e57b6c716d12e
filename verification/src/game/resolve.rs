//! Whose chance it is to respond to the play on top of the stack, and what a
//! play does once everyone has had that chance.
use vstd::prelude::*;
use crate::game::animation::{lemma_first_free_in_range, AfterDiscard, Animation, AnimationAction};
use crate::game::ai::no_fishing_spec;
use crate::game::cards::{ActiveCardCount, Cards};
use crate::game::layout::{card_position_spec, spread_spec};
use crate::game::zingers::{discard_animation, first_index, lemma_first_index, push_spec};
use crate::memories::Location;
use crate::platform_types::unscaled::{X, XY, Y};
use crate::game::ai::should_use_no_fishing_against;
use crate::game::layout::{deck_xy, get_card_insert_position, get_card_position, spread};
use crate::game::play::{Play, PlayKind};
use crate::game::play::same_question;
use crate::game::question::Question;
use crate::game::state::{CpuMenu, PlayerMenu, State};
use crate::game::zingers::discard_no_fishing;
use crate::game::cpu_turn::lemma_matched_is_fish;
use crate::memories::Memory;
use crate::models::{
    get_rank, get_rank_spec, Card, CardIndex, CpuId, Hand, HandId, NetPredicate, Predicate, Rank, Targeting,
    DECK_SIZE, NO_FISHING,
};

verus! {

/// Who may respond now: the next of the order of the play on top of the stack,
/// or, with an empty stack, the next of the turn's own order; `None` once
/// everyone in that order has had the chance.
pub open spec fn responder_spec(state: State) -> Option<HandId> {
    if state.stack@.len() > 0 {
        let top = state.stack@.last();
        if top.sub_turn_index < 4 {
            Some(top.sub_turn_ids[top.sub_turn_index as int])
        } else {
            None
        }
    } else if state.sub_turn_index < 4 {
        Some(state.sub_turn_ids[state.sub_turn_index as int])
    } else {
        None
    }
}

/// Which card the holder of `cards` gives up to a question matched by
/// `predicate` from `source`, looking from position `i` on, with `found` the
/// best so far: the first matching card whose rank neither `target` nor
/// `source` is likely to complete soon by `memory`, or failing that the last
/// matching card.
pub open spec fn give_up_from(
    cards: Seq<Card>,
    predicate: Predicate,
    memory: Memory,
    target: HandId,
    source: HandId,
    i: int,
    found: Option<int>,
) -> Option<int>
    decreases cards.len() - i,
{
    if i < 0 || i >= cards.len() {
        found
    } else if predicate.matches_spec(cards[i]) && get_rank_spec(cards[i]) is Some {
        let rank = get_rank_spec(cards[i])->0;
        if memory.likely_to_fill_rank_spec(target, rank) || memory.likely_to_fill_rank_spec(source, rank) {
            give_up_from(cards, predicate, memory, target, source, i + 1, Some(i))
        } else {
            Some(i)
        }
    } else {
        give_up_from(cards, predicate, memory, target, source, i + 1, found)
    }
}

/// Whether the card at `i` matches and is a fish card whose rank neither
/// `target` nor `source` seems about to complete: one that can be given up
/// without helping either.
pub open spec fn spare_card(
    cards: Seq<Card>,
    predicate: Predicate,
    memory: Memory,
    target: HandId,
    source: HandId,
    i: int,
) -> bool {
    &&& predicate.matches_spec(cards[i])
    &&& get_rank_spec(cards[i]) is Some
    &&& !memory.likely_to_fill_rank_spec(target, get_rank_spec(cards[i])->0)
    &&& !memory.likely_to_fill_rank_spec(source, get_rank_spec(cards[i])->0)
}

/// Where the hand holds a matching card that helps neither the target nor the
/// source complete a basket, the card given up is the first such card: a card
/// whose rank either of them is about to complete is kept while another can
/// be given.
pub proof fn lemma_give_up_spares_likely_ranks(
    cards: Seq<Card>,
    predicate: Predicate,
    memory: Memory,
    target: HandId,
    source: HandId,
    i: int,
    found: Option<int>,
    first: int,
)
    requires
        0 <= i <= first < cards.len(),
        spare_card(cards, predicate, memory, target, source, first),
        forall|j: int| i <= j < first ==> !spare_card(cards, predicate, memory, target, source, j),
    ensures
        give_up_from(cards, predicate, memory, target, source, i, found) == Some(first),
    decreases first - i,
{
    if i < first {
        assert(!spare_card(cards, predicate, memory, target, source, i));
        if predicate.matches_spec(cards[i]) && get_rank_spec(cards[i]) is Some {
            lemma_give_up_spares_likely_ranks(cards, predicate, memory, target, source, i + 1, Some(i), first);
        } else {
            lemma_give_up_spares_likely_ranks(cards, predicate, memory, target, source, i + 1, found, first);
        }
    }
}

proof fn lemma_give_up_in_range(
    cards: Seq<Card>,
    predicate: Predicate,
    memory: Memory,
    target: HandId,
    source: HandId,
    i: int,
    found: Option<int>,
)
    requires
        0 <= i,
        found matches Some(k) ==> 0 <= k < cards.len() && predicate.matches_spec(cards[k]),
    ensures
        give_up_from(cards, predicate, memory, target, source, i, found) matches Some(k) ==> 0 <= k
            < cards.len() && predicate.matches_spec(cards[k]),
    decreases cards.len() - i,
{
    if i < cards.len() {
        if predicate.matches_spec(cards[i]) && get_rank_spec(cards[i]) is Some {
            let rank = get_rank_spec(cards[i])->0;
            if memory.likely_to_fill_rank_spec(target, rank) || memory.likely_to_fill_rank_spec(source, rank) {
                lemma_give_up_in_range(cards, predicate, memory, target, source, i + 1, Some(i));
            }
        } else {
            lemma_give_up_in_range(cards, predicate, memory, target, source, i + 1, found);
        }
    }
}

proof fn lemma_score_by_locations(m1: Memory, m2: Memory, target: HandId, rank: Rank, i: int)
    requires
        m1.locations_spec() == m2.locations_spec(),
    ensures
        m1.score_from(target, rank, i) == m2.score_from(target, rank, i),
    decreases 5 - i,
{
    if 0 <= i < 5 {
        lemma_score_by_locations(m1, m2, target, rank, i + 1);
    }
}

/// What is given up depends on what the memory holds of the cards' locations
/// alone: two memories that agree on them pick the same card.
pub proof fn lemma_give_up_by_locations(
    cards: Seq<Card>,
    predicate: Predicate,
    m1: Memory,
    m2: Memory,
    target: HandId,
    source: HandId,
    i: int,
    found: Option<int>,
)
    requires
        m1.locations_spec() == m2.locations_spec(),
    ensures
        give_up_from(cards, predicate, m1, target, source, i, found) == give_up_from(
            cards,
            predicate,
            m2,
            target,
            source,
            i,
            found,
        ),
    decreases cards.len() - i,
{
    if 0 <= i < cards.len() {
        if predicate.matches_spec(cards[i]) && get_rank_spec(cards[i]) is Some {
            let rank = get_rank_spec(cards[i])->0;
            lemma_score_by_locations(m1, m2, target, rank, 0);
            lemma_score_by_locations(m1, m2, source, rank, 0);
            lemma_give_up_by_locations(cards, predicate, m1, m2, target, source, i + 1, Some(i));
        }
        lemma_give_up_by_locations(cards, predicate, m1, m2, target, source, i + 1, found);
    }
}

/// The first card that helps neither side is the one given up.
proof fn lemma_first_spare_is_given_up(
    cards: Seq<Card>,
    predicate: Predicate,
    memory: Memory,
    target: HandId,
    source: HandId,
)
    ensures
        forall|first: int|
            0 <= first < cards.len() && #[trigger] spare_card(cards, predicate, memory, target, source, first) && (
            forall|j: int| 0 <= j < first ==> !spare_card(cards, predicate, memory, target, source, j))
                ==> give_up_from(cards, predicate, memory, target, source, 0, None) == Some(first),
{
    assert forall|first: int|
        0 <= first < cards.len() && #[trigger] spare_card(cards, predicate, memory, target, source, first) && (
        forall|j: int| 0 <= j < first ==> !spare_card(cards, predicate, memory, target, source, j))
            implies give_up_from(cards, predicate, memory, target, source, 0, None) == Some(first) by {
        lemma_give_up_spares_likely_ranks(cards, predicate, memory, target, source, 0, None, first);
    }
}

/// The position of the card that the holder of `hand` gives up, as
/// `give_up_from` says.
pub fn card_to_give_up(hand: &Hand, predicate: Predicate, memory: &Memory, target: HandId, source: HandId) -> (res: Option<CardIndex>)
    ensures
        match give_up_from(hand@, predicate, *memory, target, source, 0, None) {
            Some(i) => res == Some(i as CardIndex),
            None => res is None,
        },
        forall|first: int|
            0 <= first < hand@.len() && #[trigger] spare_card(hand@, predicate, *memory, target, source, first)
                && (forall|j: int| 0 <= j < first ==> !spare_card(hand@, predicate, *memory, target, source, j))
                ==> res == Some(first as CardIndex),
{
    proof {
        lemma_first_spare_is_given_up(hand@, predicate, *memory, target, source);
    }
    let n = hand.len();
    let mut found: Option<CardIndex> = None;
    let mut i: u8 = 0;
    while i < n
        invariant
            i <= n,
            n == hand@.len(),
            forall|first: int|
                0 <= first < hand@.len() && #[trigger] spare_card(hand@, predicate, *memory, target, source, first)
                    && (forall|j: int| 0 <= j < first ==> !spare_card(hand@, predicate, *memory, target, source, j))
                    ==> give_up_from(hand@, predicate, *memory, target, source, 0, None) == Some(first),
            give_up_from(hand@, predicate, *memory, target, source, 0, None) == give_up_from(
                hand@,
                predicate,
                *memory,
                target,
                source,
                i as int,
                match found {
                    Some(k) => Some(k as int),
                    None => None,
                },
            ),
        decreases n - i,
    {
        match hand.get(i) {
            Some(card) => {
                if predicate.matches(card) {
                    match get_rank(card) {
                        Some(rank) => {
                            if memory.is_likely_to_fill_rank_soon(target, rank)
                                || memory.is_likely_to_fill_rank_soon(source, rank) {
                                found = Some(i);
                            } else {
                                return Some(i);
                            }
                        },
                        None => {},
                    }
                }
            },
            None => {},
        }
        i = i + 1;
    }
    found
}

/// The slots after `source`, holding `len` cards, draws the top card of
/// `deck`, if any: the card flies from the deck to the end of the hand.
pub open spec fn drawn_slots(slots: Seq<Animation>, deck: Seq<Card>, source: HandId, len: int) -> Seq<Animation> {
    if deck.len() > 0 {
        push_spec(
            slots,
            Animation {
                delay: 0,
                card: deck.last(),
                at: XY { x: X(203), y: Y(107) },
                target: card_position_spec(spread_spec(source), len + 1, len),
                action: AnimationAction::AddToHand(source),
                shown: false,
            },
        )
    } else {
        slots
    }
}

/// The piles after the top card of `deck`, the first pile, is drawn.
pub open spec fn deck_drawn(piles: Seq<Seq<Card>>, deck: Seq<Card>) -> Seq<Seq<Card>> {
    if deck.len() > 0 {
        piles.update(0, deck.drop_last())
    } else {
        piles
    }
}

/// How many cards are still in play, as the computer players judge it.
pub open spec fn active_count_spec(cards: Cards) -> ActiveCardCount {
    if cards.active_spec() <= 15 {
        ActiveCardCount::VeryFew
    } else {
        ActiveCardCount::Several
    }
}

/// Whether the computer player `target_id` blocks the question of `source`,
/// matched by `predicate`, with No Fishing.
pub open spec fn blocks_with_no_fishing(state: State, source: HandId, target_id: CpuId, predicate: Predicate) -> bool {
    let held = state.cards.hand_spec(HandId::from_cpu_spec(target_id));
    held.contains(NO_FISHING) && no_fishing_spec(
        state.memories.memory_spec(target_id),
        held,
        source,
        predicate,
        active_count_spec(state.cards),
    )
}

/// What the Net or the Lure of `source` against the computer player
/// `target_id`, asking for what `predicate` matches, does to the cards, the
/// animations and the memories, from `before` to `after`:
/// - where the target blocks it with No Fishing, that card goes from the
///   target's hand to the discard pile, and `source` draws the top card of the
///   deck;
/// - otherwise everyone notes the question; the target gives up the card that
///   `give_up_from` picks by what it then remembers, which flies from its hand
///   to the receiver (the player with `to_player`, else `source`, at position
///   `insert_len` of the source's spread), and everyone sees it; without such
///   a card `source` draws the top card of the deck.
pub open spec fn resolved_against_cpu(
    before: State,
    after: State,
    source: HandId,
    target_id: CpuId,
    predicate: Predicate,
    insert_len: u8,
    to_player: bool,
) -> bool {
    let target = HandId::from_cpu_spec(target_id);
    let held = before.cards.hand_spec(target);
    let deck = before.cards.deck@;
    let piles = before.cards.piles();
    let memory = before.memories.memory_spec(target_id);
    if blocks_with_no_fishing(before, source, target_id, predicate) {
        let i = first_index(held, NO_FISHING);
        let source_len = if source == target {
            held.len() - 1
        } else {
            before.cards.hand_spec(source).len() as int
        };
        &&& after.cards.piles() == deck_drawn(piles.update(1 + target.index(), held.remove(i)), deck)
        &&& after.memories == before.memories
        &&& exists|play: Play|
            #![trigger discard_animation(target, held.len() - 1, i, NO_FISHING, AfterDiscard::PushPlay(play))]
            play.sub_turn_ids@ == target.besides_spec().push(target) && play.sub_turn_index == 0 && (
            play.kind matches PlayKind::NoFishing { question } && question.targeting == (Targeting {
                source: target,
                target: source,
            }) && question.predicate == predicate) && after.animations.slots() == drawn_slots(
                push_spec(
                    before.animations.slots(),
                    discard_animation(target, held.len() - 1, i, NO_FISHING, AfterDiscard::PushPlay(play)),
                ),
                deck,
                source,
                source_len,
            )
    } else {
        let noted = memory.after_asked(source, predicate);
        &&& forall|id: CpuId| #[trigger] after.memories.memory_spec(id).did_not_have_spec()
            == before.memories.memory_spec(id).did_not_have_spec()
        &&& exists|m: Memory|
            #![trigger give_up_from(held, predicate, m, target, source, 0, None)]
            m.locations_spec() == noted && match give_up_from(held, predicate, m, target, source, 0, None) {
                Some(k) => {
                    &&& after.cards.piles() == piles.update(1 + target.index(), held.remove(k))
                    &&& forall|id: CpuId| #[trigger] after.memories.memory_spec(id).locations_spec()
                        == before.memories.memory_spec(id).after_asked(source, predicate).update(
                        held[k] as int,
                        Location::Known(source),
                    )
                    &&& after.animations.slots() == push_spec(
                        before.animations.slots(),
                        Animation {
                            delay: 0,
                            card: held[k],
                            at: card_position_spec(spread_spec(target), held.len() as int, k),
                            target: card_position_spec(spread_spec(source), insert_len + 1, insert_len as int),
                            action: AnimationAction::AddToHand(
                                if to_player {
                                    HandId::Player
                                } else {
                                    source
                                },
                            ),
                            shown: true,
                        },
                    )
                },
                None => {
                    &&& after.cards.piles() == deck_drawn(piles, deck)
                    &&& forall|id: CpuId| #[trigger] after.memories.memory_spec(id).locations_spec()
                        == before.memories.memory_spec(id).after_asked(source, predicate)
                    &&& after.animations.slots() == drawn_slots(
                        before.animations.slots(),
                        deck,
                        source,
                        before.cards.hand_spec(source).len() as int,
                    )
                },
            }
    }
}

impl State {
    /// Who may respond now, as `responder_spec` says.
    pub fn responder(&self) -> (res: Option<HandId>)
        ensures
            res == responder_spec(*self),
    {
        let n = self.stack.len();
        if n > 0 {
            let top = &self.stack[n - 1];
            if top.sub_turn_index < 4 {
                Some(top.sub_turn_ids[top.sub_turn_index as usize])
            } else {
                None
            }
        } else if self.sub_turn_index < 4 {
            Some(self.sub_turn_ids[self.sub_turn_index as usize])
        } else {
            None
        }
    }

    /// The responder lets the chance to respond pass: the next one in the same
    /// order gets it.
    pub fn pass_response(&mut self)
        requires
            responder_spec(*old(self)) is Some,
        ensures
            final(self).stack@.len() == old(self).stack@.len(),
            old(self).stack@.len() > 0 ==> final(self).stack@ == old(self).stack@.update(
                old(self).stack@.len() - 1,
                Play {
                    sub_turn_index: (old(self).stack@.last().sub_turn_index + 1) as u8,
                    ..old(self).stack@.last()
                },
            ) && final(self).sub_turn_index == old(self).sub_turn_index,
            old(self).stack@.len() == 0 ==> final(self).sub_turn_index == old(self).sub_turn_index + 1,
            final(self).cards == old(self).cards,
            final(self).animations == old(self).animations,
            final(self).sub_turn_ids == old(self).sub_turn_ids,
            final(self).turn_id == old(self).turn_id,
            final(self).ctx == old(self).ctx,
            final(self).memories == old(self).memories,
            final(self).has_started == old(self).has_started,
            final(self).selection == old(self).selection,
            final(self).cpu_menu == old(self).cpu_menu,
            final(self).done_something_this_turn == old(self).done_something_this_turn,
            final(self).paused == old(self).paused,
    {
        let n = self.stack.len();
        if n > 0 {
            let mut top = self.stack.pop().unwrap();
            top.sub_turn_index = top.sub_turn_index + 1;
            self.stack.push(top);
            assert(self.stack@ =~= old(self).stack@.update(
                old(self).stack@.len() - 1,
                Play {
                    sub_turn_index: (old(self).stack@.last().sub_turn_index + 1) as u8,
                    ..old(self).stack@.last()
                },
            ));
        } else {
            self.sub_turn_index = self.sub_turn_index + 1;
        }
    }

    /// The one who played the Net or the Lure, `source`, draws the top card of
    /// the deck, if any, and the turn passes on.
    fn draw_for_and_end_turn(&mut self, source: HandId)
        requires
            old(self).well_formed(),
        ensures
            final(self).well_formed(),
            final(self).turn_id == HandId::from_index((old(self).turn_id.index() + 1) % 4),
            final(self).cpu_menu is Selecting,
            !final(self).done_something_this_turn,
            final(self).stack == old(self).stack,
            final(self).cards.piles() == (if old(self).cards.deck@.len() > 0 {
                old(self).cards.piles().update(0, old(self).cards.deck@.drop_last())
            } else {
                old(self).cards.piles()
            }),
            final(self).animations.slots() == drawn_slots(
                old(self).animations.slots(),
                old(self).cards.deck@,
                source,
                old(self).cards.hand_spec(source).len() as int,
            ),
            final(self).memories == old(self).memories,
    {
        proof {
            lemma_first_free_in_range(self.animations.slots(), 0);
        }
        let len = self.cards.hand(source).len();
        let drew = self.cards.deck.draw();
        if let Some(card) = drew {
            let target = get_card_insert_position(spread(source), len);
            let at = deck_xy();
            assert(at == XY { x: X(203), y: Y(107) });
            self.animations.push(
                Animation {
                    card,
                    at,
                    target,
                    action: AnimationAction::AddToHand(source),
                    delay: 0,
                    shown: false,
                },
            );
        }
        self.to_next_turn();
    }

    /// The Net or the Lure that `source` played against the computer player
    /// `target_id`, asking for what `predicate` matches, takes effect: the
    /// target blocks it with No Fishing if it holds that and judges it worth
    /// it; otherwise everyone notes the question, and the target gives up the
    /// card `give_up_from` picks, or `source` draws from the deck if it has
    /// none. Either way the turn passes on. With `to_player` the card given up
    /// heads for the player's hand, as it does with the Net.
    fn resolve_against_cpu(
        &mut self,
        source: HandId,
        target_id: CpuId,
        predicate: Predicate,
        insert_len: u8,
        to_player: bool,
    )
        requires
            old(self).well_formed(),
            insert_len < u8::MAX,
        ensures
            final(self).well_formed(),
            final(self).turn_id == HandId::from_index((old(self).turn_id.index() + 1) % 4),
            final(self).cpu_menu is Selecting,
            !final(self).done_something_this_turn,
            final(self).stack == old(self).stack,
            resolved_against_cpu(*old(self), *final(self), source, target_id, predicate, insert_len, to_player),
    {
        proof {
            lemma_first_free_in_range(self.animations.slots(), 0);
        }
        let ghost before = *self;
        let target = HandId::from(target_id);
        let ghost held = before.cards.hand_spec(target);
        if self.cards.hand(target).contains(NO_FISHING) && should_use_no_fishing_against(
            self.memories.memory(target_id),
            self.cards.hand(target),
            source,
            predicate,
            self.cards.active_count(),
        ) {
            discard_no_fishing(&mut self.cards, &mut self.animations, target.with_target(source), predicate);
            let ghost mid = *self;
            proof {
                lemma_first_free_in_range(old(self).animations.slots(), 0);
                let i = first_index(held, NO_FISHING);
                mid.cards.lemma_piles_but_hand(before.cards, target);
            }
            self.draw_for_and_end_turn(source);
            proof {
                let i = first_index(held, NO_FISHING);
                let play = choose|play: Play|
                    #![trigger discard_animation(target, held.len() - 1, i, NO_FISHING, AfterDiscard::PushPlay(play))]
                    play.sub_turn_ids@ == target.besides_spec().push(target) && play.sub_turn_index == 0 && (
                    play.kind matches PlayKind::NoFishing { question } && question.targeting == (Targeting {
                        source: target,
                        target: source,
                    }) && question.predicate == predicate) && mid.animations.slots() == push_spec(
                        before.animations.slots(),
                        discard_animation(target, held.len() - 1, i, NO_FISHING, AfterDiscard::PushPlay(play)),
                    );
                assert(held.contains(NO_FISHING));
                lemma_first_index(held, NO_FISHING, 0);
                assert(mid.cards.hand_spec(source).len() == if source == target {
                    held.len() - 1
                } else {
                    before.cards.hand_spec(source).len() as int
                });
                assert(self.animations.slots() == drawn_slots(
                    push_spec(
                        before.animations.slots(),
                        discard_animation(target, held.len() - 1, i, NO_FISHING, AfterDiscard::PushPlay(play)),
                    ),
                    before.cards.deck@,
                    source,
                    mid.cards.hand_spec(source).len() as int,
                ));
            }
        } else {
            self.memories.asked_for(source, predicate);
            let ghost m = self.memories.memory_spec(target_id);
            let found = card_to_give_up(self.cards.hand(target), predicate, self.memories.memory(target_id), target, source);
            proof {
                assert(m.locations_spec() == before.memories.memory_spec(target_id).after_asked(source, predicate));
                assert(give_up_from(held, predicate, m, target, source, 0, None) == give_up_from(
                    held,
                    predicate,
                    m,
                    target,
                    source,
                    0,
                    None,
                ));
            }
            match found {
                Some(i) => {
                    proof {
                        lemma_give_up_in_range(
                            self.cards.hand_spec(target),
                            predicate,
                            self.memories.memory_spec(target_id),
                            target,
                            source,
                            0,
                            None,
                        );
                    }
                    let target_len = self.cards.hand(target).len();
                    let card = match self.cards.hand(target).get(i) {
                        Some(card) => card,
                        None => {
                            assert(false);
                            0
                        },
                    };
                    proof {
                        lemma_matched_is_fish(predicate, card);
                    }
                    self.memories.found(source, card);
                    let at = get_card_position(spread(target), target_len, i);
                    let removed = self.cards.hand_mut(target).remove(i);
                    if let Some(card) = removed {
                        let to = get_card_insert_position(spread(source), insert_len);
                        let receiver = if to_player {
                            HandId::Player
                        } else {
                            source
                        };
                        self.animations.push(
                            Animation {
                                card,
                                at,
                                target: to,
                                action: AnimationAction::AddToHand(receiver),
                                delay: 0,
                                shown: true,
                            },
                        );
                    }
                    proof {
                        self.cards.lemma_piles_but_hand(before.cards, target);
                    }
                    self.to_next_turn();
                },
                None => {
                    proof {
                        assert(self.cards == before.cards);
                    }
                    self.draw_for_and_end_turn(source);
                },
            }
        }
    }
}

impl State {
    /// `play`, to which everyone has had the chance to respond, takes effect.
    /// Returns whether whoever acts now acts again rather than the turn moving
    /// on: after the Two-Fisted Fisherman, after the player fished because of
    /// No Fishing, and after the Net or the Lure against the player, who then
    /// has to answer.
    pub fn resolve_play(&mut self, play: Play) -> (go_again: bool)
        requires
            old(self).well_formed(),
            old(self).cards.deck@.len() > 0 ==> old(self).cards.deck@.last() < DECK_SIZE,
            play.kind is FishedUnsuccessfully ==> old(self).stack@.len() == 0,
            (play.kind matches PlayKind::TwoFistedFisherman { cancelled, .. } && !cancelled)
                ==> old(self).stack@.len() == 0,
        ensures
            final(self).well_formed(),
            match play.kind {
                PlayKind::FishedUnsuccessfully { .. } => !go_again && final(self).cards == old(self).cards
                    && final(self).stack == old(self).stack && final(self).turn_id == old(self).turn_id,
                PlayKind::TwoFistedFisherman { cancelled, .. } => go_again == !cancelled && final(self).cards
                    == old(self).cards && final(self).stack == old(self).stack && final(self).turn_id
                    == old(self).turn_id,
                PlayKind::NoFishing { question } => match CpuId::try_from_hand_spec(question.targeting.target) {
                    None => {
                        let deck = old(self).cards.deck@;
                        &&& go_again
                        &&& final(self).selection.player_menu == (PlayerMenu::Fished {
                            question,
                            drew: if deck.len() > 0 {
                                Some(deck.last())
                            } else {
                                None
                            },
                        })
                        &&& final(self).done_something_this_turn
                        &&& final(self).cards.piles() == (if deck.len() > 0 {
                            old(self).cards.piles().update(0, deck.drop_last())
                        } else {
                            old(self).cards.piles()
                        })
                    },
                    Some(_) => !go_again && final(self).done_something_this_turn,
                },
                PlayKind::TheNet { targeting, predicate } => match CpuId::try_from_hand_spec(targeting.target) {
                    None => go_again && (final(self).cpu_menu matches CpuMenu::Asking(q) && q.targeting
                        == targeting && q.predicate == Predicate::Net(predicate))
                        && final(self).done_something_this_turn && final(self).cards == old(self).cards,
                    Some(target_id) => !go_again && final(self).turn_id == HandId::from_index(
                        (old(self).turn_id.index() + 1) % 4,
                    ) && final(self).cpu_menu is Selecting && resolved_against_cpu(
                        *old(self),
                        *final(self),
                        targeting.source,
                        target_id,
                        Predicate::Net(predicate),
                        old(self).cards.hand_spec(targeting.source).len() as u8,
                        true,
                    ),
                },
                PlayKind::TheLure { targeting, predicate } => match CpuId::try_from_hand_spec(targeting.target) {
                    None => go_again && (final(self).cpu_menu matches CpuMenu::Asking(q) && q.targeting
                        == targeting && q.predicate == Predicate::RankSuit(predicate.rank, predicate.suit))
                        && final(self).done_something_this_turn && final(self).cards == old(self).cards,
                    Some(target_id) => !go_again && final(self).turn_id == HandId::from_index(
                        (old(self).turn_id.index() + 1) % 4,
                    ) && final(self).cpu_menu is Selecting && resolved_against_cpu(
                        *old(self),
                        *final(self),
                        targeting.source,
                        target_id,
                        Predicate::RankSuit(predicate.rank, predicate.suit),
                        old(self).cards.player@.len() as u8,
                        false,
                    ),
                },
            },
    {
        proof {
            lemma_first_free_in_range(self.animations.slots(), 0);
        }
        match play.kind {
            PlayKind::FishedUnsuccessfully { .. } => false,
            PlayKind::NoFishing { question } => {
                match CpuId::try_from_hand(question.targeting.target) {
                    Err(()) => {
                        let player_len = self.cards.player.len();
                        let drew = self.cards.deck.draw();
                        self.done_something_this_turn = true;
                        if let Some(card) = drew {
                            let target = get_card_insert_position(spread(HandId::Player), player_len);
                            self.animations.push(
                                Animation {
                                    card,
                                    at: deck_xy(),
                                    target,
                                    action: AnimationAction::AddToHand(HandId::Player),
                                    delay: 0,
                                    shown: false,
                                },
                            );
                        }
                        self.selection.player_menu = PlayerMenu::Fished { question, drew };
                        true
                    },
                    Ok(asker_id) => {
                        self.cpu_handle_negative_response(asker_id, question.predicate);
                        false
                    },
                }
            },
            PlayKind::TwoFistedFisherman { source: _, cancelled } => !cancelled,
            PlayKind::TheNet { targeting, predicate } => {
                match CpuId::try_from_hand(targeting.target) {
                    Err(()) => {
                        self.cpu_menu = CpuMenu::Asking(Question::new(targeting, Predicate::Net(predicate)));
                        self.done_something_this_turn = true;
                        true
                    },
                    Ok(target_id) => {
                        let len = self.cards.hand(targeting.source).len();
                        self.resolve_against_cpu(targeting.source, target_id, Predicate::Net(predicate), len, true);
                        false
                    },
                }
            },
            PlayKind::TheLure { targeting, predicate } => {
                let wanted = Predicate::RankSuit(predicate.rank, predicate.suit);
                match CpuId::try_from_hand(targeting.target) {
                    Err(()) => {
                        self.cpu_menu = CpuMenu::Asking(Question::new(targeting, wanted));
                        self.done_something_this_turn = true;
                        true
                    },
                    Ok(target_id) => {
                        let player_len = self.cards.player.len();
                        self.resolve_against_cpu(targeting.source, target_id, wanted, player_len, false);
                        false
                    },
                }
            },
        }
    }

    /// Once everyone has had the chance to respond, the play on top of the
    /// stack takes effect, as `resolve_play` says; once the stack is empty and
    /// nobody acts again, the turn passes on. Returns whether there was a play
    /// to resolve.
    pub fn resolve_top_of_stack(&mut self) -> (resolved: bool)
        requires
            old(self).well_formed(),
            old(self).cards.deck@.len() > 0 ==> old(self).cards.deck@.last() < DECK_SIZE,
            old(self).stack@.len() > 0 && (old(self).stack@.last().kind is FishedUnsuccessfully || (old(
                self,
            ).stack@.last().kind matches PlayKind::TwoFistedFisherman { cancelled, .. } && !cancelled))
                ==> old(self).stack@.len() == 1,
        ensures
            final(self).well_formed(),
            resolved == (old(self).stack@.len() > 0),
            !resolved ==> final(self).stack == old(self).stack && final(self).cards == old(self).cards
                && final(self).turn_id == old(self).turn_id,
            resolved && old(self).stack@.last().kind is FishedUnsuccessfully ==> final(self).stack@.len() == 0
                && final(self).turn_id == HandId::from_index((old(self).turn_id.index() + 1) % 4)
                && final(self).cpu_menu is Selecting && !final(self).done_something_this_turn,
            resolved && (old(self).stack@.last().kind matches PlayKind::TwoFistedFisherman {
                cancelled,
                ..
            } && !cancelled) ==> final(self).stack@.len() == 0 && final(self).turn_id == old(self).turn_id,
            resolved ==> match old(self).stack@.last().kind {
                PlayKind::TheNet { targeting, predicate } => match CpuId::try_from_hand_spec(targeting.target) {
                    Some(target_id) => resolved_against_cpu(
                        *old(self),
                        *final(self),
                        targeting.source,
                        target_id,
                        Predicate::Net(predicate),
                        old(self).cards.hand_spec(targeting.source).len() as u8,
                        true,
                    ),
                    None => true,
                },
                PlayKind::TheLure { targeting, predicate } => match CpuId::try_from_hand_spec(targeting.target) {
                    Some(target_id) => resolved_against_cpu(
                        *old(self),
                        *final(self),
                        targeting.source,
                        target_id,
                        Predicate::RankSuit(predicate.rank, predicate.suit),
                        old(self).cards.player@.len() as u8,
                        false,
                    ),
                    None => true,
                },
                _ => true,
            },
    {
        if self.stack.len() == 0 {
            return false;
        }
        match self.stack.pop() {
            None => false,
            Some(play) => {
                let go_again = self.resolve_play(play);
                if !go_again && self.stack.len() == 0 {
                    self.to_next_turn();
                }
                true
            },
        }
    }
}

} // verus!
