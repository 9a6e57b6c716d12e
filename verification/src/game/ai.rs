//! How the computer players decide which zingers to play.
use vstd::prelude::*;
use crate::game::cards::{zinger_count, ActiveCardCount, Cards};
use crate::game::play::{Play, PlayKind};
use crate::memories::{Memories, Memory};
use crate::models::{
    fish_card, fish_card_spec, get_rank_spec, get_suit_spec, get_zinger, Card, CpuId, Hand, HandId, LurePredicate,
    NetPredicate, Predicate, Rank, Suit, DECK_SIZE, TWO_FISTED_FISHERMAN,
};

verus! {

/// The number of plays on `stack` made with zingers.
pub open spec fn stack_zingers(stack: Seq<Play>) -> nat
    decreases stack.len(),
{
    if stack.len() == 0 {
        0
    } else {
        stack_zingers(stack.drop_last()) + if stack.last().kind.is_zinger_spec() {
            1nat
        } else {
            0nat
        }
    }
}

/// Whether at most one zinger is left unaccounted for: the zingers in `hand`,
/// on the discard pile (which holds only zingers) and on the stack add up to
/// all but at most one of the eight.
pub open spec fn should_shed_spec(cards: Cards, hand: Seq<Card>, stack: Seq<Play>) -> bool {
    zinger_count(hand) + cards.discard@.len() + stack_zingers(stack) >= 7
}

proof fn lemma_zinger_count_le(cards: Seq<Card>)
    ensures
        zinger_count(cards) <= cards.len(),
    decreases cards.len(),
{
    if cards.len() > 0 {
        lemma_zinger_count_le(cards.drop_last());
    }
}

proof fn lemma_stack_zingers_le(stack: Seq<Play>)
    ensures
        stack_zingers(stack) <= stack.len(),
    decreases stack.len(),
{
    if stack.len() > 0 {
        lemma_stack_zingers_le(stack.drop_last());
    }
}

/// Whether it is time to use up zingers.
pub fn should_shed_zingers(cards: &Cards, hand: &Hand, stack: &[Play]) -> (res: bool)
    ensures
        res == should_shed_spec(*cards, hand@, stack@),
{
    let hand_cards = hand.iter();
    let mut in_hand: u64 = 0;
    let mut i: usize = 0;
    while i < hand_cards.len()
        invariant
            i <= hand_cards@.len(),
            hand_cards@ == hand@,
            hand_cards@.len() <= DECK_SIZE,
            in_hand == zinger_count(hand_cards@.take(i as int)),
            in_hand <= i,
        decreases hand_cards@.len() - i,
    {
        assert(hand_cards@.take(i + 1).drop_last() =~= hand_cards@.take(i as int));
        if get_zinger(hand_cards[i]).is_some() {
            in_hand = in_hand + 1;
        }
        i = i + 1;
    }
    assert(hand_cards@.take(i as int) =~= hand@);
    let mut in_stack: u64 = 0;
    let mut j: usize = 0;
    while j < stack.len()
        invariant
            j <= stack@.len(),
            in_stack == stack_zingers(stack@.take(j as int)),
            in_stack <= j,
        decreases stack@.len() - j,
    {
        assert(stack@.take(j + 1).drop_last() =~= stack@.take(j as int));
        if stack[j].is_zinger() {
            in_stack = in_stack + 1;
        }
        j = j + 1;
    }
    assert(stack@.take(j as int) =~= stack@);
    let discarded = cards.discard.len() as u64;
    let accounted = in_hand + discarded;
    if accounted >= 7 {
        true
    } else {
        in_stack >= 7 - accounted
    }
}

/// The first rank and target, counting `t` from `i` as rank `t / 3` and target
/// `targets[t % 3]`, where the target seems likely to complete the rank soon.
pub open spec fn likely_pair_from(memory: Memory, targets: Seq<HandId>, i: int) -> Option<(HandId, Rank)>
    decreases 39 - i,
{
    if i < 0 || i >= 39 {
        None
    } else if memory.likely_to_fill_rank_spec(targets[i % 3], Rank::from_index(i / 3)) {
        Some((targets[i % 3], Rank::from_index(i / 3)))
    } else {
        likely_pair_from(memory, targets, i + 1)
    }
}

/// Where to aim the net: at a rank that someone seems about to complete, else,
/// when it is time to shed zingers, at the first suit.
pub open spec fn net_play_spec(cards: Cards, hand: Seq<Card>, stack: Seq<Play>, memories: Memories, own_id: CpuId) -> Option<(HandId, NetPredicate)> {
    let targets = HandId::from_cpu_spec(own_id).besides_spec();
    match likely_pair_from(memories.memory_spec(own_id), targets, 0) {
        Some((target, rank)) => Some((target, NetPredicate::Rank(rank))),
        None => if should_shed_spec(cards, hand, stack) {
            Some((targets[0], NetPredicate::Suit(Suit::Red)))
        } else {
            None
        },
    }
}

pub fn useful_the_net_play(cards: &Cards, hand: &Hand, stack: &[Play], memories: &Memories, own_id: CpuId) -> (res: Option<(HandId, NetPredicate)>)
    ensures
        res == net_play_spec(*cards, hand@, stack@, *memories, own_id),
{
    let targets = HandId::from(own_id).besides();
    let memory = memories.memory(own_id);
    let mut t: usize = 0;
    while t < 39
        invariant
            t <= 39,
            targets@ == HandId::from_cpu_spec(own_id).besides_spec(),
            *memory == memories.memory_spec(own_id),
            likely_pair_from(*memory, targets@, 0) == likely_pair_from(*memory, targets@, t as int),
        decreases 39 - t,
    {
        let rank = Rank::from_u8((t / 3) as u8);
        let target = targets[t % 3];
        if memory.is_likely_to_fill_rank_soon(target, rank) {
            return Some((target, NetPredicate::Rank(rank)));
        }
        t = t + 1;
    }
    if should_shed_zingers(cards, hand, stack) {
        return Some((targets[0], NetPredicate::Suit(Suit::Red)));
    }
    None
}

/// The card of the `i`th step, counting ranks, then suits, then targets: step
/// `i` is rank `i / 15`, suit `(i / 3) % 5` and target `targets[i % 3]`.
pub open spec fn lure_step_card(i: int) -> LurePredicate {
    LurePredicate { rank: Rank::from_index(i / 15), suit: Suit::from_index((i / 3) % 5) }
}

/// The first step from `i` on whose card `hand` holds (`held`) or not (`!held`)
/// and whose target seems likely to complete that card's rank soon.
pub open spec fn lure_likely_from(memory: Memory, hand: Seq<Card>, targets: Seq<HandId>, held: bool, i: int) -> Option<(HandId, LurePredicate)>
    decreases 195 - i,
{
    if i < 0 || i >= 195 {
        None
    } else {
        let p = lure_step_card(i);
        if hand.contains(fish_card_spec(p.rank, p.suit) as u8) == held
            && memory.likely_to_fill_rank_spec(targets[i % 3], p.rank) {
            Some((targets[i % 3], p))
        } else {
            lure_likely_from(memory, hand, targets, held, i + 1)
        }
    }
}

/// The first card from position `i` of the list of all fish cards, by rank and
/// then suit, that `hand` lacks and of which nothing is known.
pub open spec fn lure_unknown_from(memory: Memory, hand: Seq<Card>, i: int) -> Option<LurePredicate>
    decreases 65 - i,
{
    if i < 0 || i >= 65 {
        None
    } else {
        let p = LurePredicate { rank: Rank::from_index(i / 5), suit: Suit::from_index(i % 5) };
        if !hand.contains(fish_card_spec(p.rank, p.suit) as u8) && memory.unknown_spec(p.rank, p.suit) {
            Some(p)
        } else {
            lure_unknown_from(memory, hand, i + 1)
        }
    }
}

/// What to lure for: a card we lack from someone who seems to be collecting its
/// rank; else, when it is time to shed zingers, a card we hold from such a
/// player, or else a card nothing is known of from the first other player.
pub open spec fn lure_play_spec(cards: Cards, hand: Seq<Card>, stack: Seq<Play>, memories: Memories, own_id: CpuId) -> Option<(HandId, LurePredicate)> {
    let targets = HandId::from_cpu_spec(own_id).besides_spec();
    let memory = memories.memory_spec(own_id);
    match lure_likely_from(memory, hand, targets, false, 0) {
        Some(found) => Some(found),
        None => if should_shed_spec(cards, hand, stack) {
            match lure_likely_from(memory, hand, targets, true, 0) {
                Some(found) => Some(found),
                None => match lure_unknown_from(memory, hand, 0) {
                    Some(p) => Some((targets[0], p)),
                    None => None,
                },
            }
        } else {
            None
        },
    }
}

fn lure_search(memory: &Memory, hand: &Hand, targets: &[HandId; 3], held: bool) -> (res: Option<(HandId, LurePredicate)>)
    ensures
        res == lure_likely_from(*memory, hand@, targets@, held, 0),
{
    let mut i: usize = 0;
    while i < 195
        invariant
            i <= 195,
            lure_likely_from(*memory, hand@, targets@, held, 0) == lure_likely_from(*memory, hand@, targets@, held, i as int),
        decreases 195 - i,
    {
        let rank = Rank::from_u8((i / 15) as u8);
        let suit = Suit::from_u8(((i / 3) % 5) as u8);
        let target = targets[i % 3];
        if hand.contains(fish_card(rank, suit)) == held && memory.is_likely_to_fill_rank_soon(target, rank) {
            return Some((target, LurePredicate { rank, suit }));
        }
        i = i + 1;
    }
    None
}

pub fn useful_the_lure_play(cards: &Cards, hand: &Hand, stack: &[Play], memories: &Memories, own_id: CpuId) -> (res: Option<(HandId, LurePredicate)>)
    ensures
        res == lure_play_spec(*cards, hand@, stack@, *memories, own_id),
{
    let targets = HandId::from(own_id).besides();
    let memory = memories.memory(own_id);
    match lure_search(memory, hand, &targets, false) {
        Some(found) => {
            return Some(found);
        },
        None => {},
    }
    if should_shed_zingers(cards, hand, stack) {
        match lure_search(memory, hand, &targets, true) {
            Some(found) => {
                return Some(found);
            },
            None => {},
        }
        let mut i: usize = 0;
        while i < 65
            invariant
                i <= 65,
                targets@ == HandId::from_cpu_spec(own_id).besides_spec(),
                *memory == memories.memory_spec(own_id),
                lure_unknown_from(*memory, hand@, 0) == lure_unknown_from(*memory, hand@, i as int),
                lure_likely_from(*memory, hand@, targets@, false, 0) is None,
                lure_likely_from(*memory, hand@, targets@, true, 0) is None,
                should_shed_spec(*cards, hand@, stack@),
            decreases 65 - i,
        {
            let rank = Rank::from_u8((i / 5) as u8);
            let suit = Suit::from_u8((i % 5) as u8);
            if !hand.contains(fish_card(rank, suit)) && memory.is_unknown(rank, suit) {
                return Some((targets[0], LurePredicate { rank, suit }));
            }
            i = i + 1;
        }
    }
    None
}

/// Whether `hand` holds any fish card of `rank` that `target` seems about to
/// complete, for the ranks from `Rank::ALL[i]` on.
pub open spec fn any_rank_from(memory: Memory, hand: Seq<Card>, target: HandId, suit: Suit, i: int) -> bool
    decreases 13 - i,
{
    if i < 0 || i >= 13 {
        false
    } else {
        (hand.contains(fish_card_spec(Rank::from_index(i), suit) as u8)
            && memory.likely_to_fill_rank_spec(target, Rank::from_index(i)))
            || any_rank_from(memory, hand, target, suit, i + 1)
    }
}

/// Whether `hand` holds any card of `rank`, among the suits from `Suit::ALL[i]` on.
pub open spec fn any_suit_from(hand: Seq<Card>, rank: Rank, i: int) -> bool
    decreases 5 - i,
{
    if i < 0 || i >= 5 {
        false
    } else {
        hand.contains(fish_card_spec(rank, Suit::from_index(i)) as u8) || any_suit_from(hand, rank, i + 1)
    }
}

/// Whether to answer a question with no fishing: always near the end of the
/// game, else when the asker seems to be collecting a rank we hold cards of that
/// the question asks about.
pub open spec fn no_fishing_spec(memory: Memory, hand: Seq<Card>, target: HandId, predicate: Predicate, active_count: ActiveCardCount) -> bool {
    if active_count == ActiveCardCount::VeryFew {
        true
    } else {
        match predicate {
            Predicate::RankSuit(rank, suit) => hand.contains(fish_card_spec(rank, suit) as u8)
                && memory.likely_to_fill_rank_spec(target, rank),
            Predicate::Net(NetPredicate::Rank(rank)) => any_suit_from(hand, rank, 0)
                && memory.likely_to_fill_rank_spec(target, rank),
            Predicate::Net(NetPredicate::Suit(suit)) => any_rank_from(memory, hand, target, suit, 0),
        }
    }
}

pub fn should_use_no_fishing_against(memory: &Memory, hand: &Hand, target: HandId, predicate: Predicate, active_count: ActiveCardCount) -> (res: bool)
    ensures
        res == no_fishing_spec(*memory, hand@, target, predicate, active_count),
        (res && active_count == ActiveCardCount::Several) ==> (predicate matches Predicate::RankSuit(rank, suit)
            ==> exists|i: int|
            0 <= i < hand@.len() && get_rank_spec(#[trigger] hand@[i]) == Some(rank) && get_suit_spec(hand@[i])
                == Some(suit)),
{
    proof {
        if let Predicate::RankSuit(rank, suit) = predicate {
            lemma_no_fishing_protects_a_held_card(*memory, hand@, target, rank, suit);
        }
    }
    if active_count == ActiveCardCount::VeryFew {
        return true;
    }
    match predicate {
        Predicate::RankSuit(rank, suit) => {
            hand.contains(fish_card(rank, suit)) && memory.is_likely_to_fill_rank_soon(target, rank)
        },
        Predicate::Net(NetPredicate::Rank(rank)) => {
            let mut any = false;
            let mut i: usize = 5;
            while i > 0
                invariant
                    i <= 5,
                    any == any_suit_from(hand@, rank, i as int),
                decreases i,
            {
                i = i - 1;
                any = hand.contains(fish_card(rank, Suit::from_u8(i as u8))) || any;
            }
            any && memory.is_likely_to_fill_rank_soon(target, rank)
        },
        Predicate::Net(NetPredicate::Suit(suit)) => {
            let mut any = false;
            let mut i: usize = 13;
            while i > 0
                invariant
                    i <= 13,
                    any == any_rank_from(*memory, hand@, target, suit, i as int),
                decreases i,
            {
                i = i - 1;
                let rank = Rank::from_u8(i as u8);
                any = (hand.contains(fish_card(rank, suit)) && memory.is_likely_to_fill_rank_soon(
                    target,
                    rank,
                )) || any;
            }
            any
        },
    }
}

/// Whether to play the two-fisted fisherman after fishing unsuccessfully: the
/// computer players play it whenever they hold it.
pub fn can_and_should_play_two_fisted_fisherman(memories: &Memories, hand: &Hand, source: CpuId, active_count: ActiveCardCount) -> (res: bool)
    ensures
        res == hand@.contains(TWO_FISTED_FISHERMAN),
{
    if !hand.contains(TWO_FISTED_FISHERMAN) {
        return false;
    }
    if active_count == ActiveCardCount::VeryFew {
        return true;
    }
    let targets = HandId::from(source).besides();
    let memory = memories.memory(source);
    let mut i: usize = 0;
    while i < 195
        invariant
            i <= 195,
            hand@.contains(TWO_FISTED_FISHERMAN),
        decreases 195 - i,
    {
        let rank = Rank::from_u8((i / 15) as u8);
        let suit = Suit::from_u8(((i / 3) % 5) as u8);
        if hand.contains(fish_card(rank, suit)) && memory.is_likely_to_fill_rank_soon(targets[i % 3], rank) {
            return true;
        }
        i = i + 1;
    }
    true
}

/// Unless very few cards are left, a computer player blocks a question for
/// the card of a rank and a suit with No Fishing only while it holds that very
/// card, and only where the asker seems about to complete that rank.
pub proof fn lemma_no_fishing_protects_a_held_card(
    memory: Memory,
    hand: Seq<Card>,
    target: HandId,
    rank: Rank,
    suit: Suit,
)
    ensures
        no_fishing_spec(memory, hand, target, Predicate::RankSuit(rank, suit), ActiveCardCount::Several)
            ==> (exists|i: int|
            0 <= i < hand.len() && get_rank_spec(#[trigger] hand[i]) == Some(rank) && get_suit_spec(hand[i])
                == Some(suit)) && memory.likely_to_fill_rank_spec(target, rank),
{
    if no_fishing_spec(memory, hand, target, Predicate::RankSuit(rank, suit), ActiveCardCount::Several) {
        let c = fish_card_spec(rank, suit) as u8;
        assert(hand.contains(c));
        let i = choose|i: int| 0 <= i < hand.len() && hand[i] == c;
        crate::models::lemma_fish_card_has_rank_and_suit(rank, suit);
        assert(get_rank_spec(hand[i]) == Some(rank));
    }
}

/// The card that a computer player lures for when it knows nothing to go on
/// is one missing from its own hand, of which its memory knows nothing; and
/// every card before it, in the order of ranks then suits, is held or known of.
pub proof fn lemma_lure_unknown_is_missing(memory: Memory, hand: Seq<Card>, i: int)
    requires
        0 <= i,
    ensures
        lure_unknown_from(memory, hand, i) matches Some(p) ==> {
            &&& forall|k: int| 0 <= k < hand.len() ==> !(get_rank_spec(#[trigger] hand[k]) == Some(p.rank)
                && get_suit_spec(hand[k]) == Some(p.suit))
            &&& memory.unknown_spec(p.rank, p.suit)
        },
    decreases 65 - i,
{
    if i < 65 {
        let p = LurePredicate { rank: Rank::from_index(i / 5), suit: Suit::from_index(i % 5) };
        if !hand.contains(fish_card_spec(p.rank, p.suit) as u8) && memory.unknown_spec(p.rank, p.suit) {
            assert forall|k: int| 0 <= k < hand.len() implies !(get_rank_spec(#[trigger] hand[k]) == Some(p.rank)
                && get_suit_spec(hand[k]) == Some(p.suit)) by {
                if get_rank_spec(hand[k]) == Some(p.rank) && get_suit_spec(hand[k]) == Some(p.suit) {
                    crate::models::lemma_rank_and_suit_give_back_fish_card(hand[k]);
                    assert(hand.contains(hand[k]));
                }
            }
        } else {
            lemma_lure_unknown_is_missing(memory, hand, i + 1);
        }
    }
}

} // verus!
