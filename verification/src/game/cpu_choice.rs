//! What a computer player does when its turn comes: ask for a card it knows of
//! or guesses at, play a zinger, or give up.
use vstd::prelude::*;
use crate::game::ai::{
    lure_play_spec, net_play_spec, should_shed_spec, should_shed_zingers, useful_the_lure_play, useful_the_net_play,
};
use crate::game::cards::Cards;
use crate::game::play::Play;
use crate::memories::Memories;
use crate::models::{
    get_rank, get_rank_spec, get_zinger, get_zinger_spec, Card, CpuId, HandId, LurePredicate, NetPredicate,
    Predicate, Suit, Targeting, Zinger, DECK_SIZE,
};

verus! {

/// A zinger that a computer player decides to play on its turn.
#[derive(Clone, Copy, Debug, PartialEq, Eq, Structural)]
pub enum ZingerToPlay {
    DoNotPlay,
    DivineIntervention,
    GameWarden(HandId),
    GlassBottomBoat(HandId),
    Net(HandId, NetPredicate),
    Lure(HandId, LurePredicate),
}

/// What a computer player does on its turn.
#[derive(Clone, Copy, Debug, PartialEq, Eq, Structural)]
pub enum CpuChoice {
    /// Its hand is empty: it says it is dead in the water.
    DeadInTheWater,
    /// It asks a question.
    Ask(Targeting, Predicate),
    /// It plays a zinger, or, with `DoNotPlay`, finds nothing to do.
    Zinger(ZingerToPlay),
}

/// The zingers of `hand` among its first `j` cards, from the last to the first.
pub open spec fn back_zingers(hand: Seq<Card>, j: int) -> Seq<Card>
    decreases j,
{
    if j <= 0 {
        Seq::empty()
    } else {
        (if get_zinger_spec(hand[j - 1]) is Some {
            seq![hand[j - 1]]
        } else {
            Seq::empty()
        }) + back_zingers(hand, j - 1)
    }
}

/// The other cards of `hand` among its first `j`, in order.
pub open spec fn front_others(hand: Seq<Card>, j: int) -> Seq<Card>
    decreases j,
{
    if j <= 0 {
        Seq::empty()
    } else {
        front_others(hand, j - 1) + (if get_zinger_spec(hand[j - 1]) is Some {
            Seq::empty()
        } else {
            seq![hand[j - 1]]
        })
    }
}

/// The order in which a computer player considers its cards: its zingers
/// first, the last one first, then its other cards in order.
pub open spec fn consider_order(hand: Seq<Card>) -> Seq<Card> {
    back_zingers(hand, hand.len() as int) + front_others(hand, hand.len() as int)
}

/// The first of `ids`, from position `i` on, of which `memory` thinks it is
/// likely to complete a basket soon.
pub open spec fn likely_filler_from(memories: Memories, id: CpuId, ids: Seq<HandId>, i: int) -> Option<HandId>
    decreases ids.len() - i,
{
    if i < 0 || i >= ids.len() {
        None
    } else if memories.memory_spec(id).likely_rank_from(ids[i], 12) is Some {
        Some(ids[i])
    } else {
        likely_filler_from(memories, id, ids, i + 1)
    }
}

/// The first of `ids` whose hand is not empty, counting from `offset` round,
/// `count` of them so far.
pub open spec fn non_empty_from(cards: Cards, ids: Seq<HandId>, offset: int, count: int) -> Option<HandId>
    decreases 3 - count,
{
    if count < 0 || count >= 3 {
        None
    } else {
        let target = ids[(count + offset) % 3];
        if cards.hand_spec(target).len() > 0 {
            Some(target)
        } else {
            non_empty_from(cards, ids, offset, count + 1)
        }
    }
}

/// Whether the computer player `id` plays `zinger` now, and how.
pub open spec fn zinger_choice(
    zinger: Zinger,
    cards: Cards,
    stack: Seq<Play>,
    memories: Memories,
    id: CpuId,
    done_something_this_turn: bool,
    boat_offset: int,
) -> Option<ZingerToPlay> {
    let hand_id = HandId::from_cpu_spec(id);
    let hand = cards.hand_spec(hand_id);
    match zinger {
        Zinger::TheNet => if done_something_this_turn {
            None
        } else {
            match net_play_spec(cards, hand, stack, memories, id) {
                Some((target, predicate)) => Some(ZingerToPlay::Net(target, predicate)),
                None => None,
            }
        },
        Zinger::TheLure => if done_something_this_turn {
            None
        } else {
            match lure_play_spec(cards, hand, stack, memories, id) {
                Some((target, predicate)) => Some(ZingerToPlay::Lure(target, predicate)),
                None => None,
            }
        },
        Zinger::DivineIntervention => if !done_something_this_turn && cards.played_zingers_spec() >= 7
            && should_shed_spec(cards, hand, stack) {
            Some(ZingerToPlay::DivineIntervention)
        } else {
            None
        },
        Zinger::TheGameWarden => if cards.discard@.len() > 0 {
            match likely_filler_from(memories, id, hand_id.besides_spec(), 0) {
                Some(target) => Some(ZingerToPlay::GameWarden(target)),
                None => None,
            }
        } else {
            None
        },
        Zinger::GlassBottomBoat => if should_shed_spec(cards, hand, stack) {
            match non_empty_from(cards, hand_id.besides_spec(), boat_offset, 0) {
                Some(target) => Some(ZingerToPlay::GlassBottomBoat(target)),
                None => None,
            }
        } else {
            None
        },
        _ => None,
    }
}

/// What the computer player `id` does, considering its cards `ordered` from
/// position `k` on: the first fish card makes it ask the player at
/// `target_choice` among the others for that rank in `suit`; a zinger that
/// `zinger_choice` plays is played; failing both, it plays nothing.
pub open spec fn choice_from(
    ordered: Seq<Card>,
    k: int,
    cards: Cards,
    stack: Seq<Play>,
    memories: Memories,
    id: CpuId,
    done_something_this_turn: bool,
    target_choice: int,
    suit: Suit,
    boat_offset: int,
) -> CpuChoice
    decreases ordered.len() - k,
{
    if k < 0 || k >= ordered.len() {
        CpuChoice::Zinger(ZingerToPlay::DoNotPlay)
    } else {
        let hand_id = HandId::from_cpu_spec(id);
        match get_rank_spec(ordered[k]) {
            Some(rank) => CpuChoice::Ask(
                Targeting { source: hand_id, target: hand_id.besides_spec()[target_choice] },
                Predicate::RankSuit(rank, suit),
            ),
            None => match get_zinger_spec(ordered[k]) {
                Some(zinger) => match zinger_choice(
                    zinger,
                    cards,
                    stack,
                    memories,
                    id,
                    done_something_this_turn,
                    boat_offset,
                ) {
                    Some(play) => CpuChoice::Zinger(play),
                    None => choice_from(
                        ordered,
                        k + 1,
                        cards,
                        stack,
                        memories,
                        id,
                        done_something_this_turn,
                        target_choice,
                        suit,
                        boat_offset,
                    ),
                },
                None => choice_from(
                    ordered,
                    k + 1,
                    cards,
                    stack,
                    memories,
                    id,
                    done_something_this_turn,
                    target_choice,
                    suit,
                    boat_offset,
                ),
            },
        }
    }
}

/// What the computer player `id` does on its turn: with an empty hand it is
/// dead in the water; a question its memory suggests comes first; otherwise as
/// `choice_from` says, over its cards in `consider_order`.
pub open spec fn cpu_choice_spec(
    cards: Cards,
    stack: Seq<Play>,
    memories: Memories,
    id: CpuId,
    done_something_this_turn: bool,
    target_choice: int,
    suit: Suit,
    boat_offset: int,
) -> CpuChoice {
    let hand_id = HandId::from_cpu_spec(id);
    let hand = cards.hand_spec(hand_id);
    if hand.len() == 0 {
        CpuChoice::DeadInTheWater
    } else {
        match memories.memory_spec(id).informed_question_spec(hand, hand_id) {
            Some((rank, suit_known, target)) => CpuChoice::Ask(
                Targeting { target, source: hand_id },
                Predicate::RankSuit(rank, suit_known),
            ),
            None => choice_from(
                consider_order(hand),
                0,
                cards,
                stack,
                memories,
                id,
                done_something_this_turn,
                target_choice,
                suit,
                boat_offset,
            ),
        }
    }
}

/// The hand's cards in `consider_order`.
fn considered_cards(hand: &Vec<Card>) -> (res: Vec<Card>)
    ensures
        res@ == consider_order(hand@),
{
    let n = hand.len();
    let mut out: Vec<Card> = Vec::new();
    let mut j: usize = n;
    while j > 0
        invariant
            j <= n,
            n == hand@.len(),
            out@ + back_zingers(hand@, j as int) == back_zingers(hand@, n as int),
        decreases j,
    {
        let card = hand[j - 1];
        let ghost before = out@;
        if get_zinger(card).is_some() {
            out.push(card);
        }
        j = j - 1;
        assert(out@ + back_zingers(hand@, j as int) =~= before + back_zingers(hand@, j + 1));
    }
    assert(out@ =~= back_zingers(hand@, n as int));
    let mut i: usize = 0;
    while i < n
        invariant
            i <= n,
            n == hand@.len(),
            out@ == back_zingers(hand@, n as int) + front_others(hand@, i as int),
        decreases n - i,
    {
        let card = hand[i];
        if get_zinger(card).is_none() {
            out.push(card);
        }
        i = i + 1;
        assert(out@ =~= back_zingers(hand@, n as int) + front_others(hand@, i as int));
    }
    out
}

/// The first of the other hands, in turn order, that `memories` of `id` thinks
/// likely to complete a basket soon.
fn likely_filler(memories: &Memories, id: CpuId, ids: &[HandId; 3]) -> (res: Option<HandId>)
    ensures
        res == likely_filler_from(*memories, id, ids@, 0),
{
    let memory = memories.memory(id);
    let mut i: usize = 0;
    while i < 3
        invariant
            i <= 3,
            *memory == memories.memory_spec(id),
            likely_filler_from(*memories, id, ids@, 0) == likely_filler_from(*memories, id, ids@, i as int),
        decreases 3 - i,
    {
        if memory.likely_to_fill_basket_soon(ids[i]).is_some() {
            return Some(ids[i]);
        }
        i = i + 1;
    }
    None
}

/// The first of `ids` whose hand is not empty, counting round from `offset`.
fn non_empty(cards: &Cards, ids: &[HandId; 3], offset: usize) -> (res: Option<HandId>)
    requires
        offset < 3,
    ensures
        res == non_empty_from(*cards, ids@, offset as int, 0),
{
    let mut count: usize = 0;
    while count < 3
        invariant
            count <= 3,
            offset < 3,
            non_empty_from(*cards, ids@, offset as int, 0) == non_empty_from(*cards, ids@, offset as int, count as int),
        decreases 3 - count,
    {
        let target = ids[(count + offset) % 3];
        if cards.hand(target).len() > 0 {
            return Some(target);
        }
        count = count + 1;
    }
    None
}

/// What the computer player `id` does on its turn, as `cpu_choice_spec` says.
/// `target_choice`, `suit` and `boat_offset` are meant to be random: which of
/// the others a guessing question goes to, the suit it asks for, and from which
/// of the others the Glass Bottom Boat starts looking.
pub fn choose_cpu_play(
    cards: &Cards,
    stack: &[Play],
    memories: &Memories,
    id: CpuId,
    done_something_this_turn: bool,
    target_choice: usize,
    suit: Suit,
    boat_offset: usize,
) -> (res: CpuChoice)
    requires
        cards.well_formed(),
        target_choice < 3,
        boat_offset < 3,
    ensures
        res == cpu_choice_spec(
            *cards,
            stack@,
            *memories,
            id,
            done_something_this_turn,
            target_choice as int,
            suit,
            boat_offset as int,
        ),
{
    let hand_id = HandId::from(id);
    let hand = cards.hand(hand_id);
    if hand.is_empty() {
        return CpuChoice::DeadInTheWater;
    }
    match memories.memory(id).informed_question(hand, hand_id) {
        Some((rank, suit_known, target)) => {
            return CpuChoice::Ask(
                Targeting { target, source: hand_id },
                Predicate::RankSuit(rank, suit_known),
            );
        },
        None => {},
    }
    let ordered = considered_cards(&hand.iter());
    let besides = hand_id.besides();
    let ghost spec_ordered = consider_order(cards.hand_spec(hand_id));
    assert(cpu_choice_spec(*cards, stack@, *memories, id, done_something_this_turn, target_choice as int, suit, boat_offset as int)
        == choice_from(spec_ordered, 0, *cards, stack@, *memories, id, done_something_this_turn, target_choice as int, suit, boat_offset as int));
    let mut k: usize = 0;
    while k < ordered.len()
        invariant
            cpu_choice_spec(*cards, stack@, *memories, id, done_something_this_turn, target_choice as int, suit, boat_offset as int)
                == choice_from(spec_ordered, 0, *cards, stack@, *memories, id, done_something_this_turn, target_choice as int, suit, boat_offset as int),
            k <= ordered@.len(),
            ordered@ == spec_ordered,
            besides@ == hand_id.besides_spec(),
            hand_id == HandId::from_cpu_spec(id),
            target_choice < 3,
            boat_offset < 3,
            cards.well_formed(),
            choice_from(spec_ordered, 0, *cards, stack@, *memories, id, done_something_this_turn, target_choice as int, suit, boat_offset as int)
                == choice_from(spec_ordered, k as int, *cards, stack@, *memories, id, done_something_this_turn, target_choice as int, suit, boat_offset as int),
        decreases ordered@.len() - k,
    {
        let card = ordered[k];
        match get_rank(card) {
            Some(rank) => {
                return CpuChoice::Ask(
                    Targeting { source: hand_id, target: besides[target_choice] },
                    Predicate::RankSuit(rank, suit),
                );
            },
            None => {},
        }
        match get_zinger(card) {
            Some(zinger) => {
                let choice = match zinger {
                    Zinger::TheNet => if done_something_this_turn {
                        None
                    } else {
                        match useful_the_net_play(cards, cards.hand(hand_id), stack, memories, id) {
                            Some((target, predicate)) => Some(ZingerToPlay::Net(target, predicate)),
                            None => None,
                        }
                    },
                    Zinger::TheLure => if done_something_this_turn {
                        None
                    } else {
                        match useful_the_lure_play(cards, cards.hand(hand_id), stack, memories, id) {
                            Some((target, predicate)) => Some(ZingerToPlay::Lure(target, predicate)),
                            None => None,
                        }
                    },
                    Zinger::DivineIntervention => if !done_something_this_turn
                        && cards.can_discard_divine_intervention() && should_shed_zingers(
                        cards,
                        cards.hand(hand_id),
                        stack,
                    ) {
                        Some(ZingerToPlay::DivineIntervention)
                    } else {
                        None
                    },
                    Zinger::TheGameWarden => if cards.can_play_game_warden() {
                        match likely_filler(memories, id, &besides) {
                            Some(target) => Some(ZingerToPlay::GameWarden(target)),
                            None => None,
                        }
                    } else {
                        None
                    },
                    Zinger::GlassBottomBoat => if should_shed_zingers(cards, cards.hand(hand_id), stack) {
                        match non_empty(cards, &besides, boat_offset) {
                            Some(target) => Some(ZingerToPlay::GlassBottomBoat(target)),
                            None => None,
                        }
                    } else {
                        None
                    },
                    _ => None,
                };
                match choice {
                    Some(play) => {
                        return CpuChoice::Zinger(play);
                    },
                    None => {},
                }
            },
            None => {},
        }
        k = k + 1;
    }
    CpuChoice::Zinger(ZingerToPlay::DoNotPlay)
}

} // verus!
