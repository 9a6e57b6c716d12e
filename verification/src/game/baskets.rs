//! Taking complete baskets, all five suits of a rank, out of a hand.
use vstd::prelude::*;
use crate::game::anytime::rank_indices;
use crate::memories::{Location, Memories};
use crate::models::{CpuId, get_rank, get_rank_spec, Basket, Card, Hand, Rank, DECK_SIZE, FISH_COUNT};

verus! {

/// The rank of the first card, from position `i` of `cards` on, of which `cards`
/// holds at least five.
pub open spec fn first_basket_from(cards: Seq<Card>, i: int) -> Option<Rank>
    decreases cards.len() - i,
{
    if i < 0 || i >= cards.len() {
        None
    } else {
        match get_rank_spec(cards[i]) {
            Some(rank) => if rank_indices(cards, rank).len() >= 5 {
                Some(rank)
            } else {
                first_basket_from(cards, i + 1)
            },
            None => first_basket_from(cards, i + 1),
        }
    }
}

/// The basket that `remove_basket` takes out of `cards`, and what is left: the
/// first five cards of the rank of the first card of which there are five, in
/// reverse order.
pub open spec fn remove_basket_spec(cards: Seq<Card>) -> Option<(Basket, Seq<Card>)> {
    match first_basket_from(cards, 0) {
        None => None,
        Some(rank) => {
            let idx = rank_indices(cards, rank);
            let (a, b, c, d, e) = (idx[0] as int, idx[1] as int, idx[2] as int, idx[3] as int, idx[4] as int);
            Some(
                (
                    [cards[e], cards[d], cards[c], cards[b], cards[a]],
                    cards.remove(e).remove(d).remove(c).remove(b).remove(a),
                ),
            )
        },
    }
}

/// The positions that `rank_indices` lists are increasing, in range, and hold
/// cards of the rank; and every card of the rank is listed.
pub proof fn lemma_rank_indices(cards: Seq<Card>, rank: Rank)
    requires
        cards.len() <= 256,
    ensures
        forall|k: int|
            0 <= k < rank_indices(cards, rank).len() ==> (#[trigger] rank_indices(cards, rank)[k])
                < cards.len() && get_rank_spec(cards[rank_indices(cards, rank)[k] as int]) == Some(
                rank,
            ),
        forall|j: int, k: int|
            0 <= j < k < rank_indices(cards, rank).len() ==> #[trigger] rank_indices(cards, rank)[j]
                < #[trigger] rank_indices(cards, rank)[k],
        forall|i: int|
            0 <= i < cards.len() && get_rank_spec(cards[i]) == Some(rank) ==> #[trigger] rank_indices(
                cards,
                rank,
            ).contains(i as u8),
    decreases cards.len(),
{
    if cards.len() > 0 {
        let rest = cards.drop_last();
        lemma_rank_indices(rest, rank);
        assert forall|i: int|
            0 <= i < cards.len() && get_rank_spec(cards[i]) == Some(rank) implies #[trigger] rank_indices(
                cards,
                rank,
            ).contains(i as u8) by {
            if i < cards.len() - 1 {
                assert(rest[i] == cards[i]);
                assert(rank_indices(rest, rank).contains(i as u8));
                let k = choose|k: int| 0 <= k < rank_indices(rest, rank).len() && rank_indices(rest, rank)[k] == i as u8;
                assert(rank_indices(cards, rank)[k] == i as u8);
            } else {
                assert(rank_indices(cards, rank).last() == i as u8);
            }
        }
    }
}

pub proof fn lemma_first_basket_some(cards: Seq<Card>, i: int)
    requires
        0 <= i,
        first_basket_from(cards, i) is Some,
    ensures
        rank_indices(cards, first_basket_from(cards, i)->0).len() >= 5,
    decreases cards.len() - i,
{
    if i < cards.len() {
        match get_rank_spec(cards[i]) {
            Some(rank) => {
                if rank_indices(cards, rank).len() < 5 {
                    lemma_first_basket_some(cards, i + 1);
                }
            },
            None => {
                lemma_first_basket_some(cards, i + 1);
            },
        }
    }
}

/// Where no rank from position `i` on starts a basket, none of those cards' ranks
/// has five cards.
proof fn lemma_first_basket_none(cards: Seq<Card>, i: int)
    requires
        0 <= i,
        cards.len() <= 256,
        first_basket_from(cards, i) is None,
    ensures
        forall|j: int|
            i <= j < cards.len() && #[trigger] get_rank_spec(cards[j]) is Some ==> rank_indices(
                cards,
                get_rank_spec(cards[j])->0,
            ).len() < 5,
    decreases cards.len() - i,
{
    if i < cards.len() {
        lemma_first_basket_none(cards, i + 1);
    }
}

/// The positions of the cards of `rank` in `cards`.
fn rank_positions(cards: &Vec<Card>, rank: Rank) -> (res: Vec<u8>)
    requires
        cards@.len() <= DECK_SIZE,
    ensures
        res@ == rank_indices(cards@, rank),
{
    let mut out: Vec<u8> = Vec::new();
    let mut i: usize = 0;
    while i < cards.len()
        invariant
            i <= cards@.len(),
            cards@.len() <= DECK_SIZE,
            out@ == rank_indices(cards@.take(i as int), rank),
        decreases cards@.len() - i,
    {
        assert(cards@.take(i + 1).drop_last() =~= cards@.take(i as int));
        match get_rank(cards[i]) {
            Some(r) => {
                if r == rank {
                    out.push(i as u8);
                }
            },
            None => {},
        }
        i = i + 1;
    }
    assert(cards@.take(i as int) =~= cards@);
    out
}

/// Takes the first complete basket out of `hand`, if there is one.
pub fn remove_basket(hand: &mut Hand) -> (res: Option<Basket>)
    ensures
        match remove_basket_spec(old(hand)@) {
            None => res is None && final(hand)@ == old(hand)@,
            Some((basket, rest)) => res == Some(basket) && final(hand)@ == rest,
        },
{
    let cards = hand.iter();
    let mut i: usize = 0;
    while i < cards.len()
        invariant
            i <= cards@.len(),
            cards@ == hand@,
            hand@ == old(hand)@,
            cards@.len() <= DECK_SIZE,
            first_basket_from(cards@, 0) == first_basket_from(cards@, i as int),
        decreases cards@.len() - i,
    {
        match get_rank(cards[i]) {
            Some(rank) => {
                let idx = rank_positions(&cards, rank);
                if idx.len() >= 5 {
                    proof {
                        lemma_rank_indices(cards@, rank);
                        assert(idx@[0] < idx@[1] && idx@[1] < idx@[2] && idx@[2] < idx@[3] && idx@[3] < idx@[4]);
                    }
                    let (a, b, c, d, e) = (idx[0], idx[1], idx[2], idx[3], idx[4]);
                    let ghost s0 = hand@;
                    let c1 = hand.remove(e);
                    let c2 = hand.remove(d);
                    let c3 = hand.remove(c);
                    let c4 = hand.remove(b);
                    let c5 = hand.remove(a);
                    match (c1, c2, c3, c4, c5) {
                        (Some(c1), Some(c2), Some(c3), Some(c4), Some(c5)) => {
                            assert(s0.remove(e as int)[d as int] == s0[d as int]);
                            assert(s0.remove(e as int).remove(d as int)[c as int] == s0[c as int]);
                            assert(s0.remove(e as int).remove(d as int).remove(c as int)[b as int] == s0[b as int]);
                            assert(s0.remove(e as int).remove(d as int).remove(c as int).remove(b as int)[a as int] == s0[a as int]);
                            return Some([c1, c2, c3, c4, c5]);
                        },
                        _ => {
                            proof {
                                assert(false);
                            }
                            return None;
                        },
                    }
                }
            },
            None => {},
        }
        i = i + 1;
    }
    None
}

/// Whether `cards` holds fewer than five cards of every rank.
pub open spec fn no_basket_in(cards: Seq<Card>) -> bool {
    forall|rank: Rank| #[trigger] rank_indices(cards, rank).len() < 5
}

/// What is left of `hand`, and what `baskets` becomes, once every complete
/// basket has been taken out of `hand`, one after another, as `remove_basket`
/// takes them, and put on `baskets`.
pub open spec fn collected(hand: Seq<Card>, baskets: Seq<Card>) -> (Seq<Card>, Seq<Card>)
    decreases hand.len(),
{
    match remove_basket_spec(hand) {
        None => (hand, baskets),
        Some((basket, rest)) => if rest.len() < hand.len() {
            collected(rest, baskets + basket@)
        } else {
            (hand, baskets)
        },
    }
}

/// Takes every complete basket out of `hand` and puts its cards on `baskets`,
/// noting each in `memories`.
pub fn collect_baskets(hand: &mut Hand, baskets: &mut Hand, memories: &mut Memories)
    requires
        old(hand)@.len() + old(baskets)@.len() <= DECK_SIZE,
    ensures
        (final(hand)@, final(baskets)@) == collected(old(hand)@, old(baskets)@),
        no_basket_in(final(hand)@),
        forall|id: CpuId, c: int|
            0 <= c < DECK_SIZE ==> #[trigger] final(memories).memory_spec(id).locations_spec()[c] == if final(baskets)@.subrange(
                old(baskets)@.len() as int,
                final(baskets)@.len() as int,
            ).contains(c as u8) {
                Location::KnownGone
            } else {
                old(memories).memory_spec(id).locations_spec()[c]
            },
        forall|id: CpuId| #[trigger] final(memories).memory_spec(id).did_not_have_spec() == old(memories).memory_spec(id).did_not_have_spec(),
        final(hand)@.len() + final(baskets)@.len() == old(hand)@.len() + old(baskets)@.len(),
        final(baskets)@.len() >= old(baskets)@.len(),
        final(baskets)@.subrange(0, old(baskets)@.len() as int) == old(baskets)@,
{
    loop
        invariant
            collected(hand@, baskets@) == collected(old(hand)@, old(baskets)@),
            forall|id: CpuId, c: int|
                0 <= c < DECK_SIZE ==> #[trigger] memories.memory_spec(id).locations_spec()[c] == if baskets@.subrange(
                    old(baskets)@.len() as int,
                    baskets@.len() as int,
                ).contains(c as u8) {
                    Location::KnownGone
                } else {
                    old(memories).memory_spec(id).locations_spec()[c]
                },
            forall|id: CpuId| #[trigger] memories.memory_spec(id).did_not_have_spec() == old(
                memories,
            ).memory_spec(id).did_not_have_spec(),
            hand@.len() + baskets@.len() == old(hand)@.len() + old(baskets)@.len(),
            old(hand)@.len() + old(baskets)@.len() <= DECK_SIZE,
            baskets@.len() >= old(baskets)@.len(),
            baskets@.subrange(0, old(baskets)@.len() as int) == old(baskets)@,
        ensures
            (hand@, baskets@) == collected(old(hand)@, old(baskets)@),
            forall|id: CpuId, c: int|
                0 <= c < DECK_SIZE ==> #[trigger] memories.memory_spec(id).locations_spec()[c] == if baskets@.subrange(
                    old(baskets)@.len() as int,
                    baskets@.len() as int,
                ).contains(c as u8) {
                    Location::KnownGone
                } else {
                    old(memories).memory_spec(id).locations_spec()[c]
                },
            forall|id: CpuId| #[trigger] memories.memory_spec(id).did_not_have_spec() == old(
                memories,
            ).memory_spec(id).did_not_have_spec(),
            no_basket_in(hand@),
            hand@.len() + baskets@.len() == old(hand)@.len() + old(baskets)@.len(),
            baskets@.len() >= old(baskets)@.len(),
            baskets@.subrange(0, old(baskets)@.len() as int) == old(baskets)@,
        decreases hand@.len(),
    {
        let ghost before = hand@;
        let ghost before_baskets = baskets@;
        match remove_basket(hand) {
            None => {
                proof {
                    lemma_first_basket_none(before, 0);
                    assert forall|rank: Rank| #[trigger] rank_indices(before, rank).len() < 5 by {
                        lemma_rank_indices(before, rank);
                        if rank_indices(before, rank).len() >= 5 {
                            let j = rank_indices(before, rank)[0] as int;
                            assert(get_rank_spec(before[j]) == Some(rank));
                        }
                    }
                }
                break;
            },
            Some(basket) => {
                proof {
                    let rank = first_basket_from(before, 0)->0;
                    lemma_first_basket_some(before, 0);
                    lemma_rank_indices(before, rank);
                    let idx = rank_indices(before, rank);
                    assert(idx[0] < idx[1] && idx[1] < idx[2] && idx[2] < idx[3] && idx[3] < idx[4]);
                    assert(idx[4] < before.len());
                    assert(get_rank_spec(before[idx[0] as int]) == Some(rank));
                    assert(get_rank_spec(before[idx[1] as int]) == Some(rank));
                    assert(get_rank_spec(before[idx[2] as int]) == Some(rank));
                    assert(get_rank_spec(before[idx[3] as int]) == Some(rank));
                    assert(get_rank_spec(before[idx[4] as int]) == Some(rank));
                    assert(basket@[0] < FISH_COUNT);
                    assert(basket@[1] < FISH_COUNT);
                    assert(basket@[2] < FISH_COUNT);
                    assert(basket@[3] < FISH_COUNT);
                    assert(basket@[4] < FISH_COUNT);
                    assert(hand@.len() + 5 == before.len());
                }
                memories.basket_removed(basket);
                let mut k: usize = 0;
                while k < 5
                    invariant
                        k <= 5,
                        forall|j: int| 0 <= j < 5 ==> #[trigger] basket@[j] < FISH_COUNT,
                        hand@.len() + 5 == before.len(),
                        baskets@ == before_baskets + basket@.take(k as int),
                        before.len() + before_baskets.len() <= DECK_SIZE,
                    decreases 5 - k,
                {
                    baskets.push(basket[k]);
                    k = k + 1;
                    assert(baskets@ =~= before_baskets + basket@.take(k as int));
                }
                assert(basket@.take(5) =~= basket@);
                assert(collected(before, before_baskets) == collected(hand@, baskets@));
                proof {
                    let lo = old(baskets)@.len() as int;
                    let a = before_baskets.subrange(lo, before_baskets.len() as int);
                    let b = basket@;
                    assert(baskets@.subrange(lo, baskets@.len() as int) =~= a + b);
                    assert forall|x: u8| (a + b).contains(x) == (a.contains(x) || b.contains(x)) by {
                        if a.contains(x) {
                            let k = choose|k: int| 0 <= k < a.len() && a[k] == x;
                            assert((a + b)[k] == x);
                        }
                        if b.contains(x) {
                            let k = choose|k: int| 0 <= k < b.len() && b[k] == x;
                            assert((a + b)[a.len() + k] == x);
                        }
                        if (a + b).contains(x) {
                            let k = choose|k: int| 0 <= k < (a + b).len() && (a + b)[k] == x;
                            if k < a.len() {
                                assert(a[k] == x);
                            } else {
                                assert(b[k - a.len()] == x);
                            }
                        }
                    }
                }
                assert(baskets@.subrange(0, old(baskets)@.len() as int) =~= old(baskets)@) by {
                    assert(before_baskets.subrange(0, old(baskets)@.len() as int) == old(baskets)@);
                }
            },
        }
    }
}

} // verus!
