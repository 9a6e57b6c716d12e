//! What a player can ask for.
use vstd::prelude::*;
use vstd::string::StringSliceAdditionalSpecFns;

use super::{
    Card,
    Rank,
    Suit,
    THE_NET,
    fish_card,
    fish_card_spec,
    get_rank,
    get_rank_spec,
    get_suit,
    get_suit_spec,
};

verus! {

/// What the net can catch: every card of a suit, or every card of a rank.
#[derive(Clone, Copy, Debug, PartialEq, Eq, Structural)]
pub enum NetPredicate {
    Suit(Suit),
    Rank(Rank),
}

impl Default for NetPredicate {
    fn default() -> (res: Self)
        ensures
            res == NetPredicate::Suit(Suit::Red),
    {
        NetPredicate::Suit(Suit::Red)
    }
}

impl NetPredicate {
    pub const COUNT: u8 = 18;

    pub open spec fn matches_spec(self, card: Card) -> bool {
        match self {
            NetPredicate::Suit(suit) => get_suit_spec(card) == Some(suit),
            NetPredicate::Rank(rank) => get_rank_spec(card) == Some(rank),
        }
    }

    /// Whether the card is one that the net catches.
    pub fn matches(self, card: Card) -> (res: bool)
        ensures
            res == self.matches_spec(card),
    {
        match self {
            NetPredicate::Suit(suit) => match get_suit(card) {
                Some(s) => s == suit,
                None => false,
            },
            NetPredicate::Rank(rank) => match get_rank(card) {
                Some(r) => r == rank,
                None => false,
            },
        }
    }

    /// The card to show for this predicate: the net.
    pub fn display_card(self) -> (res: Card)
        ensures
            res == THE_NET,
    {
        THE_NET
    }

    /// The position in the list of all predicates: the suits first, then the ranks.
    pub open spec fn index(self) -> int {
        match self {
            NetPredicate::Suit(suit) => suit.index(),
            NetPredicate::Rank(rank) => 5 + rank.index(),
        }
    }

    /// The predicate at position `i` of the list of all predicates.
    pub open spec fn from_index(i: int) -> NetPredicate {
        if i < 5 {
            NetPredicate::Suit(Suit::from_index(i))
        } else {
            NetPredicate::Rank(Rank::from_index(i - 5))
        }
    }

    /// The predicate at position `i` of the list of all predicates.
    pub fn from_u8(i: u8) -> (res: NetPredicate)
        requires
            i < 18,
        ensures
            res == NetPredicate::from_index(i as int),
            res.index() == i,
    {
        if i < 5 {
            NetPredicate::Suit(Suit::from_u8(i))
        } else {
            NetPredicate::Rank(Rank::from_u8(i - 5))
        }
    }

    /// The name of what the predicate catches.
    pub open spec fn name(self) -> &'static str {
        match self {
            NetPredicate::Suit(suit) => suit.name(),
            NetPredicate::Rank(rank) => rank.name(),
        }
    }

    /// The name of what the predicate catches, as bytes.
    pub fn text(self) -> (res: &'static [u8])
        ensures
            res@ == self.name().spec_bytes(),
    {
        match self {
            NetPredicate::Suit(suit) => suit.text(),
            NetPredicate::Rank(rank) => rank.text(),
        }
    }

    /// The position of this predicate in the list of all predicates.
    pub fn index_of(&self) -> (res: usize)
        ensures
            res == self.index(),
            res < 18,
    {
        let mut i: u8 = 0;
        while i < 18
            invariant
                i <= 18,
                i <= self.index(),
                0 <= self.index() < 18,
            decreases 18 - i,
        {
            if Self::from_u8(i) == *self {
                return i as usize;
            }
            i = i + 1;
        }
        proof {
            assert(false);
        }
        0
    }

    /// Moves to the next predicate, the last being followed by the first.
    pub fn wrapping_inc(&mut self)
        ensures
            final(self).index() == (old(self).index() + 1) % 18,
    {
        let index = self.index_of();
        *self = Self::from_u8(if index >= 17 { 0 } else { (index + 1) as u8 });
    }

    /// Moves to the previous predicate, the first being preceded by the last.
    pub fn wrapping_dec(&mut self)
        ensures
            final(self).index() == (old(self).index() + 17) % 18,
    {
        let index = self.index_of();
        *self = Self::from_u8(if index == 0 { 17 } else { (index - 1) as u8 });
    }
}

/// A predicate is determined by its position in the list of all predicates.
pub proof fn lemma_net_predicate_index_determines(p: NetPredicate, q: NetPredicate)
    ensures
        0 <= p.index() < 18,
        NetPredicate::from_index(p.index()) == p,
        p.index() == q.index() ==> p == q,
{
    assert(NetPredicate::from_index(p.index()) == p);
    assert(NetPredicate::from_index(q.index()) == q);
}

/// Moving to the next net predicate and back, or back and then forward, gives the
/// predicate back.
pub proof fn lemma_net_predicate_inc_dec_inverse(p: NetPredicate)
    ensures
        ((p.index() + 1) % 18 + 17) % 18 == p.index(),
        ((p.index() + 17) % 18 + 1) % 18 == p.index(),
{
}

/// What the lure asks for: one fish card.
#[derive(Clone, Copy, Debug, Default, PartialEq, Eq, Structural)]
pub struct LurePredicate {
    pub rank: Rank,
    pub suit: Suit,
}

impl LurePredicate {
    pub const COUNT: u8 = 65;

    /// The position in the list of all predicates, which is ordered by suit and then
    /// by rank.
    pub open spec fn index(self) -> int {
        self.suit.index() * 13 + self.rank.index()
    }

    pub open spec fn from_index(i: int) -> LurePredicate {
        LurePredicate { suit: Suit::from_index(i / 13), rank: Rank::from_index(i % 13) }
    }

    /// The predicate at position `i` of the list of all predicates.
    pub fn from_u8(i: u8) -> (res: LurePredicate)
        requires
            i < 65,
        ensures
            res == LurePredicate::from_index(i as int),
            res.index() == i,
    {
        LurePredicate { suit: Suit::from_u8(i / 13), rank: Rank::from_u8(i % 13) }
    }

    /// The name of the card asked for, as bytes: the suit, a space and the rank.
    pub fn text(self) -> (res: Vec<u8>)
        ensures
            res@ == self.suit.name().spec_bytes() + seq![32u8] + self.rank.name().spec_bytes(),
    {
        let mut out: Vec<u8> = Vec::new();
        let suit_text = self.suit.text();
        let mut i: usize = 0;
        while i < suit_text.len()
            invariant
                i <= suit_text@.len(),
                out@ == suit_text@.take(i as int),
            decreases suit_text.len() - i,
        {
            out.push(suit_text[i]);
            i = i + 1;
            assert(out@ =~= suit_text@.take(i as int));
        }
        assert(suit_text@.take(suit_text@.len() as int) =~= suit_text@);
        out.push(32u8);
        let rank_text = self.rank.text();
        let ghost prefix = out@;
        let mut j: usize = 0;
        while j < rank_text.len()
            invariant
                j <= rank_text@.len(),
                out@ == prefix + rank_text@.take(j as int),
            decreases rank_text.len() - j,
        {
            out.push(rank_text[j]);
            j = j + 1;
            assert(out@ =~= prefix + rank_text@.take(j as int));
        }
        assert(rank_text@.take(rank_text@.len() as int) =~= rank_text@);
        out
    }

    /// The position of this predicate in the list of all predicates.
    pub fn index_of(&self) -> (res: usize)
        ensures
            res == self.index(),
            res < 65,
    {
        let mut i: u8 = 0;
        while i < 65
            invariant
                i <= 65,
                i <= self.index(),
                0 <= self.index() < 65,
            decreases 65 - i,
        {
            if Self::from_u8(i) == *self {
                return i as usize;
            }
            i = i + 1;
        }
        proof {
            assert(false);
        }
        0
    }

    /// Moves to the next predicate, the last being followed by the first.
    pub fn wrapping_inc(&mut self)
        ensures
            final(self).index() == (old(self).index() + 1) % 65,
    {
        let index = self.index_of();
        *self = Self::from_u8(if index >= 64 { 0 } else { (index + 1) as u8 });
    }

    /// Moves to the previous predicate, the first being preceded by the last.
    pub fn wrapping_dec(&mut self)
        ensures
            final(self).index() == (old(self).index() + 64) % 65,
    {
        let index = self.index_of();
        *self = Self::from_u8(if index == 0 { 64 } else { (index - 1) as u8 });
    }
}

/// A lure predicate is determined by its position in the list of all predicates.
pub proof fn lemma_lure_predicate_index_determines(p: LurePredicate, q: LurePredicate)
    ensures
        0 <= p.index() < 65,
        LurePredicate::from_index(p.index()) == p,
        p.index() == q.index() ==> p == q,
{
    assert(LurePredicate::from_index(p.index()) == p);
    assert(LurePredicate::from_index(q.index()) == q);
}

/// What someone asks for.
#[derive(Clone, Copy, Debug, PartialEq, Eq, Structural)]
pub enum Predicate {
    RankSuit(Rank, Suit),
    Net(NetPredicate),
}

impl Predicate {
    pub open spec fn matches_spec(self, card: Card) -> bool {
        match self {
            Predicate::RankSuit(rank, suit) => card == fish_card_spec(rank, suit),
            Predicate::Net(net_predicate) => net_predicate.matches_spec(card),
        }
    }

    /// Whether the card is one that the predicate asks for.
    pub fn matches(self, card: Card) -> (res: bool)
        ensures
            res == self.matches_spec(card),
            self matches Predicate::RankSuit(rank, suit) ==> (res <==> (get_rank_spec(card) == Some(rank)
                && get_suit_spec(card) == Some(suit))),
    {
        proof {
            if let Predicate::RankSuit(rank, suit) = self {
                lemma_rank_suit_matches_only_that_card(rank, suit, card);
            }
        }
        match self {
            Predicate::RankSuit(rank, suit) => card == fish_card(rank, suit),
            Predicate::Net(net_predicate) => net_predicate.matches(card),
        }
    }

    /// The card to show for the predicate.
    pub fn display_card(self) -> (res: Card)
        ensures
            res == match self {
                Predicate::RankSuit(rank, suit) => fish_card_spec(rank, suit),
                Predicate::Net(_) => THE_NET as int,
            },
    {
        match self {
            Predicate::RankSuit(rank, suit) => fish_card(rank, suit),
            Predicate::Net(net_predicate) => net_predicate.display_card(),
        }
    }
}

/// A question for a card of a rank and a suit matches exactly the one card
/// that has that rank and that suit, and no card of another suit.
pub proof fn lemma_rank_suit_matches_only_that_card(rank: Rank, suit: Suit, card: Card)
    ensures
        Predicate::RankSuit(rank, suit).matches_spec(card) <==> (get_rank_spec(card) == Some(rank) && get_suit_spec(
            card,
        ) == Some(suit)),
{
    super::lemma_fish_card_has_rank_and_suit(rank, suit);
    if get_rank_spec(card) == Some(rank) && get_suit_spec(card) == Some(suit) {
        super::lemma_rank_and_suit_give_back_fish_card(card);
    }
}

} // verus!
