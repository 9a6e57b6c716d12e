//! Every pile of cards on the table.
use vstd::prelude::*;
use vstd::string::StringSliceAdditionalSpecFns;
use crate::models::{get_zinger, get_zinger_spec, Card, Hand, HandId, DECK_SIZE};

verus! {

/// The number of zinger cards among `cards`.
pub open spec fn zinger_count(cards: Seq<Card>) -> nat
    decreases cards.len(),
{
    if cards.len() == 0 {
        0
    } else {
        zinger_count(cards.drop_last()) + if get_zinger_spec(cards.last()) is Some {
            1nat
        } else {
            0nat
        }
    }
}

/// Whether few enough cards are still in play that the end of the game is near.
#[derive(Clone, Copy, Debug, PartialEq, Eq, Structural)]
pub enum ActiveCardCount {
    Several,
    VeryFew,
}

pub type CardCount = u8;

/// The deck, each player's hand and baskets, and the discard pile.
pub struct Cards {
    pub deck: Hand,
    pub player: Hand,
    pub cpu1: Hand,
    pub cpu2: Hand,
    pub cpu3: Hand,
    pub player_baskets: Hand,
    pub cpu1_baskets: Hand,
    pub cpu2_baskets: Hand,
    pub cpu3_baskets: Hand,
    pub discard: Hand,
}

impl Clone for Cards {
    fn clone(&self) -> (res: Self)
        ensures
            res.deck@ == self.deck@,
            res.player@ == self.player@,
            res.cpu1@ == self.cpu1@,
            res.cpu2@ == self.cpu2@,
            res.cpu3@ == self.cpu3@,
            res.player_baskets@ == self.player_baskets@,
            res.cpu1_baskets@ == self.cpu1_baskets@,
            res.cpu2_baskets@ == self.cpu2_baskets@,
            res.cpu3_baskets@ == self.cpu3_baskets@,
            res.discard@ == self.discard@,
    {
        Cards {
            deck: self.deck.clone(),
            player: self.player.clone(),
            cpu1: self.cpu1.clone(),
            cpu2: self.cpu2.clone(),
            cpu3: self.cpu3.clone(),
            player_baskets: self.player_baskets.clone(),
            cpu1_baskets: self.cpu1_baskets.clone(),
            cpu2_baskets: self.cpu2_baskets.clone(),
            cpu3_baskets: self.cpu3_baskets.clone(),
            discard: self.discard.clone(),
        }
    }
}

impl Default for Cards {
    fn default() -> (res: Self)
        ensures
            res.total() == 0,
    {
        Cards {
            deck: Hand::default(),
            player: Hand::default(),
            cpu1: Hand::default(),
            cpu2: Hand::default(),
            cpu3: Hand::default(),
            player_baskets: Hand::default(),
            cpu1_baskets: Hand::default(),
            cpu2_baskets: Hand::default(),
            cpu3_baskets: Hand::default(),
            discard: Hand::default(),
        }
    }
}

impl Cards {
    /// The hand that a player holds.
    pub open spec fn hand_spec(self, id: HandId) -> Seq<Card> {
        match id {
            HandId::Player => self.player@,
            HandId::Cpu1 => self.cpu1@,
            HandId::Cpu2 => self.cpu2@,
            HandId::Cpu3 => self.cpu3@,
        }
    }

    /// The baskets that a player has collected.
    pub open spec fn baskets_spec(self, id: HandId) -> Seq<Card> {
        match id {
            HandId::Player => self.player_baskets@,
            HandId::Cpu1 => self.cpu1_baskets@,
            HandId::Cpu2 => self.cpu2_baskets@,
            HandId::Cpu3 => self.cpu3_baskets@,
        }
    }

    /// Every pile, in the order of `FullHandId::ALL`: the deck, the four hands,
    /// the four players' baskets, and the discard pile.
    pub open spec fn piles(self) -> Seq<Seq<Card>> {
        seq![
            self.deck@,
            self.player@,
            self.cpu1@,
            self.cpu2@,
            self.cpu3@,
            self.player_baskets@,
            self.cpu1_baskets@,
            self.cpu2_baskets@,
            self.cpu3_baskets@,
            self.discard@,
        ]
    }

    /// The number of cards in all the piles together.
    pub open spec fn total(self) -> nat {
        self.deck@.len() + self.player@.len() + self.cpu1@.len() + self.cpu2@.len()
            + self.cpu3@.len() + self.player_baskets@.len() + self.cpu1_baskets@.len()
            + self.cpu2_baskets@.len() + self.cpu3_baskets@.len() + self.discard@.len()
    }

    /// Whether the piles hold no more cards than the deck has.
    pub open spec fn well_formed(self) -> bool {
        self.total() <= DECK_SIZE
    }

    /// The number of cards still in the deck or in the players' hands.
    pub open spec fn active_spec(self) -> nat {
        self.deck@.len() + self.player@.len() + self.cpu1@.len() + self.cpu2@.len()
            + self.cpu3@.len()
    }

    /// The number of zingers that have been played: in baskets or discarded.
    pub open spec fn played_zingers_spec(self) -> nat {
        zinger_count(self.player_baskets@) + zinger_count(self.cpu1_baskets@) + zinger_count(
            self.cpu2_baskets@,
        ) + zinger_count(self.cpu3_baskets@) + zinger_count(self.discard@)
    }

    /// Whether every pile but the hand of `id` is as in `other`.
    pub open spec fn same_but_hand(self, other: Cards, id: HandId) -> bool {
        &&& self.deck@ == other.deck@
        &&& self.player_baskets@ == other.player_baskets@
        &&& self.cpu1_baskets@ == other.cpu1_baskets@
        &&& self.cpu2_baskets@ == other.cpu2_baskets@
        &&& self.cpu3_baskets@ == other.cpu3_baskets@
        &&& self.discard@ == other.discard@
        &&& forall|other_id: HandId|
            other_id != id ==> #[trigger] self.hand_spec(other_id) == other.hand_spec(other_id)
    }

    /// Whether every pile is as in `other`.
    pub open spec fn same_piles(self, other: Cards) -> bool {
        &&& self.same_but_hand(other, HandId::Player)
        &&& self.player@ == other.player@
    }

    /// Whether every pile but the hands of `a` and `b` is as in `other`.
    pub open spec fn same_but_hands(self, other: Cards, a: HandId, b: HandId) -> bool {
        &&& self.deck@ == other.deck@
        &&& self.player_baskets@ == other.player_baskets@
        &&& self.cpu1_baskets@ == other.cpu1_baskets@
        &&& self.cpu2_baskets@ == other.cpu2_baskets@
        &&& self.cpu3_baskets@ == other.cpu3_baskets@
        &&& self.discard@ == other.discard@
        &&& forall|other_id: HandId|
            other_id != a && other_id != b ==> #[trigger] self.hand_spec(other_id) == other.hand_spec(other_id)
    }

    /// Piles that agree but for one hand differ in that hand's pile alone.
    pub proof fn lemma_piles_but_hand(self, other: Cards, id: HandId)
        requires
            self.same_but_hand(other, id),
        ensures
            self.piles() == other.piles().update(1 + id.index(), self.hand_spec(id)),
    {
        assert(self.hand_spec(HandId::Player) == other.hand_spec(HandId::Player) || id == HandId::Player);
        assert(self.hand_spec(HandId::Cpu1) == other.hand_spec(HandId::Cpu1) || id == HandId::Cpu1);
        assert(self.hand_spec(HandId::Cpu2) == other.hand_spec(HandId::Cpu2) || id == HandId::Cpu2);
        assert(self.hand_spec(HandId::Cpu3) == other.hand_spec(HandId::Cpu3) || id == HandId::Cpu3);
        assert(self.piles() =~= other.piles().update(1 + id.index(), self.hand_spec(id)));
    }

    pub fn hand(&self, id: HandId) -> (res: &Hand)
        ensures
            res@ == self.hand_spec(id),
    {
        match id {
            HandId::Player => &self.player,
            HandId::Cpu1 => &self.cpu1,
            HandId::Cpu2 => &self.cpu2,
            HandId::Cpu3 => &self.cpu3,
        }
    }

    pub fn hand_mut(&mut self, id: HandId) -> (res: &mut Hand)
        ensures
            res@ == old(self).hand_spec(id),
            final(self).hand_spec(id) == final(res)@,
            final(self).same_but_hand(*old(self), id),
    {
        match id {
            HandId::Player => &mut self.player,
            HandId::Cpu1 => &mut self.cpu1,
            HandId::Cpu2 => &mut self.cpu2,
            HandId::Cpu3 => &mut self.cpu3,
        }
    }

    /// Whether the end of the game is near: at most three times as many cards
    /// are still in play as there are suits.
    pub fn active_count(&self) -> (res: ActiveCardCount)
        ensures
            res == if self.active_spec() <= 15 {
                ActiveCardCount::VeryFew
            } else {
                ActiveCardCount::Several
            },
    {
        let count: u16 = self.deck.len() as u16 + self.player.len() as u16 + self.cpu1.len() as u16
            + self.cpu2.len() as u16 + self.cpu3.len() as u16;
        if count <= 15 {
            ActiveCardCount::VeryFew
        } else {
            ActiveCardCount::Several
        }
    }

    /// The number of zingers that have been played.
    pub fn played_zinger_count(&self) -> (res: CardCount)
        requires
            self.well_formed(),
        ensures
            res == self.played_zingers_spec(),
    {
        let mut count: u8 = 0;
        count = count + count_zingers(&self.player_baskets);
        count = count + count_zingers(&self.cpu1_baskets);
        count = count + count_zingers(&self.cpu2_baskets);
        count = count + count_zingers(&self.cpu3_baskets);
        count = count + count_zingers(&self.discard);
        count
    }

    /// Whether enough zingers have been played that divine intervention may be
    /// discarded on its own.
    pub fn can_discard_divine_intervention(&self) -> (res: bool)
        requires
            self.well_formed(),
        ensures
            res == (self.played_zingers_spec() >= 7),
    {
        self.played_zinger_count() >= 7
    }

    /// Whether the game warden has a card to return to the deck.
    pub fn can_play_game_warden(&self) -> (res: bool)
        ensures
            res == (self.discard@.len() > 0),
    {
        !self.discard.is_empty()
    }
}

proof fn lemma_zinger_count_bound(cards: Seq<Card>)
    ensures
        zinger_count(cards) <= cards.len(),
    decreases cards.len(),
{
    if cards.len() > 0 {
        lemma_zinger_count_bound(cards.drop_last());
    }
}

/// The number of zingers in a pile.
fn count_zingers(hand: &Hand) -> (res: u8)
    ensures
        res == zinger_count(hand@),
        res <= hand@.len(),
{
    let cards = hand.iter();
    let mut count: u8 = 0;
    let mut i: usize = 0;
    while i < cards.len()
        invariant
            i <= cards@.len(),
            cards@ == hand@,
            cards@.len() <= DECK_SIZE,
            count == zinger_count(cards@.take(i as int)),
            count <= i,
        decreases cards.len() - i,
    {
        assert(cards@.take(i + 1).drop_last() =~= cards@.take(i as int));
        if get_zinger(cards[i]).is_some() {
            count = count + 1;
        }
        i = i + 1;
    }
    assert(cards@.take(i as int) =~= cards@);
    count
}

/// Every pile, by name.
#[derive(Clone, Copy, Debug, PartialEq, Eq, Structural)]
pub enum FullHandId {
    Deck,
    Player,
    Cpu1,
    Cpu2,
    Cpu3,
    PlayerBaskets,
    Cpu1Baskets,
    Cpu2Baskets,
    Cpu3Baskets,
    Discard,
}

impl FullHandId {
    pub const ALL: [FullHandId; 10] = [
        FullHandId::Deck,
        FullHandId::Player,
        FullHandId::Cpu1,
        FullHandId::Cpu2,
        FullHandId::Cpu3,
        FullHandId::PlayerBaskets,
        FullHandId::Cpu1Baskets,
        FullHandId::Cpu2Baskets,
        FullHandId::Cpu3Baskets,
        FullHandId::Discard,
    ];

    /// The position of the pile in `ALL`.
    pub open spec fn index(self) -> int {
        match self {
            FullHandId::Deck => 0,
            FullHandId::Player => 1,
            FullHandId::Cpu1 => 2,
            FullHandId::Cpu2 => 3,
            FullHandId::Cpu3 => 4,
            FullHandId::PlayerBaskets => 5,
            FullHandId::Cpu1Baskets => 6,
            FullHandId::Cpu2Baskets => 7,
            FullHandId::Cpu3Baskets => 8,
            FullHandId::Discard => 9,
        }
    }

    /// The pile at position `k` of `ALL`.
    pub open spec fn from_index(k: int) -> FullHandId {
        if k == 0 {
            FullHandId::Deck
        } else if k == 1 {
            FullHandId::Player
        } else if k == 2 {
            FullHandId::Cpu1
        } else if k == 3 {
            FullHandId::Cpu2
        } else if k == 4 {
            FullHandId::Cpu3
        } else if k == 5 {
            FullHandId::PlayerBaskets
        } else if k == 6 {
            FullHandId::Cpu1Baskets
        } else if k == 7 {
            FullHandId::Cpu2Baskets
        } else if k == 8 {
            FullHandId::Cpu3Baskets
        } else {
            FullHandId::Discard
        }
    }

    /// The pile with this name.
    pub open spec fn pile(self, cards: Cards) -> Seq<Card> {
        match self {
            FullHandId::Deck => cards.deck@,
            FullHandId::Player => cards.player@,
            FullHandId::Cpu1 => cards.cpu1@,
            FullHandId::Cpu2 => cards.cpu2@,
            FullHandId::Cpu3 => cards.cpu3@,
            FullHandId::PlayerBaskets => cards.player_baskets@,
            FullHandId::Cpu1Baskets => cards.cpu1_baskets@,
            FullHandId::Cpu2Baskets => cards.cpu2_baskets@,
            FullHandId::Cpu3Baskets => cards.cpu3_baskets@,
            FullHandId::Discard => cards.discard@,
        }
    }

    /// Whether every pile but this one is as in `other`.
    pub open spec fn others_unchanged(self, cards: Cards, other: Cards) -> bool {
        forall|id: FullHandId| id != self ==> #[trigger] id.pile(cards) == id.pile(other)
    }

    pub fn to_hand(self, cards: &Cards) -> (res: &Hand)
        ensures
            res@ == self.pile(*cards),
    {
        match self {
            FullHandId::Deck => &cards.deck,
            FullHandId::Player => &cards.player,
            FullHandId::Cpu1 => &cards.cpu1,
            FullHandId::Cpu2 => &cards.cpu2,
            FullHandId::Cpu3 => &cards.cpu3,
            FullHandId::PlayerBaskets => &cards.player_baskets,
            FullHandId::Cpu1Baskets => &cards.cpu1_baskets,
            FullHandId::Cpu2Baskets => &cards.cpu2_baskets,
            FullHandId::Cpu3Baskets => &cards.cpu3_baskets,
            FullHandId::Discard => &cards.discard,
        }
    }

    pub fn to_hand_mut(self, cards: &mut Cards) -> (res: &mut Hand)
        ensures
            res@ == self.pile(*old(cards)),
            self.pile(*final(cards)) == final(res)@,
            self.others_unchanged(*final(cards), *old(cards)),
    {
        match self {
            FullHandId::Deck => &mut cards.deck,
            FullHandId::Player => &mut cards.player,
            FullHandId::Cpu1 => &mut cards.cpu1,
            FullHandId::Cpu2 => &mut cards.cpu2,
            FullHandId::Cpu3 => &mut cards.cpu3,
            FullHandId::PlayerBaskets => &mut cards.player_baskets,
            FullHandId::Cpu1Baskets => &mut cards.cpu1_baskets,
            FullHandId::Cpu2Baskets => &mut cards.cpu2_baskets,
            FullHandId::Cpu3Baskets => &mut cards.cpu3_baskets,
            FullHandId::Discard => &mut cards.discard,
        }
    }

    /// The name of the pile.
    pub open spec fn name(self) -> &'static str {
        match self {
            FullHandId::Deck => "Deck",
            FullHandId::Player => "Player",
            FullHandId::Cpu1 => "Cpu1",
            FullHandId::Cpu2 => "Cpu2",
            FullHandId::Cpu3 => "Cpu3",
            FullHandId::PlayerBaskets => "PlayerBaskets",
            FullHandId::Cpu1Baskets => "Cpu1Baskets",
            FullHandId::Cpu2Baskets => "Cpu2Baskets",
            FullHandId::Cpu3Baskets => "Cpu3Baskets",
            FullHandId::Discard => "Discard",
        }
    }

    pub fn text(self) -> (res: &'static [u8])
        ensures
            res@ == self.name().spec_bytes(),
    {
        match self {
            FullHandId::Deck => "Deck".as_bytes(),
            FullHandId::Player => "Player".as_bytes(),
            FullHandId::Cpu1 => "Cpu1".as_bytes(),
            FullHandId::Cpu2 => "Cpu2".as_bytes(),
            FullHandId::Cpu3 => "Cpu3".as_bytes(),
            FullHandId::PlayerBaskets => "PlayerBaskets".as_bytes(),
            FullHandId::Cpu1Baskets => "Cpu1Baskets".as_bytes(),
            FullHandId::Cpu2Baskets => "Cpu2Baskets".as_bytes(),
            FullHandId::Cpu3Baskets => "Cpu3Baskets".as_bytes(),
            FullHandId::Discard => "Discard".as_bytes(),
        }
    }
}

/// The total is the sum over the piles by name.
pub proof fn lemma_total_by_piles(cards: Cards)
    ensures
        cards.total() == FullHandId::Deck.pile(cards).len() + FullHandId::Player.pile(cards).len()
            + FullHandId::Cpu1.pile(cards).len() + FullHandId::Cpu2.pile(cards).len()
            + FullHandId::Cpu3.pile(cards).len() + FullHandId::PlayerBaskets.pile(cards).len()
            + FullHandId::Cpu1Baskets.pile(cards).len() + FullHandId::Cpu2Baskets.pile(cards).len()
            + FullHandId::Cpu3Baskets.pile(cards).len() + FullHandId::Discard.pile(cards).len(),
{
}

/// No pile holds more cards than all of them together.
pub proof fn lemma_pile_le_total(cards: Cards, id: FullHandId)
    ensures
        id.pile(cards).len() <= cards.total(),
{
}

} // verus!
