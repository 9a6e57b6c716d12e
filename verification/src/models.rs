//! Cards, hands and the other pieces of the game.
use vstd::prelude::*;
use vstd::string::StringSliceAdditionalSpecFns;

pub mod hand;
pub mod ids;
pub mod predicates;

pub use hand::{CardOption, Hand, HandOrdering};
pub use ids::{HandId, CpuId, Targeting, TurnId};
pub use predicates::{NetPredicate, LurePredicate, Predicate};









verus! {

pub const RANK_COUNT: u8 = 13;
pub const SUIT_COUNT: u8 = 5;
pub const FISH_COUNT: u8 = 65;
pub const ZINGER_COUNT: u8 = 8;
pub const DECK_SIZE: u8 = 73;

pub type CardInner = u8;

/// A card is a number below `DECK_SIZE`: the fish cards come first, ordered by
/// suit and then by rank, and the zingers after them.
pub type Card = CardInner;

pub type CardIndex = u8;

pub type SuitNumber = u8;

/// The fish card of the given rank and suit.
pub open spec fn fish_card_spec(rank: Rank, suit: Suit) -> int {
    suit.index() * RANK_COUNT + rank.index()
}

/// The fish card of the given rank and suit.
pub fn fish_card(rank: Rank, suit: Suit) -> (res: Card)
    ensures
        res == fish_card_spec(rank, suit),
        res < FISH_COUNT,
{
    suit.to_u8() * RANK_COUNT + rank.to_u8()
}

/// Indices into the hand of four cards of one rank.
pub type AlmostCompleteBasket = [CardIndex; 4];

/// For each rank, the almost complete basket of that rank, if there is one.
pub type AlmostCompleteBaskets = [Option<AlmostCompleteBasket>; 13];

/// The five cards of one rank.
pub type Basket = [Card; 5];

#[derive(Clone, Copy, Debug, Default, PartialEq, Eq, Structural)]
pub enum Rank {
    // Worth 5 points
    #[default]
    Barnacle,
    Crab,
    Dogfish,
    Eel,
    FlyingFish,
    Hammerhead,
    Jellyfish,
    Shrimp,
    // Worth 10 points
    Blowfish,
    Clownfish,
    Starfish,
    Whale,
    // Worth 15 points
    CardShark,
}

impl Rank {
    pub const COUNT: u8 = 13;

    pub const ALL: [Rank; 13] = [
        Rank::Barnacle,
        Rank::Crab,
        Rank::Dogfish,
        Rank::Eel,
        Rank::FlyingFish,
        Rank::Hammerhead,
        Rank::Jellyfish,
        Rank::Shrimp,
        Rank::Blowfish,
        Rank::Clownfish,
        Rank::Starfish,
        Rank::Whale,
        Rank::CardShark,
    ];

    /// The position of the rank in `Rank::ALL`.
    pub open spec fn index(self) -> int {
        match self {
            Rank::Barnacle => 0,
            Rank::Crab => 1,
            Rank::Dogfish => 2,
            Rank::Eel => 3,
            Rank::FlyingFish => 4,
            Rank::Hammerhead => 5,
            Rank::Jellyfish => 6,
            Rank::Shrimp => 7,
            Rank::Blowfish => 8,
            Rank::Clownfish => 9,
            Rank::Starfish => 10,
            Rank::Whale => 11,
            Rank::CardShark => 12,
        }
    }

    /// The rank at position `i` of `Rank::ALL`.
    pub open spec fn from_index(i: int) -> Rank {
        if i == 0 {
            Rank::Barnacle
        } else if i == 1 {
            Rank::Crab
        } else if i == 2 {
            Rank::Dogfish
        } else if i == 3 {
            Rank::Eel
        } else if i == 4 {
            Rank::FlyingFish
        } else if i == 5 {
            Rank::Hammerhead
        } else if i == 6 {
            Rank::Jellyfish
        } else if i == 7 {
            Rank::Shrimp
        } else if i == 8 {
            Rank::Blowfish
        } else if i == 9 {
            Rank::Clownfish
        } else if i == 10 {
            Rank::Starfish
        } else if i == 11 {
            Rank::Whale
        } else {
            Rank::CardShark
        }
    }

    pub proof fn lemma_index(self)
        ensures
            0 <= self.index() < 13,
            Rank::from_index(self.index()) == self,
    {
    }

    pub proof fn lemma_from_index(i: int)
        requires
            0 <= i < 13,
        ensures
            Rank::from_index(i).index() == i,
    {
    }

    pub fn to_u8(self) -> (res: u8)
        ensures
            res == self.index(),
    {
        self as u8
    }

    /// The rank at position `i` of `Rank::ALL`.
    pub fn from_u8(i: u8) -> (res: Rank)
        requires
            i < 13,
        ensures
            res == Rank::from_index(i as int),
            res.index() == i,
    {
        Rank::ALL[i as usize]
    }

    /// The name of the rank.
    pub open spec fn name(self) -> &'static str {
        match self {
            Rank::Barnacle => "Barnacle",
            Rank::Crab => "Crab",
            Rank::Dogfish => "Dogfish",
            Rank::Eel => "Eel",
            Rank::FlyingFish => "Flying Fish",
            Rank::Hammerhead => "Hammerhead",
            Rank::Jellyfish => "Jellyfish",
            Rank::Shrimp => "Shrimp",
            Rank::Blowfish => "Blowfish",
            Rank::Clownfish => "Clownfish",
            Rank::Starfish => "Starfish",
            Rank::Whale => "Whale",
            Rank::CardShark => "Card Shark",
        }
    }

    /// The name of the rank, as bytes.
    pub fn text(self) -> (res: &'static [u8])
        ensures
            res@ == self.name().spec_bytes(),
    {
        match self {
            Rank::Barnacle => "Barnacle".as_bytes(),
            Rank::Crab => "Crab".as_bytes(),
            Rank::Dogfish => "Dogfish".as_bytes(),
            Rank::Eel => "Eel".as_bytes(),
            Rank::FlyingFish => "Flying Fish".as_bytes(),
            Rank::Hammerhead => "Hammerhead".as_bytes(),
            Rank::Jellyfish => "Jellyfish".as_bytes(),
            Rank::Shrimp => "Shrimp".as_bytes(),
            Rank::Blowfish => "Blowfish".as_bytes(),
            Rank::Clownfish => "Clownfish".as_bytes(),
            Rank::Starfish => "Starfish".as_bytes(),
            Rank::Whale => "Whale".as_bytes(),
            Rank::CardShark => "Card Shark".as_bytes(),
        }
    }

    /// The position `k` steps before position `i`, cyclically.
    pub open spec fn back_index(i: int, k: int) -> int {
        (i + 13 * 13 - k) % 13
    }

    /// The position `k` steps after position `i`, cyclically.
    pub open spec fn forward_index(i: int, k: int) -> int {
        (i + k) % 13
    }

    /// The position of the nearest rank before the one at `i`, cyclically (the rank
    /// at `i` itself coming last), that has an almost complete basket; `i` itself
    /// if none has one.
    pub open spec fn wrapping_dec_index(i: int, acb: Seq<Option<AlmostCompleteBasket>>) -> int {
        if exists|k: int| 1 <= k <= 13 && #[trigger] acb[Rank::back_index(i, k)] is Some {
            let k = choose|k: int|
                1 <= k <= 13 && #[trigger] acb[Rank::back_index(i, k)] is Some && forall|j: int|
                    1 <= j < k ==> #[trigger] acb[Rank::back_index(i, j)] is None;
            Rank::back_index(i, k)
        } else {
            i
        }
    }

    /// The position of the nearest rank after the one at `i`, cyclically (the rank
    /// at `i` itself coming last), that has an almost complete basket; `i` itself
    /// if none has one.
    pub open spec fn wrapping_inc_index(i: int, acb: Seq<Option<AlmostCompleteBasket>>) -> int {
        if exists|k: int| 1 <= k <= 13 && #[trigger] acb[Rank::forward_index(i, k)] is Some {
            let k = choose|k: int|
                1 <= k <= 13 && #[trigger] acb[Rank::forward_index(i, k)] is Some && forall|j: int|
                    1 <= j < k ==> #[trigger] acb[Rank::forward_index(i, j)] is None;
            Rank::forward_index(i, k)
        } else {
            i
        }
    }

    proof fn lemma_back_step(i: int, k: int)
        requires
            0 <= i < 13,
            0 <= k < 13,
        ensures
            Rank::back_index(i, k + 1) == if Rank::back_index(i, k) == 0 {
                12
            } else {
                Rank::back_index(i, k) - 1
            },
            0 <= Rank::back_index(i, k) < 13,
            Rank::back_index(i, 0) == i,
            Rank::back_index(i, 13) == i,
    {
    }

    proof fn lemma_forward_step(i: int, k: int)
        requires
            0 <= i < 13,
            0 <= k < 13,
        ensures
            Rank::forward_index(i, k + 1) == if Rank::forward_index(i, k) == 12 {
                0
            } else {
                Rank::forward_index(i, k) + 1
            },
            0 <= Rank::forward_index(i, k) < 13,
            Rank::forward_index(i, 0) == i,
            Rank::forward_index(i, 13) == i,
    {
    }

    proof fn lemma_wrapping_dec_index_is(i: int, acb: Seq<Option<AlmostCompleteBasket>>, k: int)
        requires
            1 <= k <= 13,
            acb[Rank::back_index(i, k)] is Some,
            forall|j: int| 1 <= j < k ==> #[trigger] acb[Rank::back_index(i, j)] is None,
        ensures
            Rank::wrapping_dec_index(i, acb) == Rank::back_index(i, k),
    {
        let k2 = choose|k2: int|
            1 <= k2 <= 13 && #[trigger] acb[Rank::back_index(i, k2)] is Some && forall|j: int|
                1 <= j < k2 ==> #[trigger] acb[Rank::back_index(i, j)] is None;
        assert(k2 == k) by {
            if k2 < k {
                assert(acb[Rank::back_index(i, k2)] is None);
            }
            if k2 > k {
                assert(acb[Rank::back_index(i, k)] is None);
            }
        }
    }

    proof fn lemma_wrapping_inc_index_is(i: int, acb: Seq<Option<AlmostCompleteBasket>>, k: int)
        requires
            1 <= k <= 13,
            acb[Rank::forward_index(i, k)] is Some,
            forall|j: int| 1 <= j < k ==> #[trigger] acb[Rank::forward_index(i, j)] is None,
        ensures
            Rank::wrapping_inc_index(i, acb) == Rank::forward_index(i, k),
    {
        let k2 = choose|k2: int|
            1 <= k2 <= 13 && #[trigger] acb[Rank::forward_index(i, k2)] is Some && forall|j: int|
                1 <= j < k2 ==> #[trigger] acb[Rank::forward_index(i, j)] is None;
        assert(k2 == k) by {
            if k2 < k {
                assert(acb[Rank::forward_index(i, k2)] is None);
            }
            if k2 > k {
                assert(acb[Rank::forward_index(i, k)] is None);
            }
        }
    }

    /// Moves to the nearest earlier rank, cyclically, that has an almost complete
    /// basket; stays if there is none.
    pub fn wrapping_dec(self, acb: AlmostCompleteBaskets) -> (res: Self)
        ensures
            res.index() == Rank::wrapping_dec_index(self.index(), acb@),
    {
        let start = self.to_u8();
        let mut current: u8 = start;
        let mut i: u8 = 0;
        proof {
            Rank::lemma_back_step(start as int, 0);
        }
        while i < 13
            invariant
                i <= 13,
                start < 13,
                start == self.index(),
                current == Rank::back_index(start as int, i as int),
                forall|j: int|
                    1 <= j <= i ==> #[trigger] acb@[Rank::back_index(start as int, j)] is None,
            decreases 13 - i,
        {
            proof {
                Rank::lemma_back_step(start as int, i as int);
            }
            current = if current == 0 { 12 } else { current - 1 };
            i = i + 1;
            if acb[current as usize].is_some() {
                proof {
                    Rank::lemma_wrapping_dec_index_is(start as int, acb@, i as int);
                }
                return Rank::from_u8(current);
            }
        }
        proof {
            Rank::lemma_back_step(start as int, 12);
        }
        self
    }

    /// Moves to the nearest later rank, cyclically, that has an almost complete
    /// basket; stays if there is none.
    pub fn wrapping_inc(self, acb: AlmostCompleteBaskets) -> (res: Self)
        ensures
            res.index() == Rank::wrapping_inc_index(self.index(), acb@),
    {
        let start = self.to_u8();
        let mut current: u8 = start;
        let mut i: u8 = 0;
        proof {
            Rank::lemma_forward_step(start as int, 0);
        }
        while i < 13
            invariant
                i <= 13,
                start < 13,
                start == self.index(),
                current == Rank::forward_index(start as int, i as int),
                forall|j: int|
                    1 <= j <= i ==> #[trigger] acb@[Rank::forward_index(start as int, j)] is None,
            decreases 13 - i,
        {
            proof {
                Rank::lemma_forward_step(start as int, i as int);
            }
            current = if current == 12 { 0 } else { current + 1 };
            i = i + 1;
            if acb[current as usize].is_some() {
                proof {
                    Rank::lemma_wrapping_inc_index_is(start as int, acb@, i as int);
                }
                return Rank::from_u8(current);
            }
        }
        proof {
            Rank::lemma_forward_step(start as int, 12);
        }
        self
    }
}

/// The rank of a fish card; `None` for other cards.
pub open spec fn get_rank_spec(card: Card) -> Option<Rank> {
    if card >= FISH_COUNT {
        None
    } else {
        Some(Rank::from_index((card % 13) as int))
    }
}

/// The rank of a fish card; `None` for other cards.
pub fn get_rank(card: Card) -> (res: Option<Rank>)
    ensures
        res == get_rank_spec(card),
{
    if card >= FISH_COUNT {
        None
    } else {
        Some(Rank::from_u8(card % RANK_COUNT))
    }
}

#[derive(Clone, Copy, Debug, Default, PartialEq, Eq, Structural)]
pub enum Suit {
    #[default]
    Red,
    Green,
    Blue,
    Yellow,
    Purple,
}

impl Suit {
    pub const COUNT: u8 = 5;

    pub const ALL: [Suit; 5] = [Suit::Red, Suit::Green, Suit::Blue, Suit::Yellow, Suit::Purple];

    /// The position of the suit in `Suit::ALL`.
    pub open spec fn index(self) -> int {
        match self {
            Suit::Red => 0,
            Suit::Green => 1,
            Suit::Blue => 2,
            Suit::Yellow => 3,
            Suit::Purple => 4,
        }
    }

    /// The suit at position `i` of `Suit::ALL`.
    pub open spec fn from_index(i: int) -> Suit {
        if i == 0 {
            Suit::Red
        } else if i == 1 {
            Suit::Green
        } else if i == 2 {
            Suit::Blue
        } else if i == 3 {
            Suit::Yellow
        } else {
            Suit::Purple
        }
    }

    pub fn to_u8(self) -> (res: u8)
        ensures
            res == self.index(),
    {
        self as u8
    }

    /// The suit at position `i` of `Suit::ALL`.
    pub fn from_u8(i: u8) -> (res: Suit)
        requires
            i < 5,
        ensures
            res == Suit::from_index(i as int),
            res.index() == i,
    {
        Suit::ALL[i as usize]
    }

    /// The name of the suit.
    pub open spec fn name(self) -> &'static str {
        match self {
            Suit::Red => "Red",
            Suit::Green => "Green",
            Suit::Blue => "Blue",
            Suit::Yellow => "Yellow",
            Suit::Purple => "Purple",
        }
    }

    /// The name of the suit, as bytes.
    pub fn text(self) -> (res: &'static [u8])
        ensures
            res@ == self.name().spec_bytes(),
    {
        match self {
            Suit::Red => "Red".as_bytes(),
            Suit::Green => "Green".as_bytes(),
            Suit::Blue => "Blue".as_bytes(),
            Suit::Yellow => "Yellow".as_bytes(),
            Suit::Purple => "Purple".as_bytes(),
        }
    }

    /// The suit for a number drawn from `0..Suit::COUNT`: the suit at that
    /// position, the first suit for any other number.
    pub fn from_rng(roll: u32) -> (res: Suit)
        ensures
            res == (if 1 <= roll < 5 { Suit::from_index(roll as int) } else { Suit::Red }),
    {
        match roll {
            1 => Self::ALL[1],
            2 => Self::ALL[2],
            3 => Self::ALL[3],
            4 => Self::ALL[4],
            _ => Self::ALL[0],
        }
    }

    /// The suit before this one, the first being preceded by the last.
    pub open spec fn prev(self) -> Suit {
        Suit::from_index((self.index() + 4) % 5)
    }

    /// The suit after this one, the last being followed by the first.
    pub open spec fn next(self) -> Suit {
        Suit::from_index((self.index() + 1) % 5)
    }

    pub fn wrapping_dec(self) -> (res: Suit)
        ensures
            res == self.prev(),
    {
        match self {
            Suit::Red => Suit::Purple,
            Suit::Green => Suit::Red,
            Suit::Blue => Suit::Green,
            Suit::Yellow => Suit::Blue,
            Suit::Purple => Suit::Yellow,
        }
    }

    pub fn wrapping_inc(self) -> (res: Suit)
        ensures
            res == self.next(),
    {
        match self {
            Suit::Red => Suit::Green,
            Suit::Green => Suit::Blue,
            Suit::Blue => Suit::Yellow,
            Suit::Yellow => Suit::Purple,
            Suit::Purple => Suit::Red,
        }
    }
}

pub const RED: SuitNumber = 0;
pub const GREEN: SuitNumber = 1;
pub const BLUE: SuitNumber = 2;
pub const YELLOW: SuitNumber = 3;
pub const PURPLE: SuitNumber = 4;

/// The suit of a fish card; `None` for other cards.
pub open spec fn get_suit_spec(card: Card) -> Option<Suit> {
    if card >= FISH_COUNT {
        None
    } else {
        Some(Suit::from_index((card / 13) as int))
    }
}

/// The suit of a fish card; `None` for other cards.
pub fn get_suit(card: Card) -> (res: Option<Suit>)
    ensures
        res == get_suit_spec(card),
{
    if card >= FISH_COUNT {
        None
    } else {
        Some(Suit::from_u8((card / RANK_COUNT) % SUIT_COUNT))
    }
}

#[derive(Clone, Copy, Debug, PartialEq, Eq, Structural)]
pub enum Zinger {
    DeadScubaDiver,
    DivineIntervention,
    GlassBottomBoat,
    NoFishing,
    TheGameWarden,
    TheLure,
    TheNet,
    TwoFistedFisherman,
}

impl Zinger {
    /// The position of the zinger among the zingers.
    pub open spec fn index(self) -> int {
        match self {
            Zinger::DeadScubaDiver => 0,
            Zinger::DivineIntervention => 1,
            Zinger::GlassBottomBoat => 2,
            Zinger::NoFishing => 3,
            Zinger::TheGameWarden => 4,
            Zinger::TheLure => 5,
            Zinger::TheNet => 6,
            Zinger::TwoFistedFisherman => 7,
        }
    }

    pub open spec fn from_index(i: int) -> Zinger {
        if i == 0 {
            Zinger::DeadScubaDiver
        } else if i == 1 {
            Zinger::DivineIntervention
        } else if i == 2 {
            Zinger::GlassBottomBoat
        } else if i == 3 {
            Zinger::NoFishing
        } else if i == 4 {
            Zinger::TheGameWarden
        } else if i == 5 {
            Zinger::TheLure
        } else if i == 6 {
            Zinger::TheNet
        } else {
            Zinger::TwoFistedFisherman
        }
    }
}

/// The zinger that a card is; `None` for fish cards and numbers past the deck.
pub open spec fn get_zinger_spec(card: Card) -> Option<Zinger> {
    if FISH_COUNT <= card < DECK_SIZE {
        Some(Zinger::from_index(card - FISH_COUNT))
    } else {
        None
    }
}

/// The zinger that a card is; `None` for fish cards and numbers past the deck.
pub fn get_zinger(card: Card) -> (res: Option<Zinger>)
    ensures
        res == get_zinger_spec(card),
{
    if FISH_COUNT <= card && card < DECK_SIZE {
        Some(
            match card - FISH_COUNT {
                0 => Zinger::DeadScubaDiver,
                1 => Zinger::DivineIntervention,
                2 => Zinger::GlassBottomBoat,
                3 => Zinger::NoFishing,
                4 => Zinger::TheGameWarden,
                5 => Zinger::TheLure,
                6 => Zinger::TheNet,
                _ => Zinger::TwoFistedFisherman,
            },
        )
    } else {
        None
    }
}

/// The card of a zinger.
pub fn zinger_card(zinger: Zinger) -> (res: Card)
    ensures
        res == zinger.index() + FISH_COUNT,
{
    zinger as u8 + FISH_COUNT
}

pub const DEAD_SCUBA_DIVER: Card = 65;
pub const DIVINE_INTERVENTION: Card = 66;
pub const GLASS_BOTTOM_BOAT: Card = 67;
pub const NO_FISHING: Card = 68;
pub const THE_GAME_WARDEN: Card = 69;
pub const THE_LURE: Card = 70;
pub const THE_NET: Card = 71;
pub const TWO_FISTED_FISHERMAN: Card = 72;

/// Every zinger card, in zinger order.
pub const ZINGERS: [Card; 8] = [
    DEAD_SCUBA_DIVER,
    DIVINE_INTERVENTION,
    GLASS_BOTTOM_BOAT,
    NO_FISHING,
    THE_GAME_WARDEN,
    THE_LURE,
    THE_NET,
    TWO_FISTED_FISHERMAN,
];

/// A fish card's rank and suit give back the card.
pub proof fn lemma_rank_and_suit_give_back_fish_card(card: Card)
    requires
        card < FISH_COUNT,
    ensures
        get_rank_spec(card) is Some,
        get_suit_spec(card) is Some,
        fish_card_spec(get_rank_spec(card)->0, get_suit_spec(card)->0) == card,
{
    Rank::lemma_from_index((card % 13) as int);
    assert(0 <= card / 13 < 5);
    assert(Suit::from_index((card / 13) as int).index() == card / 13);
}

/// The card of a rank and suit has that rank and that suit.
pub proof fn lemma_fish_card_has_rank_and_suit(rank: Rank, suit: Suit)
    ensures
        get_rank_spec(fish_card_spec(rank, suit) as u8) == Some(rank),
        get_suit_spec(fish_card_spec(rank, suit) as u8) == Some(suit),
{
    let c = fish_card_spec(rank, suit);
    assert(c % 13 == rank.index());
    assert(c / 13 == suit.index());
}

/// A zinger's card is that zinger, and every zinger card is the card of its zinger.
pub proof fn lemma_zinger_card_round_trip(zinger: Zinger, card: Card)
    ensures
        get_zinger_spec((zinger.index() + FISH_COUNT) as u8) == Some(zinger),
        get_zinger_spec(card) matches Some(z) ==> z.index() + FISH_COUNT == card,
{
}

/// Stepping a suit forward then back, or back then forward, gives it back.
pub proof fn lemma_suit_inc_dec_inverse(suit: Suit)
    ensures
        suit.next().prev() == suit,
        suit.prev().next() == suit,
{
}

} // verus!
