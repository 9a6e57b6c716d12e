//! The zingers that may be played at any time, and which of them a hand offers.
use vstd::prelude::*;
use crate::models::{
    get_rank, get_rank_spec, AlmostCompleteBasket, AlmostCompleteBaskets, Card, CardIndex, Hand,
    Rank, DECK_SIZE, DIVINE_INTERVENTION, NO_FISHING, THE_LURE, THE_NET, TWO_FISTED_FISHERMAN,
};

verus! {

/// A zinger that may be played at any time.
#[derive(Clone, Copy, Debug, Default, PartialEq, Eq, Structural)]
pub enum AnytimeCard {
    #[default]
    GameWarden,
    GlassBottomBoat,
    DeadScubaDiver,
    DivineIntervention,
}

/// The flag of the `j`th of four choices.
pub open spec fn bit_of_index(j: int) -> u8 {
    if j == 0 {
        1
    } else if j == 1 {
        2
    } else if j == 2 {
        4
    } else {
        8
    }
}

/// Whether `mask` has the flag of the `j`th of four choices.
pub open spec fn has_index(mask: u8, j: int) -> bool {
    mask & bit_of_index(j) != 0
}

/// The next of four choices after `i`, going round, that `mask` has; `i` itself
/// where it has none of the others.
pub open spec fn inc_index(i: int, mask: u8) -> int {
    if has_index(mask, (i + 1) % 4) {
        (i + 1) % 4
    } else if has_index(mask, (i + 2) % 4) {
        (i + 2) % 4
    } else if has_index(mask, (i + 3) % 4) {
        (i + 3) % 4
    } else {
        i
    }
}

/// The previous of four choices before `i`, going round, that `mask` has; `i`
/// itself where it has none of the others.
pub open spec fn dec_index(i: int, mask: u8) -> int {
    if has_index(mask, (i + 3) % 4) {
        (i + 3) % 4
    } else if has_index(mask, (i + 2) % 4) {
        (i + 2) % 4
    } else if has_index(mask, (i + 1) % 4) {
        (i + 1) % 4
    } else {
        i
    }
}

/// The flag of the `j`th of four choices.
fn bit_for(j: usize) -> (res: u8)
    requires
        j < 4,
    ensures
        res == bit_of_index(j as int),
{
    if j == 0 {
        1
    } else if j == 1 {
        2
    } else if j == 2 {
        4
    } else {
        8
    }
}

/// The next index after `i` whose flag `mask` has, going round.
fn next_index(i: usize, mask: u8) -> (res: usize)
    requires
        i < 4,
    ensures
        res == inc_index(i as int, mask),
        res < 4,
{
    let a = (i + 1) % 4;
    let b = (i + 2) % 4;
    let c = (i + 3) % 4;
    if mask & bit_for(a) != 0 {
        a
    } else if mask & bit_for(b) != 0 {
        b
    } else if mask & bit_for(c) != 0 {
        c
    } else {
        i
    }
}

/// The previous index before `i` whose flag `mask` has, going round.
fn prev_index(i: usize, mask: u8) -> (res: usize)
    requires
        i < 4,
    ensures
        res == dec_index(i as int, mask),
        res < 4,
{
    let a = (i + 3) % 4;
    let b = (i + 2) % 4;
    let c = (i + 1) % 4;
    if mask & bit_for(a) != 0 {
        a
    } else if mask & bit_for(b) != 0 {
        b
    } else if mask & bit_for(c) != 0 {
        c
    } else {
        i
    }
}

impl AnytimeCard {
    pub const ALL: [AnytimeCard; 4] = [
        AnytimeCard::GameWarden,
        AnytimeCard::GlassBottomBoat,
        AnytimeCard::DeadScubaDiver,
        AnytimeCard::DivineIntervention,
    ];

    pub open spec fn index(self) -> int {
        match self {
            AnytimeCard::GameWarden => 0,
            AnytimeCard::GlassBottomBoat => 1,
            AnytimeCard::DeadScubaDiver => 2,
            AnytimeCard::DivineIntervention => 3,
        }
    }

    pub open spec fn from_index(i: int) -> AnytimeCard {
        if i == 0 {
            AnytimeCard::GameWarden
        } else if i == 1 {
            AnytimeCard::GlassBottomBoat
        } else if i == 2 {
            AnytimeCard::DeadScubaDiver
        } else {
            AnytimeCard::DivineIntervention
        }
    }

    /// The flag of the card in `PlayAnytimeFlags`.
    pub open spec fn bit(self) -> u8 {
        bit_of_index(self.index())
    }

    fn to_index(self) -> (res: usize)
        ensures
            res == self.index(),
    {
        match self {
            AnytimeCard::GameWarden => 0,
            AnytimeCard::GlassBottomBoat => 1,
            AnytimeCard::DeadScubaDiver => 2,
            AnytimeCard::DivineIntervention => 3,
        }
    }

    /// The card that the flags offer, keeping this one where they offer it.
    pub open spec fn clamped(self, flags: PlayAnytimeFlags) -> AnytimeCard {
        let has = |c: AnytimeCard| c.bit() & flags.bits_spec() != 0;
        match self {
            AnytimeCard::GameWarden => if has(AnytimeCard::GameWarden) {
                AnytimeCard::GameWarden
            } else if has(AnytimeCard::GlassBottomBoat) {
                AnytimeCard::GlassBottomBoat
            } else if has(AnytimeCard::DeadScubaDiver) {
                AnytimeCard::DeadScubaDiver
            } else {
                AnytimeCard::DivineIntervention
            },
            AnytimeCard::GlassBottomBoat => if has(AnytimeCard::GlassBottomBoat) {
                AnytimeCard::GlassBottomBoat
            } else if has(AnytimeCard::DeadScubaDiver) {
                AnytimeCard::DeadScubaDiver
            } else if has(AnytimeCard::DivineIntervention) {
                AnytimeCard::DivineIntervention
            } else {
                AnytimeCard::GlassBottomBoat
            },
            AnytimeCard::DeadScubaDiver => if has(AnytimeCard::DeadScubaDiver) {
                AnytimeCard::DeadScubaDiver
            } else if has(AnytimeCard::GlassBottomBoat) {
                AnytimeCard::GlassBottomBoat
            } else if has(AnytimeCard::DivineIntervention) {
                AnytimeCard::DivineIntervention
            } else {
                AnytimeCard::GameWarden
            },
            AnytimeCard::DivineIntervention => if has(AnytimeCard::DivineIntervention) {
                AnytimeCard::DivineIntervention
            } else if has(AnytimeCard::GlassBottomBoat) {
                AnytimeCard::GlassBottomBoat
            } else if has(AnytimeCard::DeadScubaDiver) {
                AnytimeCard::DeadScubaDiver
            } else {
                AnytimeCard::GameWarden
            },
        }
    }

    /// Moves to a card that the flags offer, staying where they offer this one.
    pub fn clamp_to(&mut self, flags: PlayAnytimeFlags)
        ensures
            *final(self) == old(self).clamped(flags),
    {
        *self = match *self {
            AnytimeCard::GameWarden => if flags.contains(AnytimeCard::GameWarden) {
                AnytimeCard::GameWarden
            } else if flags.contains(AnytimeCard::GlassBottomBoat) {
                AnytimeCard::GlassBottomBoat
            } else if flags.contains(AnytimeCard::DeadScubaDiver) {
                AnytimeCard::DeadScubaDiver
            } else {
                AnytimeCard::DivineIntervention
            },
            AnytimeCard::GlassBottomBoat => if flags.contains(AnytimeCard::GlassBottomBoat) {
                AnytimeCard::GlassBottomBoat
            } else if flags.contains(AnytimeCard::DeadScubaDiver) {
                AnytimeCard::DeadScubaDiver
            } else if flags.contains(AnytimeCard::DivineIntervention) {
                AnytimeCard::DivineIntervention
            } else {
                AnytimeCard::GlassBottomBoat
            },
            AnytimeCard::DeadScubaDiver => if flags.contains(AnytimeCard::DeadScubaDiver) {
                AnytimeCard::DeadScubaDiver
            } else if flags.contains(AnytimeCard::GlassBottomBoat) {
                AnytimeCard::GlassBottomBoat
            } else if flags.contains(AnytimeCard::DivineIntervention) {
                AnytimeCard::DivineIntervention
            } else {
                AnytimeCard::GameWarden
            },
            AnytimeCard::DivineIntervention => if flags.contains(AnytimeCard::DivineIntervention) {
                AnytimeCard::DivineIntervention
            } else if flags.contains(AnytimeCard::GlassBottomBoat) {
                AnytimeCard::GlassBottomBoat
            } else if flags.contains(AnytimeCard::DeadScubaDiver) {
                AnytimeCard::DeadScubaDiver
            } else {
                AnytimeCard::GameWarden
            },
        };
    }

    /// The next card after this one that the flags offer, going round.
    pub fn wrapping_inc(self, flags: PlayAnytimeFlags) -> (res: Self)
        ensures
            res == AnytimeCard::from_index(inc_index(self.index(), flags.bits_spec())),
    {
        let i = next_index(self.to_index(), flags.bits());
        AnytimeCard::ALL[i]
    }

    /// The previous card before this one that the flags offer, going round.
    pub fn wrapping_dec(self, flags: PlayAnytimeFlags) -> (res: Self)
        ensures
            res == AnytimeCard::from_index(dec_index(self.index(), flags.bits_spec())),
    {
        let i = prev_index(self.to_index(), flags.bits());
        AnytimeCard::ALL[i]
    }
}

/// Which of the anytime cards a hand offers: every non-empty combination.
#[allow(non_camel_case_types)]
#[derive(Clone, Copy, Debug, PartialEq, Eq, Structural)]
pub enum PlayAnytimeFlags {
    GW,
    GBB,
    GBB_GW,
    DSD,
    DSD_GW,
    DSD_GBB,
    DSD_GBB_GW,
    DI,
    DI_GW,
    DI_GBB,
    DI_GBB_GW,
    DI_DSD,
    DI_DSD_GW,
    DI_DSD_GBB,
    DI_DSD_GBB_GW,
}

impl PlayAnytimeFlags {
    /// The flags as bits: one for the game warden, two for the glass bottom boat,
    /// four for the dead scuba diver and eight for divine intervention.
    pub open spec fn bits_spec(self) -> u8 {
        match self {
            PlayAnytimeFlags::GW => 1,
            PlayAnytimeFlags::GBB => 2,
            PlayAnytimeFlags::GBB_GW => 3,
            PlayAnytimeFlags::DSD => 4,
            PlayAnytimeFlags::DSD_GW => 5,
            PlayAnytimeFlags::DSD_GBB => 6,
            PlayAnytimeFlags::DSD_GBB_GW => 7,
            PlayAnytimeFlags::DI => 8,
            PlayAnytimeFlags::DI_GW => 9,
            PlayAnytimeFlags::DI_GBB => 10,
            PlayAnytimeFlags::DI_GBB_GW => 11,
            PlayAnytimeFlags::DI_DSD => 12,
            PlayAnytimeFlags::DI_DSD_GW => 13,
            PlayAnytimeFlags::DI_DSD_GBB => 14,
            PlayAnytimeFlags::DI_DSD_GBB_GW => 15,
        }
    }

    pub fn bits(self) -> (res: u8)
        ensures
            res == self.bits_spec(),
            1 <= res <= 15,
    {
        match self {
            PlayAnytimeFlags::GW => 1,
            PlayAnytimeFlags::GBB => 2,
            PlayAnytimeFlags::GBB_GW => 3,
            PlayAnytimeFlags::DSD => 4,
            PlayAnytimeFlags::DSD_GW => 5,
            PlayAnytimeFlags::DSD_GBB => 6,
            PlayAnytimeFlags::DSD_GBB_GW => 7,
            PlayAnytimeFlags::DI => 8,
            PlayAnytimeFlags::DI_GW => 9,
            PlayAnytimeFlags::DI_GBB => 10,
            PlayAnytimeFlags::DI_GBB_GW => 11,
            PlayAnytimeFlags::DI_DSD => 12,
            PlayAnytimeFlags::DI_DSD_GW => 13,
            PlayAnytimeFlags::DI_DSD_GBB => 14,
            PlayAnytimeFlags::DI_DSD_GBB_GW => 15,
        }
    }

    /// The flags with the given bits.
    pub fn from_bits(bits: u8) -> (res: Self)
        requires
            1 <= bits <= 15,
        ensures
            res.bits_spec() == bits,
    {
        match bits {
            1 => PlayAnytimeFlags::GW,
            2 => PlayAnytimeFlags::GBB,
            3 => PlayAnytimeFlags::GBB_GW,
            4 => PlayAnytimeFlags::DSD,
            5 => PlayAnytimeFlags::DSD_GW,
            6 => PlayAnytimeFlags::DSD_GBB,
            7 => PlayAnytimeFlags::DSD_GBB_GW,
            8 => PlayAnytimeFlags::DI,
            9 => PlayAnytimeFlags::DI_GW,
            10 => PlayAnytimeFlags::DI_GBB,
            11 => PlayAnytimeFlags::DI_GBB_GW,
            12 => PlayAnytimeFlags::DI_DSD,
            13 => PlayAnytimeFlags::DI_DSD_GW,
            14 => PlayAnytimeFlags::DI_DSD_GBB,
            _ => PlayAnytimeFlags::DI_DSD_GBB_GW,
        }
    }

    /// Whether exactly one card is offered.
    pub fn is_single(self) -> (res: bool)
        ensures
            res == (self.bits_spec() == 1 || self.bits_spec() == 2 || self.bits_spec() == 4
                || self.bits_spec() == 8),
    {
        match self {
            PlayAnytimeFlags::GW | PlayAnytimeFlags::GBB | PlayAnytimeFlags::DSD
            | PlayAnytimeFlags::DI => true,
            _ => false,
        }
    }

    /// Whether `card` is offered.
    pub fn contains(self, card: AnytimeCard) -> (res: bool)
        ensures
            res == (card.bit() & self.bits_spec() != 0),
    {
        let bit: u8 = match card {
            AnytimeCard::GameWarden => 1,
            AnytimeCard::GlassBottomBoat => 2,
            AnytimeCard::DeadScubaDiver => 4,
            AnytimeCard::DivineIntervention => 8,
        };
        bit & self.bits() != 0
    }

    /// The cards offered by either.
    pub fn bitor(self, rhs: Self) -> (res: Self)
        ensures
            res.bits_spec() == self.bits_spec() | rhs.bits_spec(),
    {
        let a = self.bits();
        let b = rhs.bits();
        assert(1 <= a | b <= 15) by (bit_vector)
            requires
                1 <= a <= 15,
                1 <= b <= 15,
        ;
        PlayAnytimeFlags::from_bits(a | b)
    }

    /// Adds the cards that `rhs` offers.
    pub fn bitor_assign(&mut self, rhs: Self)
        ensures
            final(self).bits_spec() == old(self).bits_spec() | rhs.bits_spec(),
    {
        *self = self.bitor(rhs);
    }

    /// The cards offered by both, which must have one in common.
    pub fn bitand(self, rhs: Self) -> (res: Self)
        requires
            self.bits_spec() & rhs.bits_spec() != 0,
        ensures
            res.bits_spec() == self.bits_spec() & rhs.bits_spec(),
    {
        let a = self.bits();
        let b = rhs.bits();
        assert(1 <= a & b <= 15) by (bit_vector)
            requires
                1 <= a <= 15,
                1 <= b <= 15,
                a & b != 0,
        ;
        PlayAnytimeFlags::from_bits(a & b)
    }

    /// Keeps only the cards that `rhs` offers too, which must include one of them.
    pub fn bitand_assign(&mut self, rhs: Self)
        requires
            old(self).bits_spec() & rhs.bits_spec() != 0,
        ensures
            final(self).bits_spec() == old(self).bits_spec() & rhs.bits_spec(),
    {
        *self = self.bitand(rhs);
    }
}

/// A card is offered by the union of two sets of flags exactly when one of them
/// offers it, and by the intersection exactly when both do.
pub proof fn lemma_flags_union_and_intersection(a: PlayAnytimeFlags, b: PlayAnytimeFlags, card: AnytimeCard)
    ensures
        card.bit() & (a.bits_spec() | b.bits_spec()) != 0 <==> (card.bit() & a.bits_spec() != 0
            || card.bit() & b.bits_spec() != 0),
        card.bit() & (a.bits_spec() & b.bits_spec()) != 0 <==> (card.bit() & a.bits_spec() != 0
            && card.bit() & b.bits_spec() != 0),
{
    let c = card.bit();
    let x = a.bits_spec();
    let y = b.bits_spec();
    assert(c == 1 || c == 2 || c == 4 || c == 8);
    assert((c == 1 || c == 2 || c == 4 || c == 8) ==> ((c & (x | y) != 0) <==> (c & x != 0 || c & y
        != 0))) by (bit_vector);
    assert((c == 1 || c == 2 || c == 4 || c == 8) ==> ((c & (x & y) != 0) <==> (c & x != 0 && c & y
        != 0))) by (bit_vector);
}

/// The set of plays that divine intervention may cancel, as flags: one for no
/// fishing, two for the two-fisted fisherman, four for the net and eight for the
/// lure.
pub type DivineTargets = u8;

pub const DT_NO_FISHING: DivineTargets = 1;
pub const DT_TWO_FISTED_FISHERMAN: DivineTargets = 2;
pub const DT_THE_NET: DivineTargets = 4;
pub const DT_THE_LURE: DivineTargets = 8;
pub const DT_DEFAULT: DivineTargets = 1;

/// A play that divine intervention may cancel.
#[derive(Clone, Copy, Debug, Default, PartialEq, Eq, Structural)]
pub enum DivineTarget {
    #[default]
    NoFishing,
    TwoFistedFisherman,
    TheNet,
    TheLure,
}

impl DivineTarget {
    pub const ALL: [DivineTarget; 4] = [
        DivineTarget::NoFishing,
        DivineTarget::TwoFistedFisherman,
        DivineTarget::TheNet,
        DivineTarget::TheLure,
    ];

    pub open spec fn index(self) -> int {
        match self {
            DivineTarget::NoFishing => 0,
            DivineTarget::TwoFistedFisherman => 1,
            DivineTarget::TheNet => 2,
            DivineTarget::TheLure => 3,
        }
    }

    pub open spec fn from_index(i: int) -> DivineTarget {
        if i == 0 {
            DivineTarget::NoFishing
        } else if i == 1 {
            DivineTarget::TwoFistedFisherman
        } else if i == 2 {
            DivineTarget::TheNet
        } else {
            DivineTarget::TheLure
        }
    }

    fn to_index(self) -> (res: usize)
        ensures
            res == self.index(),
    {
        match self {
            DivineTarget::NoFishing => 0,
            DivineTarget::TwoFistedFisherman => 1,
            DivineTarget::TheNet => 2,
            DivineTarget::TheLure => 3,
        }
    }

    /// The last target, in the order of `ALL`, that `targets` has; `self` where
    /// it has none.
    pub open spec fn clamped(self, targets: DivineTargets) -> DivineTarget {
        if has_index(targets, 3) {
            DivineTarget::TheLure
        } else if has_index(targets, 2) {
            DivineTarget::TheNet
        } else if has_index(targets, 1) {
            DivineTarget::TwoFistedFisherman
        } else if has_index(targets, 0) {
            DivineTarget::NoFishing
        } else {
            self
        }
    }

    /// Moves to one of `targets`: each target that `targets` has is taken in
    /// turn, so the last one stays.
    pub fn clamp_to(&mut self, targets: DivineTargets)
        ensures
            *final(self) == old(self).clamped(targets),
    {
        let mut i: usize = 0;
        while i < 4
            invariant
                i <= 4,
                *self == (if has_index(targets, i as int - 1) && i >= 1 {
                    DivineTarget::from_index(i as int - 1)
                } else if has_index(targets, i as int - 2) && i >= 2 {
                    DivineTarget::from_index(i as int - 2)
                } else if has_index(targets, i as int - 3) && i >= 3 {
                    DivineTarget::from_index(i as int - 3)
                } else if has_index(targets, i as int - 4) && i >= 4 {
                    DivineTarget::from_index(i as int - 4)
                } else {
                    *old(self)
                }),
            decreases 4 - i,
        {
            if targets & bit_for(i) != 0 {
                *self = DivineTarget::ALL[i];
            }
            i = i + 1;
        }
    }

    /// The next target after this one that `targets` has, going round.
    pub fn wrapping_inc(self, targets: DivineTargets) -> (res: Self)
        requires
            targets & 15 != 0,
        ensures
            res == DivineTarget::from_index(inc_index(self.index(), targets)),
    {
        let i = next_index(self.to_index(), targets);
        DivineTarget::ALL[i]
    }

    /// The previous target before this one that `targets` has, going round.
    pub fn wrapping_dec(self, targets: DivineTargets) -> (res: Self)
        requires
            targets & 15 != 0,
        ensures
            res == DivineTarget::from_index(dec_index(self.index(), targets)),
    {
        let i = prev_index(self.to_index(), targets);
        DivineTarget::ALL[i]
    }

    /// Whether `targets` has this target.
    pub fn contained_in(self, targets: DivineTargets) -> (res: bool)
        ensures
            res == has_index(targets, self.index()),
    {
        let flag: u8 = match self {
            DivineTarget::NoFishing => DT_NO_FISHING,
            DivineTarget::TwoFistedFisherman => DT_TWO_FISTED_FISHERMAN,
            DivineTarget::TheNet => DT_THE_NET,
            DivineTarget::TheLure => DT_THE_LURE,
        };
        targets & flag != 0
    }

    /// The zinger that makes this play.
    pub open spec fn card_spec(self) -> Card {
        match self {
            DivineTarget::NoFishing => NO_FISHING,
            DivineTarget::TwoFistedFisherman => TWO_FISTED_FISHERMAN,
            DivineTarget::TheNet => THE_NET,
            DivineTarget::TheLure => THE_LURE,
        }
    }

    pub fn card(self) -> (res: Card)
        ensures
            res == self.card_spec(),
    {
        match self {
            DivineTarget::NoFishing => NO_FISHING,
            DivineTarget::TwoFistedFisherman => TWO_FISTED_FISHERMAN,
            DivineTarget::TheNet => THE_NET,
            DivineTarget::TheLure => THE_LURE,
        }
    }
}

/// The number of ranks for which a basket is almost complete.
pub open spec fn count_some(baskets: Seq<Option<AlmostCompleteBasket>>) -> nat
    decreases baskets.len(),
{
    if baskets.len() == 0 {
        0
    } else {
        count_some(baskets.drop_last()) + if baskets.last() is Some {
            1nat
        } else {
            0nat
        }
    }
}

proof fn lemma_count_some_bound(baskets: Seq<Option<AlmostCompleteBasket>>)
    ensures
        count_some(baskets) <= baskets.len(),
    decreases baskets.len(),
{
    if baskets.len() > 0 {
        lemma_count_some_bound(baskets.drop_last());
    }
}

pub fn almost_complete_basket_count(baskets: AlmostCompleteBaskets) -> (res: u8)
    ensures
        res == count_some(baskets@),
{
    let mut count: u8 = 0;
    let mut i: usize = 0;
    while i < 13
        invariant
            i <= 13,
            count == count_some(baskets@.take(i as int)),
            count <= i,
        decreases 13 - i,
    {
        assert(baskets@.take(i + 1).drop_last() =~= baskets@.take(i as int));
        if baskets[i].is_some() {
            count = count + 1;
        }
        i = i + 1;
    }
    assert(baskets@.take(13) =~= baskets@);
    count
}

/// The positions of the cards of rank `rank` among `cards`, in order.
pub open spec fn rank_indices(cards: Seq<Card>, rank: Rank) -> Seq<CardIndex>
    decreases cards.len(),
{
    if cards.len() == 0 {
        Seq::empty()
    } else {
        let rest = rank_indices(cards.drop_last(), rank);
        if get_rank_spec(cards.last()) == Some(rank) {
            rest.push((cards.len() - 1) as u8)
        } else {
            rest
        }
    }
}

/// For each rank, in order, the positions of the four cards of it that `cards`
/// holds, where it holds four.
pub open spec fn almost_complete_spec(cards: Seq<Card>) -> Seq<Option<AlmostCompleteBasket>> {
    Seq::new(
        13,
        |r: int|
            {
                let idx = rank_indices(cards, Rank::from_index(r));
                if idx.len() == 4 {
                    Some([idx[0], idx[1], idx[2], idx[3]])
                } else {
                    None
                }
            },
    )
}

/// Whether no rank appears more than four times among `cards`: a complete
/// basket is always taken out of a hand at once.
pub open spec fn no_full_basket(cards: Seq<Card>) -> bool {
    forall|r: Rank| #[trigger] rank_indices(cards, r).len() <= 4
}

proof fn lemma_rank_indices_prefix(cards: Seq<Card>, i: int, rank: Rank)
    requires
        0 <= i < cards.len(),
    ensures
        rank_indices(cards.take(i + 1), rank) == if get_rank_spec(cards[i]) == Some(rank) {
            rank_indices(cards.take(i), rank).push(i as u8)
        } else {
            rank_indices(cards.take(i), rank)
        },
{
    assert(cards.take(i + 1).drop_last() =~= cards.take(i));
}

proof fn lemma_rank_indices_monotone(cards: Seq<Card>, i: int, j: int, rank: Rank)
    requires
        0 <= i <= j <= cards.len(),
    ensures
        rank_indices(cards.take(i), rank).len() <= rank_indices(cards.take(j), rank).len(),
    decreases j - i,
{
    if i < j {
        lemma_rank_indices_prefix(cards, j - 1, rank);
        lemma_rank_indices_monotone(cards, i, j - 1, rank);
    }
}

/// The positions of the cards of each rank for which the hand holds four, if it
/// holds four of any rank.
pub fn find_almost_complete_baskets(hand: &Hand) -> (res: Option<AlmostCompleteBaskets>)
    requires
        no_full_basket(hand@),
    ensures
        (forall|r: int| 0 <= r < 13 ==> #[trigger] almost_complete_spec(hand@)[r] is None)
            ==> res is None,
        (exists|r: int| 0 <= r < 13 && #[trigger] almost_complete_spec(hand@)[r] is Some)
            ==> (res matches Some(baskets) && baskets@ == almost_complete_spec(hand@)),
{
    let cards = hand.iter();
    let mut counts: [u8; 13] = [0; 13];
    let mut slots: [u8; 52] = [0; 52];
    let mut i: usize = 0;
    while i < cards.len()
        invariant
            i <= cards@.len(),
            cards@ == hand@,
            cards@.len() <= DECK_SIZE,
            no_full_basket(hand@),
            forall|r: int|
                0 <= r < 13 ==> #[trigger] counts@[r] == rank_indices(
                    cards@.take(i as int),
                    Rank::from_index(r),
                ).len(),
            forall|r: int| 0 <= r < 13 ==> #[trigger] counts@[r] <= 4,
            forall|r: int, k: int|
                0 <= r < 13 && 0 <= k < counts@[r] ==> #[trigger] slots@[r * 4 + k]
                    == rank_indices(cards@.take(i as int), Rank::from_index(r))[k],
        decreases cards.len() - i,
    {
        let card = cards[i];
        proof {
            assert forall|r: int| 0 <= r < 13 implies #[trigger] rank_indices(
                cards@.take(i + 1),
                Rank::from_index(r),
            ) == if get_rank_spec(cards@[i as int]) == Some(Rank::from_index(r)) {
                rank_indices(cards@.take(i as int), Rank::from_index(r)).push(i as u8)
            } else {
                rank_indices(cards@.take(i as int), Rank::from_index(r))
            } by {
                lemma_rank_indices_prefix(cards@, i as int, Rank::from_index(r));
            }
        }
        match get_rank(card) {
            Some(rank) => {
                let r = rank.to_u8() as usize;
                proof {
                    Rank::lemma_from_index(r as int);
                    rank.lemma_index();
                    lemma_rank_indices_monotone(cards@, i + 1, cards@.len() as int, rank);
                    assert(cards@.take(cards@.len() as int) =~= cards@);
                    assert(rank_indices(hand@, rank).len() <= 4);
                }
                let c = counts[r];
                let ghost old_slots = slots;
                let ghost old_counts = counts;
                if c < 4 {
                    slots[r * 4 + c as usize] = i as u8;
                    counts[r] = c + 1;
                }
                proof {
                    assert forall|q: int, k: int|
                        0 <= q < 13 && 0 <= k < counts@[q] implies #[trigger] slots@[q * 4 + k]
                        == rank_indices(cards@.take(i + 1), Rank::from_index(q))[k] by {
                        if q == r {
                            if k < c {
                                assert(slots@[q * 4 + k] == old_slots@[q * 4 + k]);
                            }
                        } else {
                            assert(q * 4 + k != r * 4 + c);
                            assert(slots@[q * 4 + k] == old_slots@[q * 4 + k]);
                            assert(counts@[q] == old_counts@[q]);
                        }
                    }
                }
            },
            None => {},
        }
        i = i + 1;
    }
    assert(cards@.take(i as int) =~= hand@);
    let mut almost_complete: [Option<AlmostCompleteBasket>; 13] = [None; 13];
    let mut found_any = false;
    let mut r: usize = 0;
    while r < 13
        invariant
            r <= 13,
            forall|q: int|
                0 <= q < 13 ==> #[trigger] counts@[q] == rank_indices(
                    hand@,
                    Rank::from_index(q),
                ).len(),
            forall|q: int, k: int|
                0 <= q < 13 && 0 <= k < counts@[q] ==> #[trigger] slots@[q * 4 + k]
                    == rank_indices(hand@, Rank::from_index(q))[k],
            forall|q: int| 0 <= q < 13 ==> #[trigger] counts@[q] <= 4,
            forall|q: int| 0 <= q < r ==> #[trigger] almost_complete@[q] == almost_complete_spec(
                hand@,
            )[q],
            forall|q: int| r <= q < 13 ==> #[trigger] almost_complete@[q] is None,
            found_any == exists|q: int| 0 <= q < r && #[trigger] almost_complete_spec(hand@)[q] is Some,
        decreases 13 - r,
    {
        if counts[r] == 4 {
            let ghost idx = rank_indices(hand@, Rank::from_index(r as int));
            assert(slots@[r * 4 + 0] == idx[0]);
            assert(slots@[r * 4 + 1] == idx[1]);
            assert(slots@[r * 4 + 2] == idx[2]);
            assert(slots@[r * 4 + 3] == idx[3]);
            let basket: AlmostCompleteBasket = [
                slots[r * 4],
                slots[r * 4 + 1],
                slots[r * 4 + 2],
                slots[r * 4 + 3],
            ];
            assert(basket == [idx[0], idx[1], idx[2], idx[3]]);
            almost_complete[r] = Some(basket);
            found_any = true;
            assert(almost_complete_spec(hand@)[r as int] is Some);
        }
        r = r + 1;
    }
    if found_any {
        assert(almost_complete@ =~= almost_complete_spec(hand@));
        Some(almost_complete)
    } else {
        None
    }
}

} // verus!
