//! Which anytime zingers a hand can play, and which a computer player will.
use vstd::prelude::*;
use crate::game::ai::{should_shed_spec, should_shed_zingers};
use crate::game::anytime::{
    almost_complete_basket_count, almost_complete_spec, find_almost_complete_baskets,
    no_full_basket, DivineTargets, PlayAnytimeFlags, DT_DEFAULT,
};
use crate::game::cards::{ActiveCardCount, Cards};
use crate::game::play::{Play, PlayKind};
use crate::memories::{Memories, Memory};
use crate::models::{
    AlmostCompleteBasket, AlmostCompleteBaskets, Card, CardIndex, CpuId, HandId, DEAD_SCUBA_DIVER,
    DECK_SIZE, DIVINE_INTERVENTION, GLASS_BOTTOM_BOAT, THE_GAME_WARDEN,
};

verus! {

/// The anytime zingers the player can play now, and where they are in the hand.
#[derive(Clone, Copy, Debug)]
pub struct AvailablePlayAnytime {
    pub flags: PlayAnytimeFlags,
    pub warden_i: CardIndex,
    pub boat_i: CardIndex,
    pub scuba_i: CardIndex,
    pub divine_i: CardIndex,
    pub almost_complete_baskets: AlmostCompleteBaskets,
    pub divine_targets: DivineTargets,
}

/// The number of set bits of `x`.
pub open spec fn popcount(x: u8) -> nat
    decreases x,
{
    if x == 0 {
        0
    } else {
        popcount(x / 2) + (x % 2) as nat
    }
}

impl AvailablePlayAnytime {
    /// Whether the positions and baskets that `flags` does not name hold their
    /// defaults.
    pub open spec fn defaults_besides(self, warden: bool, boat: bool, scuba: bool, divine: bool) -> bool {
        &&& !warden ==> self.warden_i == 0
        &&& !boat ==> self.boat_i == 0
        &&& !scuba ==> self.scuba_i == 0 && forall|r: int| 0 <= r < 13 ==> #[trigger] self.almost_complete_baskets@[r] is None
        &&& !divine ==> self.divine_i == 0 && self.divine_targets == DT_DEFAULT
    }

    pub fn game_warden(warden_i: CardIndex) -> (res: Self)
        ensures
            res.flags == PlayAnytimeFlags::GW,
            res.warden_i == warden_i,
            res.defaults_besides(true, false, false, false),
    {
        AvailablePlayAnytime {
            flags: PlayAnytimeFlags::GW,
            warden_i,
            boat_i: 0,
            scuba_i: 0,
            divine_i: 0,
            almost_complete_baskets: [None; 13],
            divine_targets: DT_DEFAULT,
        }
    }

    pub fn glass_bottom_boat(boat_i: CardIndex) -> (res: Self)
        ensures
            res.flags == PlayAnytimeFlags::GBB,
            res.boat_i == boat_i,
            res.defaults_besides(false, true, false, false),
    {
        AvailablePlayAnytime {
            flags: PlayAnytimeFlags::GBB,
            warden_i: 0,
            boat_i,
            scuba_i: 0,
            divine_i: 0,
            almost_complete_baskets: [None; 13],
            divine_targets: DT_DEFAULT,
        }
    }

    pub fn dead_scuba_diver(scuba_i: CardIndex, almost_complete_baskets: AlmostCompleteBaskets) -> (res: Self)
        ensures
            res.flags == PlayAnytimeFlags::DSD,
            res.scuba_i == scuba_i,
            res.almost_complete_baskets == almost_complete_baskets,
            res.defaults_besides(false, false, true, false),
    {
        AvailablePlayAnytime {
            flags: PlayAnytimeFlags::DSD,
            warden_i: 0,
            boat_i: 0,
            scuba_i,
            divine_i: 0,
            almost_complete_baskets,
            divine_targets: DT_DEFAULT,
        }
    }

    pub fn divine_intervention(divine_i: CardIndex, divine_targets: DivineTargets) -> (res: Self)
        ensures
            res.flags == PlayAnytimeFlags::DI,
            res.divine_i == divine_i,
            res.divine_targets == divine_targets,
            res.defaults_besides(false, false, false, true),
    {
        AvailablePlayAnytime {
            flags: PlayAnytimeFlags::DI,
            warden_i: 0,
            boat_i: 0,
            scuba_i: 0,
            divine_i,
            almost_complete_baskets: [None; 13],
            divine_targets,
        }
    }

    /// The number of ranks with an almost complete basket.
    pub fn basket_count(&self) -> (res: u8)
        ensures
            res == crate::game::anytime::count_some(self.almost_complete_baskets@),
    {
        almost_complete_basket_count(self.almost_complete_baskets)
    }

    /// The number of plays that divine intervention may target.
    pub fn divine_target_count(&self) -> (res: u32)
        ensures
            res == popcount(self.divine_targets),
    {
        let mut x: u8 = self.divine_targets;
        let mut count: u32 = 0;
        proof {
            lemma_popcount_le(x);
        }
        while x > 0
            invariant
                count + popcount(x) == popcount(self.divine_targets),
                popcount(self.divine_targets) <= 8,
            decreases x,
        {
            count = count + (x % 2) as u32;
            x = x / 2;
        }
        count
    }
}

proof fn lemma_popcount_le(x: u8)
    ensures
        popcount(x) <= 8,
        x < 128 ==> popcount(x) <= 7,
        x < 64 ==> popcount(x) <= 6,
        x < 32 ==> popcount(x) <= 5,
        x < 16 ==> popcount(x) <= 4,
        x < 8 ==> popcount(x) <= 3,
        x < 4 ==> popcount(x) <= 2,
        x < 2 ==> popcount(x) <= 1,
    decreases x,
{
    if x > 0 {
        lemma_popcount_le(x / 2);
    }
}

/// An `AvailablePlayAnytime` as plain values: the flags' bits, the four
/// positions, the almost complete baskets and the divine targets.
pub type ApaView = (u8, u8, u8, u8, u8, Seq<Option<AlmostCompleteBasket>>, u8);

/// No almost complete baskets.
pub open spec fn no_baskets() -> Seq<Option<AlmostCompleteBasket>> {
    Seq::new(13, |r: int| None::<AlmostCompleteBasket>)
}

impl AvailablePlayAnytime {
    pub open spec fn view_spec(self) -> ApaView {
        (
            self.flags.bits_spec(),
            self.warden_i,
            self.boat_i,
            self.scuba_i,
            self.divine_i,
            self.almost_complete_baskets@,
            self.divine_targets,
        )
    }
}

/// The flags that the plays on `stack` give divine intervention to target.
pub open spec fn stack_targets(stack: Seq<Play>) -> u8
    decreases stack.len(),
{
    if stack.len() == 0 {
        0
    } else {
        stack_targets(stack.drop_last()) | match stack.last().kind.divine_targets_spec() {
            Some(t) => t,
            None => 0u8,
        }
    }
}

/// What the card `card` at position `i` of the player's hand adds to what the
/// player can play: the game warden where the discard pile has a card, the glass
/// bottom boat, the dead scuba diver where the hand has an almost complete
/// basket (`acb`), divine intervention where the stack has a target for it.
pub open spec fn apa_step(
    out: Option<ApaView>,
    i: u8,
    card: Card,
    can_warden: bool,
    acb: Option<Seq<Option<AlmostCompleteBasket>>>,
    targets: u8,
) -> Option<ApaView> {
    let o1 = if card == THE_GAME_WARDEN && can_warden {
        Some(
            match out {
                None => (1u8, i, 0u8, 0u8, 0u8, no_baskets(), DT_DEFAULT),
                Some(v) => (v.0 | 1u8, i, v.2, v.3, v.4, v.5, v.6),
            },
        )
    } else {
        out
    };
    let o2 = if card == GLASS_BOTTOM_BOAT {
        Some(
            match o1 {
                None => (2u8, 0u8, i, 0u8, 0u8, no_baskets(), DT_DEFAULT),
                Some(v) => (v.0 | 2u8, v.1, i, v.3, v.4, v.5, v.6),
            },
        )
    } else {
        o1
    };
    let o3 = if card == DEAD_SCUBA_DIVER && acb is Some {
        Some(
            match o2 {
                None => (4u8, 0u8, 0u8, i, 0u8, acb->0, DT_DEFAULT),
                Some(v) => (v.0 | 4u8, v.1, v.2, i, v.4, acb->0, v.6),
            },
        )
    } else {
        o2
    };
    if card == DIVINE_INTERVENTION && targets != 0 {
        Some(
            match o3 {
                None => (8u8, 0u8, 0u8, 0u8, i, no_baskets(), targets),
                Some(v) => (v.0 | 8u8, v.1, v.2, v.3, i, v.5, targets),
            },
        )
    } else {
        o3
    }
}

/// What the first `k` cards of `hand` offer.
pub open spec fn apa_upto(
    hand: Seq<Card>,
    k: int,
    can_warden: bool,
    acb: Option<Seq<Option<AlmostCompleteBasket>>>,
    targets: u8,
) -> Option<ApaView>
    decreases k,
{
    if k <= 0 {
        None
    } else {
        apa_step(apa_upto(hand, k - 1, can_warden, acb, targets), (k - 1) as u8, hand[k - 1], can_warden, acb, targets)
    }
}

/// The almost complete baskets of `hand`, where it has any.
pub open spec fn acb_of(hand: Seq<Card>) -> Option<Seq<Option<AlmostCompleteBasket>>> {
    if exists|r: int| 0 <= r < 13 && #[trigger] almost_complete_spec(hand)[r] is Some {
        Some(almost_complete_spec(hand))
    } else {
        None
    }
}

fn divine_targets_of_stack(stack: &[Play]) -> (res: u8)
    ensures
        res == stack_targets(stack@),
{
    let mut raw: u8 = 0;
    let mut j: usize = 0;
    while j < stack.len()
        invariant
            j <= stack@.len(),
            raw == stack_targets(stack@.take(j as int)),
        decreases stack@.len() - j,
    {
        assert(stack@.take(j + 1).drop_last() =~= stack@.take(j as int));
        match stack[j].kind.divine_targets() {
            Ok(t) => {
                raw = raw | t;
            },
            Err(_) => {
                raw = raw | 0;
            },
        }
        j = j + 1;
    }
    assert(stack@.take(j as int) =~= stack@);
    raw
}

impl AvailablePlayAnytime {
    /// The anytime zingers the player can play now, given the plays on the stack.
    pub fn in_player_hand(cards: &Cards, stack: &[Play]) -> (res: Option<AvailablePlayAnytime>)
        requires
            no_full_basket(cards.player@),
        ensures
            ({
                let spec_res = apa_upto(
                    cards.player@,
                    cards.player@.len() as int,
                    cards.discard@.len() > 0,
                    acb_of(cards.player@),
                    stack_targets(stack@),
                );
                match res {
                    None => spec_res is None,
                    Some(apa) => spec_res == Some(apa.view_spec()),
                }
            }),
    {
        let hand = cards.hand(HandId::Player);
        let entries = hand.enumerated_iter();
        let ghost can_warden = cards.discard@.len() > 0;
        let ghost acb = acb_of(cards.player@);
        let ghost targets = stack_targets(stack@);
        let mut output: Option<AvailablePlayAnytime> = None;
        let mut k: usize = 0;
        while k < entries.len()
            invariant
                k <= entries@.len(),
                entries@.len() == cards.player@.len(),
                hand@ == cards.player@,
                no_full_basket(cards.player@),
                forall|j: int| 0 <= j < entries@.len() ==> #[trigger] entries@[j] == (j as u8, cards.player@[j]),
                can_warden == (cards.discard@.len() > 0),
                acb == acb_of(cards.player@),
                targets == stack_targets(stack@),
                match output {
                    None => apa_upto(cards.player@, k as int, can_warden, acb, targets) is None,
                    Some(apa) => apa_upto(cards.player@, k as int, can_warden, acb, targets) == Some(apa.view_spec()),
                },
            decreases entries@.len() - k,
        {
            let (i, card) = entries[k];
            if card == THE_GAME_WARDEN {
                if cards.can_play_game_warden() {
                    match output {
                        None => {
                            output = Some(AvailablePlayAnytime::game_warden(i));
                            proof {
                                assert(output->0.almost_complete_baskets@ =~= no_baskets());
                            }
                        },
                        Some(apa) => {
                            let mut apa = apa;
                            apa.flags.bitor_assign(PlayAnytimeFlags::GW);
                            apa.warden_i = i;
                            output = Some(apa);
                        },
                    }
                }
            }
            if card == GLASS_BOTTOM_BOAT {
                match output {
                    None => {
                        output = Some(AvailablePlayAnytime::glass_bottom_boat(i));
                        proof {
                            assert(output->0.almost_complete_baskets@ =~= no_baskets());
                        }
                    },
                    Some(apa) => {
                        let mut apa = apa;
                        apa.flags.bitor_assign(PlayAnytimeFlags::GBB);
                        apa.boat_i = i;
                        output = Some(apa);
                    },
                }
            }
            if card == DEAD_SCUBA_DIVER {
                match find_almost_complete_baskets(hand) {
                    Some(almost_complete) => {
                        match output {
                            None => {
                                output = Some(AvailablePlayAnytime::dead_scuba_diver(i, almost_complete));
                            },
                            Some(apa) => {
                                let mut apa = apa;
                                apa.flags.bitor_assign(PlayAnytimeFlags::DSD);
                                apa.scuba_i = i;
                                apa.almost_complete_baskets = almost_complete;
                                output = Some(apa);
                            },
                        }
                    },
                    None => {},
                }
            }
            if card == DIVINE_INTERVENTION {
                let divine_targets = divine_targets_of_stack(stack);
                if divine_targets != 0 {
                    match output {
                        None => {
                            output = Some(AvailablePlayAnytime::divine_intervention(i, divine_targets));
                            proof {
                                assert(output->0.almost_complete_baskets@ =~= no_baskets());
                            }
                        },
                        Some(apa) => {
                            let mut apa = apa;
                            apa.flags.bitor_assign(PlayAnytimeFlags::DI);
                            apa.divine_i = i;
                            apa.divine_targets = divine_targets;
                            output = Some(apa);
                        },
                    }
                }
            }
            k = k + 1;
        }
        output
    }
}

/// What a computer player plays at any time, and at whom.
#[derive(Clone, Copy, Debug, PartialEq, Eq)]
pub enum AnytimePlaySelection {
    GameWarden(HandId),
    GlassBottomBoat(HandId),
    DeadScubaDiver(AlmostCompleteBasket, CardIndex),
    DivineIntervention,
}

#[derive(Clone, Copy, Debug, PartialEq, Eq)]
pub struct AnytimePlay {
    pub selection: AnytimePlaySelection,
}

/// The first of the three hands of `order`, from position `i` on, that holds
/// exactly one card.
pub open spec fn first_single_from(cards: Cards, order: Seq<HandId>, i: int) -> Option<HandId>
    decreases 3 - i,
{
    if i < 0 || i >= 3 {
        None
    } else if cards.hand_spec(order[i]).len() == 1 {
        Some(order[i])
    } else {
        first_single_from(cards, order, i + 1)
    }
}

/// The first of the three hands of `order`, from position `i` on, that holds any
/// card.
pub open spec fn first_nonempty_from(cards: Cards, order: Seq<HandId>, i: int) -> Option<HandId>
    decreases 3 - i,
{
    if i < 0 || i >= 3 {
        None
    } else if cards.hand_spec(order[i]).len() > 0 {
        Some(order[i])
    } else {
        first_nonempty_from(cards, order, i + 1)
    }
}

/// The first of the three hands of `order`, from position `i` on, that seems
/// about to complete a basket.
pub open spec fn first_likely_from(memory: Memory, order: Seq<HandId>, i: int) -> Option<HandId>
    decreases 3 - i,
{
    if i < 0 || i >= 3 {
        None
    } else if memory.likely_rank_from(order[i], 12) is Some {
        Some(order[i])
    } else {
        first_likely_from(memory, order, i + 1)
    }
}

/// Whom to aim the game warden or the glass bottom boat at: someone down to their
/// last card, else near the end of the game anyone with a card, else someone who
/// seems about to complete a basket; each in the order `order`.
pub open spec fn pick_target(cards: Cards, memory: Memory, order: Seq<HandId>) -> Option<HandId> {
    match first_single_from(cards, order, 0) {
        Some(t) => Some(t),
        None => match (if cards.active_spec() <= 15 {
            first_nonempty_from(cards, order, 0)
        } else {
            None
        }) {
            Some(t) => Some(t),
            None => first_likely_from(memory, order, 0),
        },
    }
}

/// The last almost complete basket, the one of the highest rank.
pub open spec fn last_basket_from(acb: Seq<Option<AlmostCompleteBasket>>, r: int) -> Option<AlmostCompleteBasket>
    decreases r + 1,
{
    if r < 0 {
        None
    } else if acb[r] is Some {
        acb[r]
    } else {
        last_basket_from(acb, r - 1)
    }
}

pub proof fn lemma_last_basket_some(acb: Seq<Option<AlmostCompleteBasket>>, r: int, w: int)
    requires
        0 <= w <= r,
        acb[w] is Some,
    ensures
        last_basket_from(acb, r) is Some,
    decreases r + 1,
{
    if acb[r] is None {
        lemma_last_basket_some(acb, r - 1, w);
    }
}

/// Whether divine intervention should answer the last play on `stack`.
pub open spec fn divine_answer(cards: Cards, memory: Memory, hand: Seq<Card>, stack: Seq<Play>, hand_id: HandId) -> bool {
    if stack.len() == 0 {
        false
    } else {
        match stack.last().kind {
            PlayKind::FishedUnsuccessfully { .. } => false,
            PlayKind::NoFishing { question } => if question.targeting.source == hand_id {
                false
            } else if question.targeting.target == hand_id {
                true
            } else {
                should_shed_spec(cards, hand, stack)
            },
            PlayKind::TwoFistedFisherman { source, .. } => source != hand_id && (should_shed_spec(cards, hand, stack)
                || memory.likely_rank_from(source, 12) is Some),
            PlayKind::TheNet { targeting, .. } => targeting.source != hand_id && (should_shed_spec(cards, hand, stack)
                || memory.likely_rank_from(targeting.source, 12) is Some),
            PlayKind::TheLure { targeting, .. } => targeting.source != hand_id && (should_shed_spec(cards, hand, stack)
                || memory.likely_rank_from(targeting.source, 12) is Some),
        }
    }
}

/// What a computer player plays with the card `card` at position `i` of its hand,
/// if anything.
pub open spec fn card_play(
    cards: Cards,
    memories: Memories,
    stack: Seq<Play>,
    responder_id: CpuId,
    warden_order: Seq<HandId>,
    boat_order: Seq<HandId>,
    i: int,
    card: Card,
) -> Option<AnytimePlaySelection> {
    let hand_id = HandId::from_cpu_spec(responder_id);
    let hand = cards.hand_spec(hand_id);
    let memory = memories.memory_spec(responder_id);
    if card == THE_GAME_WARDEN {
        match pick_target(cards, memory, warden_order) {
            Some(t) => Some(AnytimePlaySelection::GameWarden(t)),
            None => None,
        }
    } else if card == GLASS_BOTTOM_BOAT {
        match pick_target(cards, memory, boat_order) {
            Some(t) => Some(AnytimePlaySelection::GlassBottomBoat(t)),
            None => None,
        }
    } else if card == DEAD_SCUBA_DIVER {
        match acb_of(hand) {
            Some(acb) => Some(AnytimePlaySelection::DeadScubaDiver(last_basket_from(acb, 12)->0, i as u8)),
            None => None,
        }
    } else if card == DIVINE_INTERVENTION && divine_answer(cards, memory, hand, stack, hand_id) {
        Some(AnytimePlaySelection::DivineIntervention)
    } else {
        None
    }
}

/// The play of the first card of the responder's hand, from position `i` on,
/// that gives one.
pub open spec fn anytime_play_from(
    cards: Cards,
    memories: Memories,
    stack: Seq<Play>,
    responder_id: CpuId,
    warden_order: Seq<HandId>,
    boat_order: Seq<HandId>,
    i: int,
) -> Option<AnytimePlaySelection>
    decreases cards.hand_spec(HandId::from_cpu_spec(responder_id)).len() - i,
{
    let hand = cards.hand_spec(HandId::from_cpu_spec(responder_id));
    if i < 0 || i >= hand.len() {
        None
    } else {
        match card_play(cards, memories, stack, responder_id, warden_order, boat_order, i, hand[i]) {
            Some(s) => Some(s),
            None => anytime_play_from(cards, memories, stack, responder_id, warden_order, boat_order, i + 1),
        }
    }
}

fn pick_target_exec(cards: &Cards, memory: &Memory, order: &[HandId; 3]) -> (res: Option<HandId>)
    ensures
        res == pick_target(*cards, *memory, order@),
{
    let mut k: usize = 0;
    while k < 3
        invariant
            k <= 3,
            first_single_from(*cards, order@, 0) == first_single_from(*cards, order@, k as int),
        decreases 3 - k,
    {
        if cards.hand(order[k]).len() == 1 {
            return Some(order[k]);
        }
        k = k + 1;
    }
    if cards.active_count() == ActiveCardCount::VeryFew {
        k = 0;
        while k < 3
            invariant
                k <= 3,
                first_single_from(*cards, order@, 0) is None,
                cards.active_spec() <= 15,
                first_nonempty_from(*cards, order@, 0) == first_nonempty_from(*cards, order@, k as int),
            decreases 3 - k,
        {
            if !cards.hand(order[k]).is_empty() {
                return Some(order[k]);
            }
            k = k + 1;
        }
    }
    k = 0;
    while k < 3
        invariant
            k <= 3,
            pick_target(*cards, *memory, order@) == first_likely_from(*memory, order@, k as int),
        decreases 3 - k,
    {
        if memory.likely_to_fill_basket_soon(order[k]).is_some() {
            return Some(order[k]);
        }
        k = k + 1;
    }
    None
}

/// What a computer player plays at any time: for the first card of its hand that
/// calls for it, the game warden or glass bottom boat at a target chosen in the
/// order `warden_order` or `boat_order` (meant to be shuffles of the other
/// hands), the dead scuba diver on its highest almost complete basket, or divine
/// intervention against the last play on the stack.
/// Whether `order` lists three hands, none of them `me`'s.
pub open spec fn others_only(order: Seq<HandId>, me: HandId) -> bool {
    order.len() == 3 && forall|k: int| 0 <= k < 3 ==> #[trigger] order[k] != me
}

pub fn anytime_play(
    warden_order: &[HandId; 3],
    boat_order: &[HandId; 3],
    stack: &[Play],
    cards: &Cards,
    memories: &Memories,
    responder_id: CpuId,
) -> (res: Option<AnytimePlay>)
    requires
        no_full_basket(cards.hand_spec(HandId::from_cpu_spec(responder_id))),
        others_only(warden_order@, HandId::from_cpu_spec(responder_id)),
        others_only(boat_order@, HandId::from_cpu_spec(responder_id)),
    ensures
        match anytime_play_from(*cards, *memories, stack@, responder_id, warden_order@, boat_order@, 0) {
            Some(s) => res == Some(AnytimePlay { selection: s }),
            None => res is None,
        },
{
    let hand_id = HandId::from(responder_id);
    let hand = cards.hand(hand_id);
    let memory = memories.memory(responder_id);
    let entries = hand.enumerated_iter();
    let mut k: usize = 0;
    while k < entries.len()
        invariant
            k <= entries@.len(),
            hand_id == HandId::from_cpu_spec(responder_id),
            hand@ == cards.hand_spec(hand_id),
            *memory == memories.memory_spec(responder_id),
            entries@.len() == hand@.len(),
            no_full_basket(hand@),
            forall|j: int| 0 <= j < entries@.len() ==> #[trigger] entries@[j] == (j as u8, hand@[j]),
            anytime_play_from(*cards, *memories, stack@, responder_id, warden_order@, boat_order@, 0)
                == anytime_play_from(*cards, *memories, stack@, responder_id, warden_order@, boat_order@, k as int),
        decreases entries@.len() - k,
    {
        let (card_i, card) = entries[k];
        if card == THE_GAME_WARDEN {
            match pick_target_exec(cards, memory, warden_order) {
                Some(t) => {
                    return Some(AnytimePlay { selection: AnytimePlaySelection::GameWarden(t) });
                },
                None => {},
            }
        } else if card == GLASS_BOTTOM_BOAT {
            match pick_target_exec(cards, memory, boat_order) {
                Some(t) => {
                    return Some(AnytimePlay { selection: AnytimePlaySelection::GlassBottomBoat(t) });
                },
                None => {},
            }
        } else if card == DEAD_SCUBA_DIVER {
            match find_almost_complete_baskets(hand) {
                Some(almost_complete) => {
                    let mut r: usize = 13;
                    let mut best: Option<AlmostCompleteBasket> = None;
                    while r > 0
                        invariant_except_break
                            r <= 13,
                            best is None,
                            last_basket_from(almost_complete@, 12) == last_basket_from(almost_complete@, r - 1),
                        ensures
                            best == last_basket_from(almost_complete@, 12),
                        decreases r,
                    {
                        match almost_complete[r - 1] {
                            Some(basket) => {
                                best = Some(basket);
                                break;
                            },
                            None => {},
                        }
                        r = r - 1;
                    }
                    match best {
                        Some(basket) => {
                            return Some(
                                AnytimePlay {
                                    selection: AnytimePlaySelection::DeadScubaDiver(basket, card_i),
                                },
                            );
                        },
                        None => {
                            proof {
                                let w = choose|q: int| 0 <= q < 13 && #[trigger] almost_complete_spec(hand@)[q] is Some;
                                lemma_last_basket_some(almost_complete@, 12, w);
                            }
                        },
                    }
                },
                None => {},
            }
        } else if card == DIVINE_INTERVENTION {
            if stack.len() > 0 {
                let last = &stack[stack.len() - 1];
                let answer = match &last.kind {
                    PlayKind::FishedUnsuccessfully { .. } => false,
                    PlayKind::NoFishing { question } => {
                        if question.targeting.source == hand_id {
                            false
                        } else if question.targeting.target == hand_id {
                            true
                        } else {
                            should_shed_zingers(cards, hand, stack)
                        }
                    },
                    PlayKind::TwoFistedFisherman { source, .. } => {
                        *source != hand_id && (should_shed_zingers(cards, hand, stack)
                            || memory.likely_to_fill_basket_soon(*source).is_some())
                    },
                    PlayKind::TheNet { targeting, .. } => {
                        targeting.source != hand_id && (should_shed_zingers(cards, hand, stack)
                            || memory.likely_to_fill_basket_soon(targeting.source).is_some())
                    },
                    PlayKind::TheLure { targeting, .. } => {
                        targeting.source != hand_id && (should_shed_zingers(cards, hand, stack)
                            || memory.likely_to_fill_basket_soon(targeting.source).is_some())
                    },
                };
                if answer {
                    return Some(AnytimePlay { selection: AnytimePlaySelection::DivineIntervention });
                }
            }
        }
        k = k + 1;
    }
    None
}

} // verus!
