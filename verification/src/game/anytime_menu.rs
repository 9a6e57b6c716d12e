//! The player's menu for the zingers that may be played at any time: which
//! card, against what, and the play itself once it is submitted.
use vstd::prelude::*;
use crate::game::anytime::{
    almost_complete_spec, count_some, dec_index, has_index, inc_index, AnytimeCard, DivineTarget,
    PlayAnytimeFlags,
};
use crate::game::anytime_play::{
    acb_of, apa_step, apa_upto, popcount, stack_targets, ApaView, AvailablePlayAnytime,
};
use crate::game::animation::{lemma_first_free_in_range, Animation, AnimationAction, AfterDiscard, Animations};
use crate::game::baskets::lemma_rank_indices;
use crate::game::anytime::{find_almost_complete_baskets, no_full_basket, rank_indices};
use crate::game::cards::Cards;
use crate::game::cpu_select::lemma_two_pushes_keep_slots;
use crate::game::layout::{card_position_spec, get_card_position, in_front_of, in_front_of_spec, spread, spread_spec};
use crate::game::play::Play;
use crate::game::state::{pressed, B_BITS};
use crate::game::ui::{button_press, button_press_spec, Context, Id};
use crate::game::zingers::{
    cancel_two_fisted, discard_animation, discard_glass_bottom_boat, first_index, kept_after, perform_game_warden,
    play_dead_scuba_diver, play_divine_intervention, push_spec, retained, scuba_positions, taken_after,
    warden_animation,
};
use crate::platform_types::{Button, Dir, Input, Speaker, SFX};
use crate::models::{
    get_rank_spec, AlmostCompleteBasket, AlmostCompleteBaskets, Card, CardIndex, HandId, Rank, Targeting,
    DEAD_SCUBA_DIVER, DECK_SIZE, DIVINE_INTERVENTION, GLASS_BOTTOM_BOAT, THE_GAME_WARDEN,
};
use crate::game::state::{PlayerMenu, PlayerSelectingSubMenu, PlayerSelection, State};
use crate::game::resolve::responder_spec;

verus! {

/// Whether the menu stays open or the play is done.
#[derive(Clone, Copy, Debug, PartialEq, Eq, Structural)]
pub enum AnytimeOutcome {
    Hold,
    Done,
}

/// Whether the flags offer exactly one card.
pub open spec fn single_flag(bits: u8) -> bool {
    bits == 1 || bits == 2 || bits == 4 || bits == 8
}

/// The one card that the flags offer, if they offer just one.
pub open spec fn single_card(bits: u8) -> Option<AnytimeCard> {
    if bits == 1 {
        Some(AnytimeCard::GameWarden)
    } else if bits == 2 {
        Some(AnytimeCard::GlassBottomBoat)
    } else if bits == 4 {
        Some(AnytimeCard::DeadScubaDiver)
    } else if bits == 8 {
        Some(AnytimeCard::DivineIntervention)
    } else {
        None
    }
}

/// The first rank from `r` on with an almost complete basket.
pub open spec fn first_some_from(acb: Seq<Option<AlmostCompleteBasket>>, r: int) -> Option<int>
    decreases 13 - r,
{
    if r < 0 || r >= 13 {
        None
    } else if acb[r] is Some {
        Some(r)
    } else {
        first_some_from(acb, r + 1)
    }
}

/// The selection moved onto what `available` offers: a card it offers, a
/// divine target it offers, and a rank with an almost complete basket.
pub open spec fn clamped_selection(sel: PlayerSelection, available: AvailablePlayAnytime) -> PlayerSelection {
    let acb = available.almost_complete_baskets@;
    PlayerSelection {
        card: sel.card.clamped(available.flags),
        divine_target: sel.divine_target.clamped(available.divine_targets),
        rank: if acb[sel.rank.index()] is None {
            match first_some_from(acb, 0) {
                Some(r) => Rank::from_index(r),
                None => sel.rank,
            }
        } else {
            sel.rank
        },
        ..sel
    }
}

/// The section of the menu that the hot widget is in: the card, the target or
/// the submit button; the card where no widget of the menu is hot.
pub open spec fn grid_index(hot: Id) -> int {
    match hot {
        Id::AnytimeCard => 0,
        Id::CpuIdSelect | Id::RankSelect | Id::ZingerCardSelect => 1,
        Id::Submit => 2,
        _ => 0,
    }
}

/// The section that the menu starts a frame in: the hot one, passing over the
/// card where only one is offered and over a target with no choice in it.
pub open spec fn start_index(card: AnytimeCard, hot: Id, available: AvailablePlayAnytime) -> int {
    let i0 = grid_index(hot);
    let i1 = if i0 == 0 && single_flag(available.flags.bits_spec()) {
        1
    } else {
        i0
    };
    let i2 = if card == AnytimeCard::DeadScubaDiver && i1 == 1 && count_some(
        available.almost_complete_baskets@,
    ) <= 1 {
        2
    } else {
        i1
    };
    if card == AnytimeCard::DivineIntervention && i2 == 1 && popcount(available.divine_targets) <= 1 {
        2
    } else {
        i2
    }
}

/// The widget that starts hot in section `i`.
pub open spec fn start_hot(i: int, card: AnytimeCard) -> Id {
    if i == 0 {
        Id::AnytimeCard
    } else if i == 1 {
        if card == AnytimeCard::DeadScubaDiver {
            Id::RankSelect
        } else {
            Id::CpuIdSelect
        }
    } else {
        Id::Submit
    }
}

/// The widget that a move onto section `i` makes hot.
pub open spec fn nav_hot(i: int, card: AnytimeCard) -> Id {
    if i == 0 {
        Id::AnytimeCard
    } else if i == 1 {
        match card {
            AnytimeCard::GameWarden | AnytimeCard::GlassBottomBoat => Id::CpuIdSelect,
            AnytimeCard::DeadScubaDiver => Id::RankSelect,
            AnytimeCard::DivineIntervention => Id::ZingerCardSelect,
        }
    } else {
        Id::Submit
    }
}

/// The section left of `i`, passing over a target with no choice in it and the
/// card where only one is offered.
pub open spec fn left_index(i: int, card: AnytimeCard, available: AvailablePlayAnytime) -> int {
    if i == 0 {
        2
    } else {
        let j = i - 1;
        let j2 = if card == AnytimeCard::DeadScubaDiver && j == 1 && count_some(
            available.almost_complete_baskets@,
        ) <= 1 {
            0
        } else {
            j
        };
        if j2 == 0 && single_flag(available.flags.bits_spec()) {
            2
        } else {
            j2
        }
    }
}

/// The section right of `i`, going round, passing over the card where only one
/// is offered and over a target with no choice in it.
pub open spec fn right_index(i: int, card: AnytimeCard, available: AvailablePlayAnytime) -> int {
    let j = if i >= 2 {
        if single_flag(available.flags.bits_spec()) {
            1
        } else {
            0
        }
    } else {
        i + 1
    };
    if card == AnytimeCard::DeadScubaDiver && j == 1 && count_some(available.almost_complete_baskets@) <= 1 {
        2
    } else {
        j
    }
}

/// The selection after up (`up`) or down is pressed in section `i`: the card,
/// or the target that goes with the card, moves to the next or previous choice.
pub open spec fn stepped_selection(
    sel: PlayerSelection,
    available: AvailablePlayAnytime,
    i: int,
    up: bool,
) -> PlayerSelection {
    let bits = available.flags.bits_spec();
    let acb = available.almost_complete_baskets@;
    let targets = available.divine_targets;
    if i == 0 {
        PlayerSelection {
            card: AnytimeCard::from_index(
                if up {
                    inc_index(sel.card.index(), bits)
                } else {
                    dec_index(sel.card.index(), bits)
                },
            ),
            ..sel
        }
    } else if i == 1 {
        match sel.card {
            AnytimeCard::GameWarden | AnytimeCard::GlassBottomBoat => PlayerSelection {
                target: if up {
                    sel.target.next()
                } else {
                    sel.target.prev()
                },
                ..sel
            },
            AnytimeCard::DeadScubaDiver => PlayerSelection {
                rank: Rank::from_index(
                    if up {
                        Rank::wrapping_inc_index(sel.rank.index(), acb)
                    } else {
                        Rank::wrapping_dec_index(sel.rank.index(), acb)
                    },
                ),
                ..sel
            },
            AnytimeCard::DivineIntervention => PlayerSelection {
                divine_target: DivineTarget::from_index(
                    if up {
                        inc_index(sel.divine_target.index(), targets)
                    } else {
                        dec_index(sel.divine_target.index(), targets)
                    },
                ),
                ..sel
            },
        }
    } else {
        sel
    }
}

/// The flags of `x` past one that is added: the added one is set, the others
/// stay.
proof fn lemma_flag_bits(x: u8)
    by (bit_vector)
    ensures
        (x | 1) & 1 != 0,
        (x | 1) & 2 == x & 2,
        (x | 1) & 4 == x & 4,
        (x | 1) & 8 == x & 8,
        (x | 2) & 2 != 0,
        (x | 2) & 1 == x & 1,
        (x | 2) & 4 == x & 4,
        (x | 2) & 8 == x & 8,
        (x | 4) & 4 != 0,
        (x | 4) & 1 == x & 1,
        (x | 4) & 2 == x & 2,
        (x | 4) & 8 == x & 8,
        (x | 8) & 8 != 0,
        (x | 8) & 1 == x & 1,
        (x | 8) & 2 == x & 2,
        (x | 8) & 4 == x & 4,
{
}

/// Whether what `v` offers is really in `hand`, among its first `k` cards.
pub open spec fn offers_upto(
    v: ApaView,
    hand: Seq<Card>,
    k: int,
    can_warden: bool,
    acb: Option<Seq<Option<AlmostCompleteBasket>>>,
    targets: u8,
) -> bool {
    &&& v.0 & 1 != 0 ==> v.1 < k && hand[v.1 as int] == THE_GAME_WARDEN && can_warden
    &&& v.0 & 2 != 0 ==> v.2 < k && hand[v.2 as int] == GLASS_BOTTOM_BOAT
    &&& v.0 & 4 != 0 ==> v.3 < k && hand[v.3 as int] == DEAD_SCUBA_DIVER && acb == Some(v.5)
    &&& v.0 & 8 != 0 ==> v.4 < k && hand[v.4 as int] == DIVINE_INTERVENTION && v.6 == targets && targets != 0
}

/// Each card that the first `k` cards of a hand offer is at the position given
/// for it.
pub proof fn lemma_apa_offers(
    hand: Seq<Card>,
    k: int,
    can_warden: bool,
    acb: Option<Seq<Option<AlmostCompleteBasket>>>,
    targets: u8,
)
    requires
        0 <= k <= hand.len() <= 256,
    ensures
        apa_upto(hand, k, can_warden, acb, targets) matches Some(v) ==> offers_upto(
            v,
            hand,
            k,
            can_warden,
            acb,
            targets,
        ),
    decreases k,
{
    if k > 0 {
        lemma_apa_offers(hand, k - 1, can_warden, acb, targets);
        let out = apa_upto(hand, k - 1, can_warden, acb, targets);
        let i = (k - 1) as u8;
        let card = hand[k - 1];
        assert(i as int == k - 1);
        let o1 = if card == THE_GAME_WARDEN && can_warden {
            Some(
                match out {
                    None => (1u8, i, 0u8, 0u8, 0u8, crate::game::anytime_play::no_baskets(), crate::game::anytime::DT_DEFAULT),
                    Some(v) => (v.0 | 1u8, i, v.2, v.3, v.4, v.5, v.6),
                },
            )
        } else {
            out
        };
        let o2 = if card == GLASS_BOTTOM_BOAT {
            Some(
                match o1 {
                    None => (2u8, 0u8, i, 0u8, 0u8, crate::game::anytime_play::no_baskets(), crate::game::anytime::DT_DEFAULT),
                    Some(v) => (v.0 | 2u8, v.1, i, v.3, v.4, v.5, v.6),
                },
            )
        } else {
            o1
        };
        let o3 = if card == DEAD_SCUBA_DIVER && acb is Some {
            Some(
                match o2 {
                    None => (4u8, 0u8, 0u8, i, 0u8, acb->0, crate::game::anytime::DT_DEFAULT),
                    Some(v) => (v.0 | 4u8, v.1, v.2, i, v.4, acb->0, v.6),
                },
            )
        } else {
            o2
        };
        assert(1u8 & 1 != 0 && 1u8 & 2 == 0 && 1u8 & 4 == 0 && 1u8 & 8 == 0) by (bit_vector);
        assert(2u8 & 2 != 0 && 2u8 & 1 == 0 && 2u8 & 4 == 0 && 2u8 & 8 == 0) by (bit_vector);
        assert(4u8 & 4 != 0 && 4u8 & 1 == 0 && 4u8 & 2 == 0 && 4u8 & 8 == 0) by (bit_vector);
        assert(8u8 & 8 != 0 && 8u8 & 1 == 0 && 8u8 & 2 == 0 && 8u8 & 4 == 0) by (bit_vector);
        if let Some(v) = out {
            lemma_flag_bits(v.0);
        }
        if let Some(v) = o1 {
            lemma_flag_bits(v.0);
        }
        if let Some(v) = o2 {
            lemma_flag_bits(v.0);
        }
        if let Some(v) = o3 {
            lemma_flag_bits(v.0);
        }
        assert(apa_upto(hand, k, can_warden, acb, targets) == apa_step(out, i, card, can_warden, acb, targets));
    }
}

/// The plays on a stack give divine intervention at most the four targets.
pub proof fn lemma_stack_targets_bound(stack: Seq<Play>)
    ensures
        stack_targets(stack) <= 15,
    decreases stack.len(),
{
    if stack.len() > 0 {
        lemma_stack_targets_bound(stack.drop_last());
        let a = stack_targets(stack.drop_last());
        let b: u8 = match stack.last().kind.divine_targets_spec() {
            Some(t) => t,
            None => 0u8,
        };
        assert(b <= 15);
        assert(a <= 15 && b <= 15 ==> a | b <= 15) by (bit_vector);
    }
}

/// The card the menu shows: the one card where the flags offer just one, else
/// the selected card moved onto one the flags offer.
pub open spec fn offered_card(card: AnytimeCard, flags: PlayAnytimeFlags) -> AnytimeCard {
    match single_card(flags.bits_spec()) {
        Some(c) => c,
        None => card.clamped(flags),
    }
}

/// The card the menu shows is one that the flags offer.
pub proof fn lemma_offered_card_in_flags(card: AnytimeCard, flags: PlayAnytimeFlags)
    ensures
        offered_card(card, flags).bit() & flags.bits_spec() != 0,
{
    let b = flags.bits_spec();
    assert(1 <= b <= 15);
    assert(1 <= b <= 15 && 1u8 & b == 0 && 2u8 & b == 0 && 4u8 & b == 0 ==> 8u8 & b != 0) by (bit_vector);
    assert(1 <= b <= 15 && 2u8 & b == 0 && 4u8 & b == 0 && 8u8 & b == 0 ==> 1u8 & b != 0 && b == 1) by (bit_vector);
    assert(1u8 & 1u8 != 0 && 2u8 & 2u8 != 0 && 4u8 & 4u8 != 0 && 8u8 & 8u8 != 0) by (bit_vector);
    let g = AnytimeCard::GameWarden.bit() & b != 0;
    let o = AnytimeCard::GlassBottomBoat.bit() & b != 0;
    let d = AnytimeCard::DeadScubaDiver.bit() & b != 0;
    let i = AnytimeCard::DivineIntervention.bit() & b != 0;
    assert(g == (1u8 & b != 0) && o == (2u8 & b != 0) && d == (4u8 & b != 0) && i == (8u8 & b != 0));
    if single_card(b) is None {
        match card {
            AnytimeCard::GameWarden => {
                assert(card.clamped(flags) == (if g {
                    AnytimeCard::GameWarden
                } else if o {
                    AnytimeCard::GlassBottomBoat
                } else if d {
                    AnytimeCard::DeadScubaDiver
                } else {
                    AnytimeCard::DivineIntervention
                }));
            },
            AnytimeCard::GlassBottomBoat => {
                assert(card.clamped(flags) == (if o {
                    AnytimeCard::GlassBottomBoat
                } else if d {
                    AnytimeCard::DeadScubaDiver
                } else if i {
                    AnytimeCard::DivineIntervention
                } else {
                    AnytimeCard::GlassBottomBoat
                }));
            },
            AnytimeCard::DeadScubaDiver => {
                assert(card.clamped(flags) == (if d {
                    AnytimeCard::DeadScubaDiver
                } else if o {
                    AnytimeCard::GlassBottomBoat
                } else if i {
                    AnytimeCard::DivineIntervention
                } else {
                    AnytimeCard::GameWarden
                }));
            },
            AnytimeCard::DivineIntervention => {
                assert(card.clamped(flags) == (if i {
                    AnytimeCard::DivineIntervention
                } else if o {
                    AnytimeCard::GlassBottomBoat
                } else if d {
                    AnytimeCard::DeadScubaDiver
                } else {
                    AnytimeCard::GameWarden
                }));
            },
        }
    }
}

/// The dead scuba diver at `i` and the almost complete basket of the rank at
/// `w` are five different positions of the hand.
proof fn lemma_scuba_positions_for(hand: Seq<Card>, i: int, w: int)
    requires
        0 <= i < hand.len() <= DECK_SIZE,
        hand[i] == DEAD_SCUBA_DIVER,
        0 <= w < 13,
        almost_complete_spec(hand)[w] is Some,
    ensures
        ({
            let pos = scuba_positions(almost_complete_spec(hand)[w]->0, i as CardIndex);
            &&& forall|j: int, k: int| 0 <= j < k < 5 ==> pos[j] != pos[k]
            &&& forall|j: int| 0 <= j < 5 ==> #[trigger] pos[j] < hand.len()
        }),
{
    let b = almost_complete_spec(hand)[w]->0;
    let rank = Rank::from_index(w);
    let idx = rank_indices(hand, rank);
    lemma_rank_indices(hand, rank);
    assert(idx.len() == 4);
    assert(b@[0] == idx[0] && b@[1] == idx[1] && b@[2] == idx[2] && b@[3] == idx[3]);
    assert(get_rank_spec(hand[i]) is None);
    let pos = scuba_positions(b, i as CardIndex);
    assert forall|j: int| 0 <= j < 4 implies #[trigger] pos[j] != i as CardIndex by {
        assert(pos[j] == idx[j]);
        assert(get_rank_spec(hand[idx[j] as int]) == Some(rank));
    }
}

/// The first rank with an almost complete basket, as its position.
fn first_basket_rank(acb: &AlmostCompleteBaskets) -> (res: Option<u8>)
    ensures
        match first_some_from(acb@, 0) {
            Some(r) => res == Some(r as u8) && 0 <= r < 13,
            None => res is None,
        },
{
    let mut i: u8 = 0;
    while i < 13
        invariant
            i <= 13,
            first_some_from(acb@, 0) == first_some_from(acb@, i as int),
        decreases 13 - i,
    {
        if acb[i as usize].is_some() {
            return Some(i);
        }
        i = i + 1;
    }
    None
}

/// Moves the selection onto what `available` offers.
pub fn clamp_selection(selection: &mut PlayerSelection, available: &AvailablePlayAnytime)
    ensures
        *final(selection) == clamped_selection(*old(selection), *available),
{
    selection.card.clamp_to(available.flags);
    selection.divine_target.clamp_to(available.divine_targets);
    let r = selection.rank.to_u8();
    proof {
        selection.rank.lemma_index();
    }
    if available.almost_complete_baskets[r as usize].is_none() {
        match first_basket_rank(&available.almost_complete_baskets) {
            Some(first) => {
                selection.rank = Rank::from_u8(first);
            },
            None => {},
        }
    }
}

fn grid_index_of(hot: Id) -> (res: usize)
    ensures
        res == grid_index(hot),
{
    match hot {
        Id::AnytimeCard => 0,
        Id::CpuIdSelect | Id::RankSelect | Id::ZingerCardSelect => 1,
        Id::Submit => 2,
        _ => 0,
    }
}

fn start_index_of(card: AnytimeCard, hot: Id, available: &AvailablePlayAnytime) -> (res: usize)
    ensures
        res == start_index(card, hot, *available),
        res <= 2,
{
    let mut i = grid_index_of(hot);
    if i == 0 && available.flags.is_single() {
        i = 1;
    }
    if card == AnytimeCard::DeadScubaDiver && i == 1 && available.basket_count() <= 1 {
        i = 2;
    }
    if card == AnytimeCard::DivineIntervention && i == 1 && available.divine_target_count() <= 1 {
        i = 2;
    }
    i
}

fn start_hot_of(i: usize, card: AnytimeCard) -> (res: Id)
    ensures
        res == start_hot(i as int, card),
{
    if i == 0 {
        Id::AnytimeCard
    } else if i == 1 {
        if card == AnytimeCard::DeadScubaDiver {
            Id::RankSelect
        } else {
            Id::CpuIdSelect
        }
    } else {
        Id::Submit
    }
}

fn nav_hot_of(i: usize, card: AnytimeCard) -> (res: Id)
    ensures
        res == nav_hot(i as int, card),
{
    if i == 0 {
        Id::AnytimeCard
    } else if i == 1 {
        match card {
            AnytimeCard::GameWarden | AnytimeCard::GlassBottomBoat => Id::CpuIdSelect,
            AnytimeCard::DeadScubaDiver => Id::RankSelect,
            AnytimeCard::DivineIntervention => Id::ZingerCardSelect,
        }
    } else {
        Id::Submit
    }
}

/// The direction pressed this frame, as `Input::dir_pressed_this_frame` finds it.
pub open spec fn dir_of(input: Input) -> Option<Dir> {
    if input.spec_pressed(Button::up_spec()) {
        Some(Dir::Up)
    } else if input.spec_pressed(Button::down_spec()) {
        Some(Dir::Down)
    } else if input.spec_pressed(Button::left_spec()) {
        Some(Dir::Left)
    } else if input.spec_pressed(Button::right_spec()) {
        Some(Dir::Right)
    } else {
        None
    }
}

/// The selection after `dir` is pressed with the widget `hot` hot.
pub open spec fn navigated_selection(
    sel: PlayerSelection,
    available: AvailablePlayAnytime,
    hot: Id,
    dir: Dir,
) -> PlayerSelection {
    match dir {
        Dir::Up => stepped_selection(sel, available, grid_index(hot), true),
        Dir::Down => stepped_selection(sel, available, grid_index(hot), false),
        _ => sel,
    }
}

/// The section that the menu is in after `dir` is pressed with the widget
/// `hot` hot.
pub open spec fn navigated_index(card: AnytimeCard, available: AvailablePlayAnytime, hot: Id, dir: Dir) -> int {
    match dir {
        Dir::Left => left_index(grid_index(hot), card, available),
        Dir::Right => right_index(grid_index(hot), card, available),
        _ => grid_index(hot),
    }
}

/// Moves around the menu: up and down change the choice in the hot section,
/// left and right move to another section, which is marked hot for next frame.
pub fn navigate(
    ctx: &mut Context,
    selection: &mut PlayerSelection,
    available: &AvailablePlayAnytime,
    dir: Dir,
)
    requires
        old(selection).card == AnytimeCard::DivineIntervention ==> available.divine_targets & 15 != 0,
    ensures
        ({
            let sel = navigated_selection(*old(selection), *available, old(ctx).hot, dir);
            &&& *final(selection) == sel
            &&& *final(ctx) == (Context {
                next_hot: nav_hot(navigated_index(old(selection).card, *available, old(ctx).hot, dir), sel.card),
                ..*old(ctx)
            })
        }),
{
    let mut i = grid_index_of(ctx.hot);
    proof {
        selection.rank.lemma_index();
    }
    match dir {
        Dir::Up => {
            if i == 0 {
                selection.card = selection.card.wrapping_inc(available.flags);
            } else if i == 1 {
                match selection.card {
                    AnytimeCard::GameWarden | AnytimeCard::GlassBottomBoat => {
                        selection.target = selection.target.wrapping_inc();
                    },
                    AnytimeCard::DeadScubaDiver => {
                        let r = selection.rank.wrapping_inc(available.almost_complete_baskets);
                        proof {
                            r.lemma_index();
                        }
                        selection.rank = r;
                    },
                    AnytimeCard::DivineIntervention => {
                        selection.divine_target = selection.divine_target.wrapping_inc(available.divine_targets);
                    },
                }
            }
        },
        Dir::Down => {
            if i == 0 {
                selection.card = selection.card.wrapping_dec(available.flags);
            } else if i == 1 {
                match selection.card {
                    AnytimeCard::GameWarden | AnytimeCard::GlassBottomBoat => {
                        selection.target = selection.target.wrapping_dec();
                    },
                    AnytimeCard::DeadScubaDiver => {
                        let r = selection.rank.wrapping_dec(available.almost_complete_baskets);
                        proof {
                            r.lemma_index();
                        }
                        selection.rank = r;
                    },
                    AnytimeCard::DivineIntervention => {
                        selection.divine_target = selection.divine_target.wrapping_dec(available.divine_targets);
                    },
                }
            }
        },
        Dir::Left => {
            if i == 0 {
                i = 2;
            } else {
                i = i - 1;
                if selection.card == AnytimeCard::DeadScubaDiver && i == 1 && available.basket_count() <= 1 {
                    i = 0;
                }
                if i == 0 && available.flags.is_single() {
                    i = 2;
                }
            }
        },
        Dir::Right => {
            if i >= 2 {
                if available.flags.is_single() {
                    i = 1;
                } else {
                    i = 0;
                }
            } else {
                i = i + 1;
            }
            if selection.card == AnytimeCard::DeadScubaDiver && i == 1 && available.basket_count() <= 1 {
                i = 2;
            }
        },
    }
    ctx.set_next_hot(nav_hot_of(i, selection.card));
}

/// What submitting `card` against `target` does: the cards, animations and
/// stack before (`c0`, `a0`, `s0`) and after (`c1`, `a1`, `s1`). `pick` is the
/// position of the card taken from the target's hand, `basket` the almost
/// complete basket the dead scuba diver completes and `scuba_i` its position.
pub open spec fn submitted(
    card: AnytimeCard,
    target: HandId,
    pick: int,
    basket: Option<AlmostCompleteBasket>,
    scuba_i: CardIndex,
    divine_target: DivineTarget,
    c0: Cards,
    c1: Cards,
    a0: Seq<Animation>,
    a1: Seq<Animation>,
    s0: Seq<Play>,
    s1: Seq<Play>,
) -> bool {
    let me = HandId::Player;
    let mine = c0.hand_spec(me);
    let theirs = c0.hand_spec(target);
    match card {
        AnytimeCard::GameWarden => {
            let w = first_index(mine, THE_GAME_WARDEN);
            &&& c1.hand_spec(me) == mine.remove(w)
            &&& c1.hand_spec(target) == theirs.remove(pick)
            &&& c1.same_but_hands(c0, me, target)
            &&& a1 == push_spec(
                push_spec(a0, warden_animation(target, theirs.len() as int, pick, theirs[pick])),
                discard_animation(me, mine.len() - 1, w, THE_GAME_WARDEN, AfterDiscard::Nothing),
            )
            &&& s1 == s0
        },
        AnytimeCard::GlassBottomBoat => {
            let b = first_index(mine, GLASS_BOTTOM_BOAT);
            let left = theirs.remove(pick);
            &&& c1.hand_spec(me) == mine.remove(b)
            &&& c1.hand_spec(target) == left
            &&& c1.same_but_hands(c0, me, target)
            &&& a1 == push_spec(
                push_spec(
                    a0,
                    Animation {
                        delay: 0,
                        card: theirs[pick],
                        at: card_position_spec(spread_spec(target), left.len() as int, pick),
                        target: in_front_of_spec(me),
                        action: AnimationAction::AnimateBackToHand(target),
                        shown: false,
                    },
                ),
                discard_animation(me, mine.len() - 1, b, GLASS_BOTTOM_BOAT, AfterDiscard::Nothing),
            )
            &&& s1 == s0
        },
        AnytimeCard::DeadScubaDiver => {
            let pos = scuba_positions(basket->0, scuba_i);
            &&& c1.deck@ == c0.deck@
            &&& c1.discard@ == c0.discard@
            &&& forall|other: HandId|
                other != me ==> #[trigger] c1.hand_spec(other) == c0.hand_spec(other) && c1.baskets_spec(other)
                    == c0.baskets_spec(other)
            &&& c1.hand_spec(me) == kept_after(mine, pos, 0)
            &&& c1.baskets_spec(me) == c0.baskets_spec(me) + taken_after(mine, pos, 0)
            &&& a1 == a0
            &&& s1 == s0
        },
        AnytimeCard::DivineIntervention => {
            let d = first_index(mine, DIVINE_INTERVENTION);
            &&& c1.hand_spec(me) == mine.remove(d)
            &&& c1.same_but_hand(c0, me)
            &&& a1 == push_spec(a0, discard_animation(me, mine.len() - 1, d, DIVINE_INTERVENTION, AfterDiscard::Nothing))
            &&& if divine_target == DivineTarget::TwoFistedFisherman {
                s1 == s0.map_values(|p: Play| cancel_two_fisted(p))
            } else {
                s1 == retained(s0, divine_target)
            }
        },
    }
}

/// Plays the selected card: see `submitted`. The glass bottom boat keeps the
/// menu open to show the card it took.
fn submit_play(
    cards: &mut Cards,
    animations: &mut Animations,
    stack: &mut Vec<Play>,
    selection: &mut PlayerSelection,
    available: &AvailablePlayAnytime,
    pick: CardIndex,
) -> (res: AnytimeOutcome)
    requires
        old(cards).well_formed(),
        menu_ready(*old(cards), *available),
        old(selection).card.bit() & available.flags.bits_spec() != 0,
        submit_enabled(*old(cards), *old(selection), *available),
        pick < old(cards).hand_spec(HandId::from_cpu_spec(old(selection).target)).len(),
    ensures
        submitted(
            old(selection).card,
            HandId::from_cpu_spec(old(selection).target),
            pick as int,
            available.almost_complete_baskets@[old(selection).rank.index()],
            available.scuba_i,
            old(selection).divine_target,
            *old(cards),
            *final(cards),
            old(animations).slots(),
            final(animations).slots(),
            old(stack)@,
            final(stack)@,
        ),
        if old(selection).card == AnytimeCard::GlassBottomBoat {
            &&& res == AnytimeOutcome::Hold
            &&& *final(selection) == PlayerSelection {
                viewing: Some(old(cards).hand_spec(HandId::from_cpu_spec(old(selection).target))[pick as int]),
                ..*old(selection)
            }
        } else {
            &&& res == AnytimeOutcome::Done
            &&& *final(selection) == *old(selection)
        },
{
    let ghost hand = cards.player@;
    proof {
        assert(hand.len() <= DECK_SIZE);
        let b = available.flags.bits_spec();
        assert((1u8 & b != 0) == (b & 1 != 0) && (2u8 & b != 0) == (b & 2 != 0) && (4u8 & b != 0) == (b & 4
            != 0) && (8u8 & b != 0) == (b & 8 != 0)) by (bit_vector);
        lemma_first_free_in_range(animations.slots(), 0);
        lemma_two_pushes_keep_slots(animations.slots());
        selection.rank.lemma_index();
    }
    let target = HandId::from(selection.target);
    let r = selection.rank.to_u8();
    match selection.card {
        AnytimeCard::GameWarden => {
            proof {
                let w = available.warden_i as int;
                assert(hand[w] == THE_GAME_WARDEN);
                assert(hand.contains(THE_GAME_WARDEN));
            }
            let done = perform_game_warden(cards, animations, pick, Targeting { source: HandId::Player, target });
            assert(done is Some);
            AnytimeOutcome::Done
        },
        AnytimeCard::GlassBottomBoat => {
            proof {
                let w = available.boat_i as int;
                assert(hand[w] == GLASS_BOTTOM_BOAT);
                assert(hand.contains(GLASS_BOTTOM_BOAT));
            }
            let card = match cards.hand_mut(target).remove(pick) {
                Some(card) => card,
                None => {
                    assert(false);
                    0
                },
            };
            let left = cards.hand(target).len();
            let at = get_card_position(spread(target), left, pick);
            selection.viewing = Some(card);
            animations.push(
                Animation {
                    card,
                    at,
                    target: in_front_of(HandId::Player),
                    action: AnimationAction::AnimateBackToHand(target),
                    delay: 0,
                    shown: false,
                },
            );
            discard_glass_bottom_boat(cards, animations, HandId::Player);
            AnytimeOutcome::Hold
        },
        AnytimeCard::DeadScubaDiver => {
            let almost_basket = match available.almost_complete_baskets[r as usize] {
                Some(almost_basket) => almost_basket,
                None => {
                    assert(false);
                    return AnytimeOutcome::Done;
                },
            };
            proof {
                lemma_scuba_positions_for(hand, available.scuba_i as int, r as int);
                assert(available.almost_complete_baskets@[r as int] == Some(almost_basket));
                assert(almost_complete_spec(hand)[r as int]->0 == almost_basket);
                assert((available.scuba_i as int) as CardIndex == available.scuba_i);
                assert(old(cards).hand_spec(HandId::Player) == hand);
            }
            play_dead_scuba_diver(cards, HandId::Player, almost_basket, available.scuba_i);
            AnytimeOutcome::Done
        },
        AnytimeCard::DivineIntervention => {
            proof {
                let w = available.divine_i as int;
                assert(hand[w] == DIVINE_INTERVENTION);
                assert(hand.contains(DIVINE_INTERVENTION));
            }
            play_divine_intervention(cards, animations, stack, HandId::Player, selection.divine_target);
            AnytimeOutcome::Done
        },
    }
}

/// Whether what `available` offers is in the player's hand, at the positions
/// it gives: the game warden, the glass bottom boat, the dead scuba diver with
/// the hand's almost complete baskets, and divine intervention with targets
/// among the four.
pub open spec fn menu_ready(cards: Cards, available: AvailablePlayAnytime) -> bool {
    let hand = cards.player@;
    let bits = available.flags.bits_spec();
    &&& bits & 1 != 0 ==> available.warden_i < hand.len() && hand[available.warden_i as int] == THE_GAME_WARDEN
    &&& bits & 2 != 0 ==> available.boat_i < hand.len() && hand[available.boat_i as int] == GLASS_BOTTOM_BOAT
    &&& bits & 4 != 0 ==> available.scuba_i < hand.len() && hand[available.scuba_i as int] == DEAD_SCUBA_DIVER
        && available.almost_complete_baskets@ == almost_complete_spec(hand)
    &&& bits & 8 != 0 ==> available.divine_i < hand.len() && hand[available.divine_i as int] == DIVINE_INTERVENTION
        && 1 <= available.divine_targets <= 15
}

/// What the player's hand offers now, as `AvailablePlayAnytime::in_player_hand`
/// finds it, is ready for the menu.
pub proof fn lemma_offered_is_ready(cards: Cards, stack: Seq<Play>, available: AvailablePlayAnytime)
    requires
        cards.well_formed(),
        offered_now(cards, stack) == Some(available.view_spec()),
    ensures
        menu_ready(cards, available),
{
    let hand = cards.player@;
    lemma_apa_offers(hand, hand.len() as int, cards.discard@.len() > 0, acb_of(hand), stack_targets(stack));
    lemma_stack_targets_bound(stack);
    if available.flags.bits_spec() & 4 != 0 {
        assert(acb_of(hand) == Some(almost_complete_spec(hand)));
    }
}

/// Where divine intervention is offered, it has a target among the four.
proof fn lemma_divine_targets_ready(cards: Cards, available: AvailablePlayAnytime)
    requires
        menu_ready(cards, available),
    ensures
        AnytimeCard::DivineIntervention.bit() & available.flags.bits_spec() != 0 ==> available.divine_targets & 15
            != 0,
{
    let b = available.flags.bits_spec();
    let t = available.divine_targets;
    assert((8u8 & b != 0) == (b & 8 != 0)) by (bit_vector);
    assert(1 <= t <= 15 ==> t & 15 != 0) by (bit_vector);
}

fn same_basket(x: &AlmostCompleteBasket, y: &AlmostCompleteBasket) -> (res: bool)
    ensures
        res == (*x == *y),
{
    let same = x[0] == y[0] && x[1] == y[1] && x[2] == y[2] && x[3] == y[3];
    proof {
        if same {
            assert(*x =~= *y);
        }
    }
    same
}

fn same_baskets(a: &AlmostCompleteBaskets, b: &AlmostCompleteBaskets) -> (res: bool)
    ensures
        res == (a@ == b@),
{
    let mut i: usize = 0;
    while i < 13
        invariant
            i <= 13,
            forall|j: int| 0 <= j < i ==> a@[j] == b@[j],
        decreases 13 - i,
    {
        let same = match (&a[i], &b[i]) {
            (None, None) => true,
            (Some(x), Some(y)) => same_basket(x, y),
            _ => false,
        };
        if !same {
            assert(a@[i as int] != b@[i as int]);
            return false;
        }
        i = i + 1;
    }
    assert(a@ =~= b@);
    true
}

/// Whether `available` is ready for the menu with these cards: see
/// `menu_ready`.
pub fn menu_is_ready(cards: &Cards, available: &AvailablePlayAnytime) -> (res: bool)
    requires
        no_full_basket(cards.player@),
    ensures
        res == menu_ready(*cards, *available),
{
    let hand = &cards.player;
    let bits = available.flags.bits();
    let warden_ok = bits & 1 == 0 || hand.get(available.warden_i) == Some(THE_GAME_WARDEN);
    let boat_ok = bits & 2 == 0 || hand.get(available.boat_i) == Some(GLASS_BOTTOM_BOAT);
    let scuba_ok = if bits & 4 == 0 {
        true
    } else if hand.get(available.scuba_i) == Some(DEAD_SCUBA_DIVER) {
        let none: AlmostCompleteBaskets = [None; 13];
        let baskets = match find_almost_complete_baskets(hand) {
            Some(baskets) => baskets,
            None => none,
        };
        proof {
            let spec_acb = almost_complete_spec(hand@);
            assert(spec_acb.len() == 13);
            if forall|r: int| 0 <= r < 13 ==> #[trigger] spec_acb[r] is None {
                assert(baskets@ =~= spec_acb);
            }
        }
        same_baskets(&baskets, &available.almost_complete_baskets)
    } else {
        false
    };
    let divine_ok = bits & 8 == 0 || (hand.get(available.divine_i) == Some(DIVINE_INTERVENTION) && 1
        <= available.divine_targets && available.divine_targets <= 15);
    assert(warden_ok == (bits & 1 != 0 ==> available.warden_i < hand@.len() && hand@[available.warden_i as int] == THE_GAME_WARDEN));
    assert(scuba_ok == (bits & 4 != 0 ==> available.scuba_i < hand@.len() && hand@[available.scuba_i as int] == DEAD_SCUBA_DIVER && available.almost_complete_baskets@ == almost_complete_spec(hand@)));
    warden_ok && boat_ok && scuba_ok && divine_ok
}

/// The play can be submitted: the target's hand has a card to take, and the
/// dead scuba diver has an almost complete basket of the selected rank.
pub open spec fn submit_enabled(cards: Cards, sel: PlayerSelection, available: AvailablePlayAnytime) -> bool {
    &&& cards.hand_spec(HandId::from_cpu_spec(sel.target)).len() > 0
    &&& (sel.card != AnytimeCard::DeadScubaDiver || available.almost_complete_baskets@[sel.rank.index()] is Some)
}

/// One frame of the anytime menu, as `play_anytime_menu` does it: the
/// context, sounds, cards, animations, stack and selection before and after
/// (`.._after`), and the outcome.
pub open spec fn menu_frame(
    ctx: Context,
    ctx_after: Context,
    input: Input,
    sounds: Seq<SFX>,
    sounds_after: Seq<SFX>,
    cards: Cards,
    cards_after: Cards,
    slots: Seq<Animation>,
    slots_after: Seq<Animation>,
    stack: Seq<Play>,
    stack_after: Seq<Play>,
    sel: PlayerSelection,
    sel_after: PlayerSelection,
    available: AvailablePlayAnytime,
    pick: CardIndex,
    res: AnytimeOutcome,
) -> bool {
    ({
        let sel1 = clamped_selection(sel, available);
        let ctx1 = Context {
            next_hot: start_hot(start_index(sel1.card, ctx.hot, available), sel1.card),
            ..ctx
        };
        if sel1.viewing is Some {
            let (pressed, ctx2, sound) = button_press_spec(Context { next_hot: Id::Submit, ..ctx1 }, input, Id::Submit);
            &&& ctx_after == ctx2
            &&& sounds_after == if sound {
                sounds.push(SFX::ButtonPress)
            } else {
                sounds
            }
            &&& cards_after == cards
            &&& slots_after == slots
            &&& stack_after == stack
            &&& res == if pressed {
                AnytimeOutcome::Done
            } else {
                AnytimeOutcome::Hold
            }
            &&& sel_after == if pressed {
                PlayerSelection { viewing: None, ..sel1 }
            } else {
                sel1
            }
        } else {
            let sel2 = PlayerSelection { card: offered_card(sel.card, available.flags), ..sel1 };
            let target = HandId::from_cpu_spec(sel2.target);
            let (fired, ctx2, sound) = if submit_enabled(cards, sel2, available) {
                button_press_spec(ctx1, input, Id::Submit)
            } else {
                (false, ctx1, false)
            };
            &&& sounds_after == if sound {
                sounds.push(SFX::ButtonPress)
            } else {
                sounds
            }
            &&& if fired {
                &&& ctx_after == ctx2
                &&& submitted(
                    sel2.card,
                    target,
                    pick as int,
                    available.almost_complete_baskets@[sel2.rank.index()],
                    available.scuba_i,
                    sel2.divine_target,
                    cards,
                    cards_after,
                    slots,
                    slots_after,
                    stack,
                    stack_after,
                )
                &&& if sel2.card == AnytimeCard::GlassBottomBoat {
                    &&& res == AnytimeOutcome::Hold
                    &&& sel_after == PlayerSelection {
                        viewing: Some(cards.hand_spec(target)[pick as int]),
                        ..sel2
                    }
                } else {
                    &&& res == AnytimeOutcome::Done
                    &&& sel_after == sel2
                }
            } else {
                &&& cards_after == cards
                &&& slots_after == slots
                &&& stack_after == stack
                &&& res == AnytimeOutcome::Hold
                &&& if pressed(input, B_BITS) {
                    &&& sel_after == PlayerSelection { declined: true, ..sel2 }
                    &&& ctx_after == ctx2
                } else {
                    match dir_of(input) {
                        Some(dir) => {
                            let sel3 = navigated_selection(sel2, available, ctx.hot, dir);
                            &&& sel_after == sel3
                            &&& ctx_after == (Context {
                                next_hot: nav_hot(navigated_index(sel2.card, available, ctx.hot, dir), sel3.card),
                                ..ctx2
                            })
                        },
                        None => sel_after == sel2 && ctx_after == ctx2,
                    }
                }
            }
        }
    })
}

/// One frame of the menu in which the player picks an anytime zinger to play,
/// and what it is played against. `available` is what the player's hand offers,
/// at the positions it gives (see `menu_ready`); `pick` is meant to be drawn at
/// random from the positions of the target's hand, for the card that the game
/// warden or the glass bottom boat takes.
///
/// The selection is first moved onto what `available` offers, and the section
/// that starts hot is marked for next frame. While a card taken by the glass
/// bottom boat is being viewed, the submit button closes the view. Otherwise a
/// press of submit plays the card, B declines to play, and a direction moves
/// around the menu.
#[verifier::spinoff_prover]
#[verifier::rlimit(60)]
pub fn play_anytime_menu(
    ctx: &mut Context,
    input: Input,
    speaker: &mut Speaker,
    cards: &mut Cards,
    animations: &mut Animations,
    stack: &mut Vec<Play>,
    selection: &mut PlayerSelection,
    available: AvailablePlayAnytime,
    pick: CardIndex,
) -> (res: AnytimeOutcome)
    requires
        old(cards).well_formed(),
        old(selection).viewing is None ==> menu_ready(*old(cards), available),
        old(cards).hand_spec(HandId::from_cpu_spec(old(selection).target)).len() > 0 ==> pick < old(
            cards,
        ).hand_spec(HandId::from_cpu_spec(old(selection).target)).len(),
    ensures
        menu_frame(
            *old(ctx),
            *final(ctx),
            input,
            old(speaker)@,
            final(speaker)@,
            *old(cards),
            *final(cards),
            old(animations).slots(),
            final(animations).slots(),
            old(stack)@,
            final(stack)@,
            *old(selection),
            *final(selection),
            available,
            pick,
            res,
        ),
{
    proof {
        if selection.viewing is None {
            lemma_divine_targets_ready(*cards, available);
        }
        lemma_offered_card_in_flags(selection.card, available.flags);
    }
    let ghost old_card = selection.card;
    clamp_selection(selection, &available);
    let hot = ctx.hot;
    let start = start_index_of(selection.card, hot, &available);
    ctx.set_next_hot(start_hot_of(start, selection.card));
    if selection.viewing.is_some() {
        ctx.set_next_hot(Id::Submit);
        if button_press(ctx, input, speaker, Id::Submit) {
            selection.viewing = None;
            return AnytimeOutcome::Done;
        } else {
            return AnytimeOutcome::Hold;
        }
    }
    match available.flags {
        PlayAnytimeFlags::GW => {
            selection.card = AnytimeCard::GameWarden;
        },
        PlayAnytimeFlags::GBB => {
            selection.card = AnytimeCard::GlassBottomBoat;
        },
        PlayAnytimeFlags::DSD => {
            selection.card = AnytimeCard::DeadScubaDiver;
        },
        PlayAnytimeFlags::DI => {
            selection.card = AnytimeCard::DivineIntervention;
        },
        _ => {},
    }
    assert(selection.card == offered_card(old_card, available.flags));
    let target = HandId::from(selection.target);
    let r = selection.rank.to_u8();
    proof {
        selection.rank.lemma_index();
    }
    let enabled = !cards.hand(target).is_empty() && (selection.card != AnytimeCard::DeadScubaDiver
        || available.almost_complete_baskets[r as usize].is_some());
    let submit = if enabled {
        button_press(ctx, input, speaker, Id::Submit)
    } else {
        false
    };
    if submit {
        return submit_play(cards, animations, stack, selection, &available, pick);
    } else if input.pressed_this_frame(Button::B()) {
        selection.declined = true;
    } else {
        match input.dir_pressed_this_frame() {
            Some(dir) => {
                navigate(ctx, selection, &available, dir);
            },
            None => {},
        }
    }
    AnytimeOutcome::Hold
}

/// What the player's hand offers now, given the plays on the stack, as
/// `AvailablePlayAnytime::in_player_hand` finds it.
pub open spec fn offered_now(cards: Cards, stack: Seq<Play>) -> Option<ApaView> {
    apa_upto(cards.player@, cards.player@.len() as int, cards.discard@.len() > 0, acb_of(cards.player@), stack_targets(stack))
}

impl State {
    /// The player's chance to respond to a play. Where the player's hand offers
    /// an anytime zinger and the player has not declined, this is a frame of
    /// the anytime menu (see `play_anytime_menu`, with `pick`), and its outcome
    /// is returned: `Done` once a zinger is played, `Hold` while the menu stays
    /// open. Otherwise the chance passes to the next responder and `None` is
    /// returned.
    pub fn player_respond(&mut self, input: Input, speaker: &mut Speaker, pick: CardIndex) -> (res: Option<
        AnytimeOutcome,
    >)
        requires
            old(self).well_formed(),
            old(self).cards.well_formed(),
            no_full_basket(old(self).cards.player@),
            responder_spec(*old(self)) == Some(HandId::Player),
            ({
                let target = HandId::from_cpu_spec(old(self).selection.player_selection.target);
                old(self).cards.hand_spec(target).len() > 0 ==> pick < old(self).cards.hand_spec(target).len()
            }),
        ensures
            final(self).well_formed(),
            final(self).memories == old(self).memories,
            final(self).turn_id == old(self).turn_id,
            final(self).sub_turn_ids == old(self).sub_turn_ids,
            final(self).cpu_menu == old(self).cpu_menu,
            final(self).selection.card_index == old(self).selection.card_index,
            final(self).selection.player_menu == old(self).selection.player_menu,
            if old(self).cards.player@.len() == 0 || offered_now(old(self).cards, old(self).stack@) is None
                || old(self).selection.player_selection.declined {
                &&& res is None
                &&& final(self).cards == old(self).cards
                &&& final(self).animations == old(self).animations
                &&& final(self).ctx == old(self).ctx
                &&& final(self).selection.player_selection == old(self).selection.player_selection
                &&& final(speaker)@ == old(speaker)@
                &&& final(self).stack@.len() == old(self).stack@.len()
                &&& old(self).stack@.len() > 0 ==> final(self).stack@ == old(self).stack@.update(
                    old(self).stack@.len() - 1,
                    Play {
                        sub_turn_index: (old(self).stack@.last().sub_turn_index + 1) as u8,
                        ..old(self).stack@.last()
                    },
                ) && final(self).sub_turn_index == old(self).sub_turn_index
                &&& old(self).stack@.len() == 0 ==> final(self).sub_turn_index == old(self).sub_turn_index + 1
            } else {
                &&& final(self).sub_turn_index == old(self).sub_turn_index
                &&& res matches Some(outcome) && exists|available: AvailablePlayAnytime|
                    Some(#[trigger] available.view_spec()) == offered_now(old(self).cards, old(self).stack@)
                        && menu_frame(
                        old(self).ctx,
                        final(self).ctx,
                        input,
                        old(speaker)@,
                        final(speaker)@,
                        old(self).cards,
                        final(self).cards,
                        old(self).animations.slots(),
                        final(self).animations.slots(),
                        old(self).stack@,
                        final(self).stack@,
                        old(self).selection.player_selection,
                        final(self).selection.player_selection,
                        available,
                        pick,
                        outcome,
                    )
            },
    {
        proof {
            lemma_two_pushes_keep_slots(self.animations.slots());
        }
        if self.cards.player.is_empty() || self.selection.player_selection.declined {
            self.pass_response();
            return None;
        }
        match AvailablePlayAnytime::in_player_hand(&self.cards, self.stack.as_slice()) {
            Some(available) => {
                proof {
                    lemma_offered_is_ready(self.cards, self.stack@, available);
                }
                let outcome = play_anytime_menu(
                    &mut self.ctx,
                    input,
                    speaker,
                    &mut self.cards,
                    &mut self.animations,
                    &mut self.stack,
                    &mut self.selection.player_selection,
                    available,
                    pick,
                );
                Some(outcome)
            },
            None => {
                self.pass_response();
                None
            },
        }
    }

    /// A frame of the anytime menu that the player opened in their own turn by
    /// selecting an anytime zinger: declining, or playing the zinger (which
    /// does not use up the turn), goes back to the root of the menu; otherwise
    /// the menu stays open with the selection as the frame left it.
    pub fn player_anytime_turn(&mut self, input: Input, speaker: &mut Speaker, pick: CardIndex) -> (res:
        AnytimeOutcome)
        requires
            old(self).well_formed(),
            old(self).cards.well_formed(),
            old(self).selection.player_menu matches PlayerMenu::Selecting {
                sub_menu: PlayerSelectingSubMenu::Anytime(sel, available),
            } && (!sel.declined && sel.viewing is None ==> menu_ready(old(self).cards, available)) && (old(self).cards.hand_spec(HandId::from_cpu_spec(sel.target)).len()
                > 0 ==> pick < old(self).cards.hand_spec(HandId::from_cpu_spec(sel.target)).len()),
        ensures
            final(self).well_formed(),
            final(self).memories == old(self).memories,
            final(self).turn_id == old(self).turn_id,
            final(self).sub_turn_ids == old(self).sub_turn_ids,
            final(self).sub_turn_index == old(self).sub_turn_index,
            final(self).cpu_menu == old(self).cpu_menu,
            final(self).selection.card_index == old(self).selection.card_index,
            final(self).selection.player_selection == old(self).selection.player_selection,
            match old(self).selection.player_menu {
                PlayerMenu::Selecting { sub_menu: PlayerSelectingSubMenu::Anytime(sel, available) } => if sel.declined {
                    &&& res == AnytimeOutcome::Done
                    &&& final(self).selection.player_menu == PlayerMenu::Selecting {
                        sub_menu: PlayerSelectingSubMenu::Root,
                    }
                    &&& final(self).cards == old(self).cards
                    &&& final(self).animations == old(self).animations
                    &&& final(self).stack == old(self).stack
                    &&& final(self).ctx == old(self).ctx
                    &&& final(speaker)@ == old(speaker)@
                } else {
                    exists|sel_after: PlayerSelection|
                        #[trigger] menu_frame(
                            old(self).ctx,
                            final(self).ctx,
                            input,
                            old(speaker)@,
                            final(speaker)@,
                            old(self).cards,
                            final(self).cards,
                            old(self).animations.slots(),
                            final(self).animations.slots(),
                            old(self).stack@,
                            final(self).stack@,
                            sel,
                            sel_after,
                            available,
                            pick,
                            res,
                        ) && final(self).selection.player_menu == if res == AnytimeOutcome::Done {
                            PlayerMenu::Selecting { sub_menu: PlayerSelectingSubMenu::Root }
                        } else {
                            PlayerMenu::Selecting { sub_menu: PlayerSelectingSubMenu::Anytime(sel_after, available) }
                        }
                },
                _ => false,
            },
    {
        proof {
            lemma_two_pushes_keep_slots(self.animations.slots());
        }
        let (mut sel, available) = match &self.selection.player_menu {
            PlayerMenu::Selecting { sub_menu: PlayerSelectingSubMenu::Anytime(sel, available) } => (*sel, *available),
            _ => {
                assert(false);
                return AnytimeOutcome::Done;
            },
        };
        if sel.declined {
            self.selection.player_menu = PlayerMenu::Selecting { sub_menu: PlayerSelectingSubMenu::Root };
            return AnytimeOutcome::Done;
        }
        let ghost sel_before = sel;
        let outcome = play_anytime_menu(
            &mut self.ctx,
            input,
            speaker,
            &mut self.cards,
            &mut self.animations,
            &mut self.stack,
            &mut sel,
            available,
            pick,
        );
        match outcome {
            AnytimeOutcome::Done => {
                self.selection.player_menu = PlayerMenu::Selecting { sub_menu: PlayerSelectingSubMenu::Root };
            },
            AnytimeOutcome::Hold => {
                self.selection.player_menu = PlayerMenu::Selecting {
                    sub_menu: PlayerSelectingSubMenu::Anytime(sel, available),
                };
            },
        }
        assert(menu_frame(
            old(self).ctx,
            self.ctx,
            input,
            old(speaker)@,
            speaker@,
            old(self).cards,
            self.cards,
            old(self).animations.slots(),
            self.animations.slots(),
            old(self).stack@,
            self.stack@,
            sel_before,
            sel,
            available,
            pick,
            outcome,
        ));
        outcome
    }
}

} // verus!
