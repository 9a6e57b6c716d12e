//! Playing zingers: discarding them and carrying out what they do.
use vstd::prelude::*;
use crate::game::animation::{first_free_from, AfterDiscard, Animation, AnimationAction, Animations};
use crate::game::anytime::DivineTarget;
use crate::game::cards::{lemma_pile_le_total, lemma_total_by_piles, Cards, FullHandId};
use crate::game::layout::{card_position_spec, deck_xy, discard_xy, get_card_position, spread, spread_spec};
use crate::game::play::{Play, PlayKind};
use crate::game::question::Question;
use crate::models::{
    AlmostCompleteBasket, Card, CardIndex, CardInner, Hand, HandId, LurePredicate, NetPredicate,
    Predicate, Targeting, DECK_SIZE, DIVINE_INTERVENTION, GLASS_BOTTOM_BOAT, NO_FISHING,
    THE_GAME_WARDEN, THE_LURE, THE_NET, TWO_FISTED_FISHERMAN,
};
use crate::platform_types::unscaled::XY;

verus! {

/// The position of the first `card` in `cards`, from position `i` on.
pub open spec fn first_index_from(cards: Seq<Card>, card: Card, i: int) -> int
    decreases cards.len() - i,
{
    if i < 0 || i >= cards.len() {
        cards.len() as int
    } else if cards[i] == card {
        i
    } else {
        first_index_from(cards, card, i + 1)
    }
}

pub open spec fn first_index(cards: Seq<Card>, card: Card) -> int {
    first_index_from(cards, card, 0)
}

pub proof fn lemma_first_index(cards: Seq<Card>, card: Card, i: int)
    requires
        0 <= i <= cards.len(),
        exists|j: int| i <= j < cards.len() && cards[j] == card,
    ensures
        i <= first_index_from(cards, card, i) < cards.len(),
        cards[first_index_from(cards, card, i)] == card,
    decreases cards.len() - i,
{
    if cards[i] != card {
        lemma_first_index(cards, card, i + 1);
    }
}

/// The animation of a card leaving position `i` of the hand of `source`, which
/// then holds `len` cards, for the discard pile.
pub open spec fn discard_animation(source: HandId, len: int, i: int, card: Card, after: AfterDiscard) -> Animation {
    Animation {
        delay: 0,
        card,
        at: card_position_spec(spread_spec(source), len, i),
        target: XY { x: crate::platform_types::unscaled::X(127), y: crate::platform_types::unscaled::Y(107) },
        action: AnimationAction::AddToDiscard(after),
        shown: true,
    }
}

/// The animations after starting `anim` in the first free slot, if any.
pub open spec fn push_spec(before: Seq<Animation>, anim: Animation) -> Seq<Animation> {
    match first_free_from(before, 0) {
        Some(i) => before.update(i, anim),
        None => before,
    }
}

/// Whether `after` is `before` with `anim` started.
pub open spec fn pushed(before: Seq<Animation>, after: Seq<Animation>, anim: Animation) -> bool {
    after == push_spec(before, anim)
}

/// Sends the first `card` in the hand of `source` to the discard pile, to do
/// `after_discard` when it lands.
pub fn discard_given_card(
    cards: &mut Cards,
    animations: &mut Animations,
    source: HandId,
    card: Card,
    after_discard: AfterDiscard,
)
    requires
        old(cards).hand_spec(source).contains(card),
    ensures
        ({
            let hand = old(cards).hand_spec(source);
            let i = first_index(hand, card);
            &&& final(cards).hand_spec(source) == hand.remove(i)
            &&& final(cards).same_but_hand(*old(cards), source)
            &&& pushed(
                old(animations).slots(),
                final(animations).slots(),
                discard_animation(source, hand.len() - 1, i, card, after_discard),
            )
        }),
{
    let ghost hand0 = cards.hand_spec(source);
    let _n = cards.hand(source).len();
    let cards_in_hand = cards.hand(source).enumerated_iter();
    let mut remove_at: usize = 0;
    proof {
        lemma_first_index(hand0, card, 0);
    }
    while remove_at < cards_in_hand.len()
        invariant
            remove_at <= cards_in_hand@.len(),
            cards_in_hand@.len() == hand0.len(),
            forall|j: int| 0 <= j < cards_in_hand@.len() ==> #[trigger] cards_in_hand@[j] == (j as u8, hand0[j]),
            first_index_from(hand0, card, 0) == first_index_from(hand0, card, remove_at as int),
            first_index_from(hand0, card, 0) < hand0.len(),
            hand0.len() <= DECK_SIZE,
        ensures
            remove_at == first_index_from(hand0, card, 0),
        decreases cards_in_hand@.len() - remove_at,
    {
        let (_, current) = cards_in_hand[remove_at];
        if current == card {
            break;
        }
        remove_at = remove_at + 1;
    }
    let i = remove_at as u8;
    let hand = cards.hand_mut(source);
    match hand.remove(i) {
        Some(removed) => {
            let at = get_card_position(spread(source), hand.len(), i);
            animations.push(
                Animation {
                    delay: 0,
                    card: removed,
                    at,
                    target: discard_xy(),
                    action: AnimationAction::AddToDiscard(after_discard),
                    shown: true,
                },
            );
        },
        None => {
            proof {
                assert(false);
            }
        },
    }
}

pub fn discard_game_warden(cards: &mut Cards, animations: &mut Animations, source: HandId)
    requires
        old(cards).hand_spec(source).contains(THE_GAME_WARDEN),
    ensures
        ({
            let hand = old(cards).hand_spec(source);
            let i = first_index(hand, THE_GAME_WARDEN);
            &&& final(cards).hand_spec(source) == hand.remove(i)
            &&& final(cards).same_but_hand(*old(cards), source)
            &&& pushed(
                old(animations).slots(),
                final(animations).slots(),
                discard_animation(source, hand.len() - 1, i, THE_GAME_WARDEN, AfterDiscard::Nothing),
            )
        }),
{
    discard_given_card(cards, animations, source, THE_GAME_WARDEN, AfterDiscard::Nothing)
}

pub fn discard_glass_bottom_boat(cards: &mut Cards, animations: &mut Animations, source: HandId)
    requires
        old(cards).hand_spec(source).contains(GLASS_BOTTOM_BOAT),
    ensures
        ({
            let hand = old(cards).hand_spec(source);
            let i = first_index(hand, GLASS_BOTTOM_BOAT);
            &&& final(cards).hand_spec(source) == hand.remove(i)
            &&& final(cards).same_but_hand(*old(cards), source)
            &&& pushed(
                old(animations).slots(),
                final(animations).slots(),
                discard_animation(source, hand.len() - 1, i, GLASS_BOTTOM_BOAT, AfterDiscard::Nothing),
            )
        }),
{
    discard_given_card(cards, animations, source, GLASS_BOTTOM_BOAT, AfterDiscard::Nothing)
}

/// Discards divine intervention, when it is played and when it is discarded on
/// its own.
pub fn discard_divine_intervention(cards: &mut Cards, animations: &mut Animations, source: HandId)
    requires
        old(cards).hand_spec(source).contains(DIVINE_INTERVENTION),
    ensures
        ({
            let hand = old(cards).hand_spec(source);
            let i = first_index(hand, DIVINE_INTERVENTION);
            &&& final(cards).hand_spec(source) == hand.remove(i)
            &&& final(cards).same_but_hand(*old(cards), source)
            &&& pushed(
                old(animations).slots(),
                final(animations).slots(),
                discard_animation(source, hand.len() - 1, i, DIVINE_INTERVENTION, AfterDiscard::Nothing),
            )
        }),
{
    discard_given_card(cards, animations, source, DIVINE_INTERVENTION, AfterDiscard::Nothing)
}

pub fn discard_two_fisted_fisherman(cards: &mut Cards, animations: &mut Animations, source: HandId)
    requires
        old(cards).hand_spec(source).contains(TWO_FISTED_FISHERMAN),
    ensures
        ({
            let hand = old(cards).hand_spec(source);
            let i = first_index(hand, TWO_FISTED_FISHERMAN);
            &&& final(cards).hand_spec(source) == hand.remove(i)
            &&& final(cards).same_but_hand(*old(cards), source)
            &&& pushed(
                old(animations).slots(),
                final(animations).slots(),
                discard_animation(
                    source,
                    hand.len() - 1,
                    i,
                    TWO_FISTED_FISHERMAN,
                    AfterDiscard::BackToSelecting(source),
                ),
            )
        }),
{
    discard_given_card(
        cards,
        animations,
        source,
        TWO_FISTED_FISHERMAN,
        AfterDiscard::BackToSelecting(source),
    )
}

fn play_for(targeting: Targeting, kind: PlayKind) -> (res: Play)
    ensures
        res.sub_turn_ids@ == targeting.source.besides_spec().push(targeting.source),
        res.sub_turn_index == 0,
        res.kind == kind,
{
    Play { sub_turn_ids: targeting.source.next_to_current(), sub_turn_index: 0, kind }
}

/// Discards no fishing in answer to the question of `targeting` for cards that
/// `predicate` matches; once it lands the play goes on the stack.
pub fn discard_no_fishing(cards: &mut Cards, animations: &mut Animations, targeting: Targeting, predicate: Predicate)
    requires
        old(cards).hand_spec(targeting.source).contains(NO_FISHING),
    ensures
        ({
            let hand = old(cards).hand_spec(targeting.source);
            let i = first_index(hand, NO_FISHING);
            &&& final(cards).hand_spec(targeting.source) == hand.remove(i)
            &&& final(cards).same_but_hand(*old(cards), targeting.source)
            &&& exists|play: Play|
                #![trigger discard_animation(targeting.source, hand.len() - 1, i, NO_FISHING, AfterDiscard::PushPlay(play))]
                play.sub_turn_ids@ == targeting.source.besides_spec().push(targeting.source)
                    && play.sub_turn_index == 0 && (play.kind matches PlayKind::NoFishing { question }
                    && question.targeting == targeting && question.predicate == predicate)
                    && pushed(
                    old(animations).slots(),
                    final(animations).slots(),
                    discard_animation(
                        targeting.source,
                        hand.len() - 1,
                        i,
                        NO_FISHING,
                        AfterDiscard::PushPlay(play),
                    ),
                )
        }),
{
    let play = play_for(
        targeting,
        PlayKind::NoFishing { question: Question::new(targeting, predicate) },
    );
    let ghost g = play;
    discard_given_card(cards, animations, targeting.source, NO_FISHING, AfterDiscard::PushPlay(play));
    assert(g.sub_turn_ids@ == targeting.source.besides_spec().push(targeting.source));
}

/// Discards the lure, aimed by `targeting` at the card `predicate` names; once it
/// lands the play goes on the stack.
pub fn discard_lure(cards: &mut Cards, animations: &mut Animations, targeting: Targeting, predicate: LurePredicate)
    requires
        old(cards).hand_spec(targeting.source).contains(THE_LURE),
    ensures
        ({
            let hand = old(cards).hand_spec(targeting.source);
            let i = first_index(hand, THE_LURE);
            &&& final(cards).hand_spec(targeting.source) == hand.remove(i)
            &&& final(cards).same_but_hand(*old(cards), targeting.source)
            &&& exists|play: Play|
                #![trigger discard_animation(targeting.source, hand.len() - 1, i, THE_LURE, AfterDiscard::PushPlay(play))]
                play.sub_turn_ids@ == targeting.source.besides_spec().push(targeting.source)
                    && play.sub_turn_index == 0 && play.kind == (PlayKind::TheLure { targeting, predicate })
                    && pushed(
                    old(animations).slots(),
                    final(animations).slots(),
                    discard_animation(
                        targeting.source,
                        hand.len() - 1,
                        i,
                        THE_LURE,
                        AfterDiscard::PushPlay(play),
                    ),
                )
        }),
{
    let play = play_for(targeting, PlayKind::TheLure { targeting, predicate });
    discard_given_card(cards, animations, targeting.source, THE_LURE, AfterDiscard::PushPlay(play));
}

/// Discards the net, aimed by `targeting` at the cards `predicate` names; once it
/// lands the play goes on the stack.
pub fn discard_net(cards: &mut Cards, animations: &mut Animations, targeting: Targeting, predicate: NetPredicate)
    requires
        old(cards).hand_spec(targeting.source).contains(THE_NET),
    ensures
        ({
            let hand = old(cards).hand_spec(targeting.source);
            let i = first_index(hand, THE_NET);
            &&& final(cards).hand_spec(targeting.source) == hand.remove(i)
            &&& final(cards).same_but_hand(*old(cards), targeting.source)
            &&& exists|play: Play|
                #![trigger discard_animation(targeting.source, hand.len() - 1, i, THE_NET, AfterDiscard::PushPlay(play))]
                play.sub_turn_ids@ == targeting.source.besides_spec().push(targeting.source)
                    && play.sub_turn_index == 0 && play.kind == (PlayKind::TheNet { targeting, predicate })
                    && pushed(
                    old(animations).slots(),
                    final(animations).slots(),
                    discard_animation(
                        targeting.source,
                        hand.len() - 1,
                        i,
                        THE_NET,
                        AfterDiscard::PushPlay(play),
                    ),
                )
        }),
{
    let play = play_for(targeting, PlayKind::TheNet { targeting, predicate });
    discard_given_card(cards, animations, targeting.source, THE_NET, AfterDiscard::PushPlay(play));
}

/// The play with a two-fisted fisherman marked cancelled; any other play as it is.
pub open spec fn cancel_two_fisted(play: Play) -> Play {
    match play.kind {
        PlayKind::TwoFistedFisherman { source, .. } => Play {
            sub_turn_ids: play.sub_turn_ids,
            sub_turn_index: play.sub_turn_index,
            kind: PlayKind::TwoFistedFisherman { source, cancelled: true },
        },
        _ => play,
    }
}

/// Whether `play` is of the kind that `target` names.
pub open spec fn is_targeted(play: Play, target: DivineTarget) -> bool {
    match target {
        DivineTarget::NoFishing => play.kind is NoFishing,
        DivineTarget::TwoFistedFisherman => play.kind is TwoFistedFisherman,
        DivineTarget::TheNet => play.kind is TheNet,
        DivineTarget::TheLure => play.kind is TheLure,
    }
}

/// The plays of `stack` of the kind that `target` names, in order.
pub open spec fn retained(stack: Seq<Play>, target: DivineTarget) -> Seq<Play>
    decreases stack.len(),
{
    if stack.len() == 0 {
        Seq::empty()
    } else {
        let rest = retained(stack.skip(1), target);
        if is_targeted(stack[0], target) {
            seq![stack[0]] + rest
        } else {
            rest
        }
    }
}

fn targets_play(play: &Play, target: DivineTarget) -> (res: bool)
    ensures
        res == is_targeted(*play, target),
{
    match target {
        DivineTarget::NoFishing => match play.kind {
            PlayKind::NoFishing { .. } => true,
            _ => false,
        },
        DivineTarget::TwoFistedFisherman => match play.kind {
            PlayKind::TwoFistedFisherman { .. } => true,
            _ => false,
        },
        DivineTarget::TheNet => match play.kind {
            PlayKind::TheNet { .. } => true,
            _ => false,
        },
        DivineTarget::TheLure => match play.kind {
            PlayKind::TheLure { .. } => true,
            _ => false,
        },
    }
}

/// Plays divine intervention from the hand of `source` against `divine_target`:
/// it is discarded; against the two-fisted fisherman every such play is marked
/// cancelled, and otherwise the stack keeps just the plays of the targeted kind.
pub fn play_divine_intervention(
    cards: &mut Cards,
    animations: &mut Animations,
    stack: &mut Vec<Play>,
    source: HandId,
    divine_target: DivineTarget,
)
    requires
        old(cards).hand_spec(source).contains(DIVINE_INTERVENTION),
    ensures
        ({
            let hand = old(cards).hand_spec(source);
            let i = first_index(hand, DIVINE_INTERVENTION);
            &&& final(cards).hand_spec(source) == hand.remove(i)
            &&& final(cards).same_but_hand(*old(cards), source)
            &&& pushed(
                old(animations).slots(),
                final(animations).slots(),
                discard_animation(source, hand.len() - 1, i, DIVINE_INTERVENTION, AfterDiscard::Nothing),
            )
        }),
        divine_target == DivineTarget::TwoFistedFisherman ==> final(stack)@ == old(stack)@.map_values(
            |p: Play| cancel_two_fisted(p),
        ),
        divine_target != DivineTarget::TwoFistedFisherman ==> final(stack)@ == retained(
            old(stack)@,
            divine_target,
        ),
{
    discard_divine_intervention(cards, animations, source);
    if divine_target == DivineTarget::TwoFistedFisherman {
        let mut i: usize = 0;
        while i < stack.len()
            invariant
                i <= stack@.len(),
                stack@.len() == old(stack)@.len(),
                forall|j: int| 0 <= j < i ==> #[trigger] stack@[j] == cancel_two_fisted(old(stack)@[j]),
                forall|j: int| i <= j < stack@.len() ==> #[trigger] stack@[j] == old(stack)@[j],
            decreases stack@.len() - i,
        {
            let replacement = match stack[i].kind {
                PlayKind::TwoFistedFisherman { source, .. } => Some(
                    Play {
                        sub_turn_ids: stack[i].sub_turn_ids,
                        sub_turn_index: stack[i].sub_turn_index,
                        kind: PlayKind::TwoFistedFisherman { source, cancelled: true },
                    },
                ),
                _ => None,
            };
            match replacement {
                Some(play) => {
                    stack.set(i, play);
                },
                None => {},
            }
            i = i + 1;
        }
        assert(stack@ =~= old(stack)@.map_values(|p: Play| cancel_two_fisted(p)));
    } else {
        let mut i: usize = stack.len();
        while i > 0
            invariant
                i <= old(stack)@.len(),
                stack@ == old(stack)@.take(i as int) + retained(old(stack)@.skip(i as int), divine_target),
            decreases i,
        {
            let ghost rest = old(stack)@.skip(i as int);
            assert(old(stack)@.skip(i - 1) =~= seq![old(stack)@[i - 1]] + rest);
            assert(old(stack)@.skip(i - 1).skip(1) =~= rest);
            if !targets_play(&stack[i - 1], divine_target) {
                let _ = stack.remove(i - 1);
                assert(stack@ =~= old(stack)@.take(i - 1) + retained(old(stack)@.skip(i - 1), divine_target));
            } else {
                assert(stack@ =~= old(stack)@.take(i - 1) + retained(old(stack)@.skip(i - 1), divine_target));
            }
            i = i - 1;
        }
        assert(old(stack)@.skip(0) =~= old(stack)@);
        assert(stack@ =~= retained(old(stack)@, divine_target));
    }
}

/// The first pile, in the order of `FullHandId::ALL` from position `k` on, that
/// holds `card`.
pub open spec fn first_pile_from(cards: Cards, card: Card, k: int) -> Option<FullHandId>
    decreases 10 - k,
{
    if k < 0 || k >= 10 {
        None
    } else if FullHandId::from_index(k).pile(cards).contains(card) {
        Some(FullHandId::from_index(k))
    } else {
        first_pile_from(cards, card, k + 1)
    }
}

/// The position of the first `card` in `hand`, if it holds one.
fn position_in(hand: &Hand, card: Card) -> (res: Option<CardIndex>)
    ensures
        match res {
            Some(i) => hand@.contains(card) && i == first_index(hand@, card),
            None => !hand@.contains(card),
        },
{
    let entries = hand.iter();
    let mut i: usize = 0;
    while i < entries.len()
        invariant
            i <= entries@.len(),
            entries@ == hand@,
            entries@.len() <= DECK_SIZE,
            forall|j: int| 0 <= j < i ==> entries@[j] != card,
            first_index_from(hand@, card, 0) == first_index_from(hand@, card, i as int),
        decreases entries@.len() - i,
    {
        if entries[i] == card {
            assert(hand@[i as int] == card);
            return Some(i as u8);
        }
        i = i + 1;
    }
    assert forall|j: int| 0 <= j < hand@.len() implies hand@[j] != card by {
        assert(entries@[j] != card);
    }
    None
}

/// Moves `target_card` from the first pile that holds it to the top of the pile
/// `hand_id`, the pile's old top card going to its bottom.
pub fn force_into_start_of_hand(cards: &mut Cards, target_card: Card, hand_id: FullHandId)
    requires
        old(cards).well_formed(),
        first_pile_from(*old(cards), target_card, 0) is Some,
    ensures
        ({
            let from = first_pile_from(*old(cards), target_card, 0)->0;
            let removed = from.pile(*old(cards)).remove(first_index(from.pile(*old(cards)), target_card));
            let before_insert = if from == hand_id { removed } else { hand_id.pile(*old(cards)) };
            &&& hand_id.pile(*final(cards)) == if before_insert.len() == 0 {
                seq![target_card]
            } else {
                seq![target_card] + before_insert.subrange(1, before_insert.len() as int) + seq![before_insert[0]]
            }
            &&& from != hand_id ==> from.pile(*final(cards)) == removed
            &&& forall|other: FullHandId| other != from && other != hand_id ==> #[trigger] other.pile(*final(cards)) == other.pile(*old(cards))
        }),
{
    let mut k: usize = 0;
    while k < 10
        invariant
            k <= 10,
            first_pile_from(*cards, target_card, 0) == first_pile_from(*cards, target_card, k as int),
            first_pile_from(*cards, target_card, 0) is Some,
            cards.well_formed(),
            *cards == *old(cards),
        decreases 10 - k,
    {
        let from = FullHandId::ALL[k];
        match position_in(from.to_hand(cards), target_card) {
            Some(i) => {
                let ghost old_cards = *cards;
                proof {
                    lemma_first_index(from.pile(old_cards), target_card, 0);
                }
                let card = from.to_hand_mut(cards).remove(i);
                match card {
                    Some(card) => {
                        let ghost mid = *cards;
                        proof {
                            assert(old_cards.total() == mid.total() + 1) by {
                                assert(forall|id: FullHandId| id != from ==> #[trigger] id.pile(mid) == id.pile(old_cards));
                                lemma_total_by_piles(old_cards);
                                lemma_total_by_piles(mid);
                            }
                            lemma_pile_le_total(mid, hand_id);
                        }
                        hand_id.to_hand_mut(cards).swap_insert_top(card);
                    },
                    None => {},
                }
                return;
            },
            None => {},
        }
        k = k + 1;
    }
}

/// The animation of the card the game warden takes from position `i` of a hand
/// of `len` cards back to the deck.
pub open spec fn warden_animation(target: HandId, len: int, i: int, card: Card) -> Animation {
    Animation {
        delay: 0,
        card,
        at: card_position_spec(spread_spec(target), len, i),
        target: XY { x: crate::platform_types::unscaled::X(203), y: crate::platform_types::unscaled::Y(107) },
        action: AnimationAction::PerformGameWarden,
        shown: false,
    }
}

/// The game warden played by `targeting.source` on `targeting.target`: the card
/// at `pick` in the target's hand goes back to the deck, and the warden to the
/// discard pile. `pick` is meant to be drawn at random from the hand's positions.
/// Does nothing where the target's hand is empty.
pub fn perform_game_warden(
    cards: &mut Cards,
    animations: &mut Animations,
    pick: CardIndex,
    targeting: Targeting,
) -> (res: Option<()>)
    requires
        old(cards).hand_spec(targeting.target).len() > 0 ==> pick < old(cards).hand_spec(
            targeting.target,
        ).len() && (if targeting.source == targeting.target {
            old(cards).hand_spec(targeting.target).remove(pick as int)
        } else {
            old(cards).hand_spec(targeting.source)
        }).contains(THE_GAME_WARDEN),
    ensures
        old(cards).hand_spec(targeting.target).len() == 0 ==> res is None && final(cards).same_piles(
            *old(cards),
        ) && final(animations).slots() == old(animations).slots(),
        old(cards).hand_spec(targeting.target).len() > 0 ==> ({
            let target_hand = old(cards).hand_spec(targeting.target);
            let taken = target_hand.remove(pick as int);
            let source_hand = if targeting.source == targeting.target {
                taken
            } else {
                old(cards).hand_spec(targeting.source)
            };
            let w = first_index(source_hand, THE_GAME_WARDEN);
            &&& res is Some
            &&& final(cards).hand_spec(targeting.source) == source_hand.remove(w)
            &&& targeting.source != targeting.target ==> final(cards).hand_spec(targeting.target) == taken
            &&& final(cards).same_but_hands(*old(cards), targeting.source, targeting.target)
            &&& final(animations).slots() == push_spec(
                push_spec(
                    old(animations).slots(),
                    warden_animation(targeting.target, target_hand.len() as int, pick as int, target_hand[pick as int]),
                ),
                discard_animation(targeting.source, source_hand.len() - 1, w, THE_GAME_WARDEN, AfterDiscard::Nothing),
            )
        }),
{
    if cards.hand(targeting.target).is_empty() {
        return None;
    }
    let ghost target_hand = cards.hand_spec(targeting.target);
    let hand = cards.hand_mut(targeting.target);
    let len = hand.len();
    let at = get_card_position(spread(targeting.target), len, pick);
    let taken = hand.remove(pick);
    match taken {
        Some(card) => {
            animations.push(
                Animation {
                    delay: 0,
                    card,
                    at,
                    target: deck_xy(),
                    action: AnimationAction::PerformGameWarden,
                    shown: false,
                },
            );
        },
        None => {
            proof {
                assert(false);
            }
            return None;
        },
    }
    let ghost mid = animations.slots();
    let ghost cur = *cards;
    assert(cur.hand_spec(targeting.target) == target_hand.remove(pick as int));
    assert(cur.same_but_hand(*old(cards), targeting.target));
    assert(pushed(old(animations).slots(), mid, warden_animation(targeting.target, target_hand.len() as int, pick as int, target_hand[pick as int])));
    proof {
        let source_hand = cur.hand_spec(targeting.source);
        assert(source_hand.contains(THE_GAME_WARDEN));
        lemma_first_index(source_hand, THE_GAME_WARDEN, 0);
    }
    discard_game_warden(cards, animations, targeting.source);
    proof {
        let source_hand = if targeting.source == targeting.target {
            target_hand.remove(pick as int)
        } else {
            old(cards).hand_spec(targeting.source)
        };
        assert(cur.hand_spec(targeting.source) == source_hand);
        let w = first_index(source_hand, THE_GAME_WARDEN);
        assert(pushed(mid, animations.slots(), discard_animation(targeting.source, source_hand.len() - 1, w, THE_GAME_WARDEN, AfterDiscard::Nothing)));
        assert(cards.same_but_hands(*old(cards), targeting.source, targeting.target));
        assert(cards.hand_spec(targeting.source) == source_hand.remove(w));
        if targeting.source != targeting.target {
            assert(cards.hand_spec(targeting.target) == target_hand.remove(pick as int));
        }
    }
    Some(())
}

/// Whether the five positions `pos` include `v`.
pub open spec fn lists(pos: Seq<CardIndex>, v: int) -> bool {
    pos[0] == v || pos[1] == v || pos[2] == v || pos[3] == v || pos[4] == v
}

/// The cards of `s` from position `i` on whose positions `pos` does not list, in
/// order.
pub open spec fn kept_after(s: Seq<Card>, pos: Seq<CardIndex>, i: int) -> Seq<Card>
    decreases s.len() - i,
{
    if i < 0 || i >= s.len() {
        Seq::empty()
    } else {
        (if lists(pos, i) { Seq::empty() } else { seq![s[i]] }) + kept_after(s, pos, i + 1)
    }
}

/// The cards of `s` from position `i` on whose positions `pos` lists, from the
/// highest position down.
pub open spec fn taken_after(s: Seq<Card>, pos: Seq<CardIndex>, i: int) -> Seq<Card>
    decreases s.len() - i,
{
    if i < 0 || i >= s.len() {
        Seq::empty()
    } else {
        taken_after(s, pos, i + 1) + if lists(pos, i) { seq![s[i]] } else { Seq::empty() }
    }
}

proof fn lemma_taken_after_len(s: Seq<Card>, pos: Seq<CardIndex>, i: int)
    requires
        0 <= i <= s.len(),
    ensures
        taken_after(s, pos, i).len() + kept_after(s, pos, i).len() == s.len() - i,
    decreases s.len() - i,
{
    if i < s.len() {
        lemma_taken_after_len(s, pos, i + 1);
    }
}

/// Moves the cards at the positions `pos` of `hand`, from the highest position
/// down, onto `baskets`.
fn move_positions(hand: &mut Hand, baskets: &mut Hand, pos: [CardIndex; 5])
    requires
        old(hand)@.len() + old(baskets)@.len() <= DECK_SIZE,
    ensures
        final(hand)@ == kept_after(old(hand)@, pos@, 0),
        final(baskets)@ == old(baskets)@ + taken_after(old(hand)@, pos@, 0),
{
    let ghost s = hand@;
    let mut i: usize = hand.len() as usize;
    proof {
        lemma_taken_after_len(s, pos@, i as int);
    }
    while i > 0
        invariant
            i <= s.len(),
            s.len() + old(baskets)@.len() <= DECK_SIZE,
            hand@ == s.take(i as int) + kept_after(s, pos@, i as int),
            baskets@ == old(baskets)@ + taken_after(s, pos@, i as int),
        decreases i,
    {
        proof {
            lemma_taken_after_len(s, pos@, i as int);
        }
        let j = i - 1;
        let found = pos[0] as usize == j || pos[1] as usize == j || pos[2] as usize == j
            || pos[3] as usize == j || pos[4] as usize == j;
        if found {
            let card = hand.remove(j as u8);
            match card {
                Some(card) => {
                    baskets.push(card);
                },
                None => {
                    proof {
                        assert(false);
                    }
                },
            }
            assert(hand@ =~= s.take(j as int) + kept_after(s, pos@, j as int));
        } else {
            assert(hand@ =~= s.take(j as int) + kept_after(s, pos@, j as int));
        }
        assert(baskets@ =~= old(baskets)@ + taken_after(s, pos@, j as int));
        i = j;
    }
    assert(s.take(0) =~= Seq::<Card>::empty());
    assert(hand@ =~= kept_after(s, pos@, 0));
}

/// The positions that the dead scuba diver takes out of a hand.
pub open spec fn scuba_positions(almost_basket: AlmostCompleteBasket, scuba_i: CardIndex) -> Seq<CardIndex> {
    seq![almost_basket@[0], almost_basket@[1], almost_basket@[2], almost_basket@[3], scuba_i]
}

/// The dead scuba diver played by `id`: the four cards of an almost complete
/// basket and the diver itself go from the hand to the player's baskets, from
/// the highest position down.
pub fn play_dead_scuba_diver(cards: &mut Cards, id: HandId, almost_basket: AlmostCompleteBasket, scuba_i: CardIndex)
    requires
        old(cards).well_formed(),
        ({
            let pos = scuba_positions(almost_basket, scuba_i);
            &&& forall|j: int, k: int| 0 <= j < k < 5 ==> pos[j] != pos[k]
            &&& forall|j: int| 0 <= j < 5 ==> #[trigger] pos[j] < old(cards).hand_spec(id).len()
        }),
    ensures
        final(cards).deck@ == old(cards).deck@,
        final(cards).discard@ == old(cards).discard@,
        forall|other: HandId| other != id ==> #[trigger] final(cards).hand_spec(other) == old(cards).hand_spec(other)
            && final(cards).baskets_spec(other) == old(cards).baskets_spec(other),
        final(cards).hand_spec(id) == kept_after(old(cards).hand_spec(id), scuba_positions(almost_basket, scuba_i), 0),
        final(cards).baskets_spec(id) == old(cards).baskets_spec(id) + taken_after(
            old(cards).hand_spec(id),
            scuba_positions(almost_basket, scuba_i),
            0,
        ),
{
    let to_remove = [almost_basket[0], almost_basket[1], almost_basket[2], almost_basket[3], scuba_i];
    assert(to_remove@ =~= scuba_positions(almost_basket, scuba_i));
    match id {
        HandId::Player => move_positions(&mut cards.player, &mut cards.player_baskets, to_remove),
        HandId::Cpu1 => move_positions(&mut cards.cpu1, &mut cards.cpu1_baskets, to_remove),
        HandId::Cpu2 => move_positions(&mut cards.cpu2, &mut cards.cpu2_baskets, to_remove),
        HandId::Cpu3 => move_positions(&mut cards.cpu3, &mut cards.cpu3_baskets, to_remove),
    }
}

} // verus!
