//! The player's menus for playing the net and the lure, which take a target
//! and a predicate, and the other windows of the player's turn.
use vstd::prelude::*;
use crate::game::animation::{lemma_first_free_in_range, AfterDiscard, Animation, AnimationAction};
use crate::game::cards::Cards;
use crate::game::play::{Play, PlayKind};
use crate::game::state::{
    pressed, PlayerAskingSubMenu, PlayerMenu, PlayerSelectingSubMenu, State, A_BITS, B_BITS, NO_SUB_TURN,
};
use crate::game::text::{bytes_reflow_in_place, reflow};
use crate::game::cpu_turn::lemma_matched_is_fish;
use crate::memories::Location;
use crate::game::player_turn::question_submitted;
use crate::game::question::Question;
use crate::game::layout::{card_position_spec, deck_xy, get_card_insert_position, spread, spread_spec};
use crate::game::ui::{button_press, button_press_spec, Context, Id};
use crate::game::zingers::{
    discard_animation, discard_divine_intervention, discard_lure, discard_net, discard_two_fisted_fisherman,
    first_index, push_spec, pushed,
};
use crate::game::anytime_menu::dir_of;
use crate::game::cpu_select::lemma_two_pushes_keep_slots;
use crate::models::{
    Card, CpuId, HandId, LurePredicate, NetPredicate, Predicate, Targeting, DIVINE_INTERVENTION, THE_LURE, THE_NET,
    TWO_FISTED_FISHERMAN,
};
use crate::platform_types::unscaled::{X, XY, Y};
use crate::platform_types::{Button, Dir, Input, Speaker, SFX};

verus! {

/// The section of a three-part menu (target, `middle`, submit) that the hot
/// widget is in; the target where none of them is hot.
pub open spec fn trio_index(hot: Id, middle: Id) -> int {
    if hot == Id::CpuIdSelect {
        0
    } else if hot == middle {
        1
    } else if hot == Id::Submit {
        2
    } else {
        0
    }
}

/// The section after `dir` is pressed in section `i`: left and right move one
/// section along, going round.
pub open spec fn trio_moved(i: int, dir: Dir) -> int {
    match dir {
        Dir::Left => if i == 0 {
            2
        } else {
            i - 1
        },
        Dir::Right => if i >= 2 {
            0
        } else {
            i + 1
        },
        _ => i,
    }
}

/// The widget of section `i` of a three-part menu.
pub open spec fn trio_hot(i: int, middle: Id) -> Id {
    if i == 0 {
        Id::CpuIdSelect
    } else if i == 1 {
        middle
    } else {
        Id::Submit
    }
}

fn trio_index_of(hot: Id, middle: Id) -> (res: usize)
    requires
        middle != Id::CpuIdSelect,
        middle != Id::Submit,
    ensures
        res == trio_index(hot, middle),
{
    if hot == Id::CpuIdSelect {
        0
    } else if hot == middle {
        1
    } else if hot == Id::Submit {
        2
    } else {
        0
    }
}

fn trio_moved_of(i: usize, dir: Dir) -> (res: usize)
    requires
        i <= 2,
    ensures
        res == trio_moved(i as int, dir),
        res <= 2,
{
    match dir {
        Dir::Left => if i == 0 {
            2
        } else {
            i - 1
        },
        Dir::Right => if i >= 2 {
            0
        } else {
            i + 1
        },
        _ => i,
    }
}

fn trio_hot_of(i: usize, middle: Id) -> (res: Id)
    ensures
        res == trio_hot(i as int, middle),
{
    if i == 0 {
        Id::CpuIdSelect
    } else if i == 1 {
        middle
    } else {
        Id::Submit
    }
}

/// `card` goes from the hand of `source` to the discard pile; when it lands, a
/// play of `kind` by `source` goes on the stack, for the others to respond to
/// in turn.
pub open spec fn discarded_for_play(
    cards: Cards,
    cards_after: Cards,
    slots: Seq<Animation>,
    slots_after: Seq<Animation>,
    source: HandId,
    card: Card,
    kind: PlayKind,
) -> bool {
    let hand = cards.hand_spec(source);
    let i = first_index(hand, card);
    &&& cards_after.hand_spec(source) == hand.remove(i)
    &&& cards_after.same_but_hand(cards, source)
    &&& exists|play: Play|
        #![trigger discard_animation(source, hand.len() - 1, i, card, AfterDiscard::PushPlay(play))]
        play.sub_turn_ids@ == source.besides_spec().push(source) && play.sub_turn_index == 0 && play.kind == kind
            && pushed(slots, slots_after, discard_animation(source, hand.len() - 1, i, card, AfterDiscard::PushPlay(play)))
}

/// Whether `state` and `after` agree but for the cards, the animations, the
/// context and the player's menu.
pub open spec fn same_but_menu_and_cards(state: State, after: State) -> bool {
    &&& after.memories == state.memories
    &&& after.has_started == state.has_started
    &&& after.selection.card_index == state.selection.card_index
    &&& after.selection.player_selection == state.selection.player_selection
    &&& after.turn_id == state.turn_id
    &&& after.sub_turn_ids == state.sub_turn_ids
    &&& after.sub_turn_index == state.sub_turn_index
    &&& after.stack == state.stack
    &&& after.cpu_menu == state.cpu_menu
    &&& after.done_something_this_turn == state.done_something_this_turn
    &&& after.paused == state.paused
}

/// The target after up (`up`) or down is pressed on it.
pub open spec fn stepped_target(target: CpuId, up: bool) -> CpuId {
    if up {
        target.next()
    } else {
        target.prev()
    }
}

impl State {
    /// A frame of the player's menu for the net, which asks a target for all
    /// the cards of a rank or of a suit. Submit plays the net against them
    /// (see `discarded_for_play`); B goes back to the selecting menu; up and
    /// down change the target or the predicate, whichever is hot, and left and
    /// right move between the target, the predicate and submit.
    pub fn player_net(&mut self, input: Input, speaker: &mut Speaker)
        requires
            old(self).well_formed(),
            old(self).selection.player_menu is Net,
            old(self).cards.player@.contains(THE_NET),
        ensures
            final(self).well_formed(),
            same_but_menu_and_cards(*old(self), *final(self)),
            match old(self).selection.player_menu {
                PlayerMenu::Net { target, predicate } => {
                    let (fired, ctx2, sound) = button_press_spec(old(self).ctx, input, Id::Submit);
                    &&& final(speaker)@ == if sound {
                        old(speaker)@.push(SFX::ButtonPress)
                    } else {
                        old(speaker)@
                    }
                    &&& if fired {
                        &&& final(self).ctx == ctx2
                        &&& final(self).selection.player_menu == old(self).selection.player_menu
                        &&& discarded_for_play(
                            old(self).cards,
                            final(self).cards,
                            old(self).animations.slots(),
                            final(self).animations.slots(),
                            HandId::Player,
                            THE_NET,
                            PlayKind::TheNet {
                                targeting: Targeting { source: HandId::Player, target: HandId::from_cpu_spec(target) },
                                predicate,
                            },
                        )
                    } else {
                        &&& final(self).cards == old(self).cards
                        &&& final(self).animations == old(self).animations
                        &&& if pressed(input, B_BITS) {
                            &&& final(self).ctx == ctx2
                            &&& final(self).selection.player_menu matches PlayerMenu::Selecting {
                                sub_menu: PlayerSelectingSubMenu::Root,
                            }
                        } else {
                            match dir_of(input) {
                                Some(dir) => {
                                    let i = trio_index(old(self).ctx.hot, Id::NetPredicate);
                                    &&& final(self).ctx == (Context {
                                        next_hot: trio_hot(trio_moved(i, dir), Id::NetPredicate),
                                        ..ctx2
                                    })
                                    &&& final(self).selection.player_menu matches PlayerMenu::Net {
                                        target: t,
                                        predicate: p,
                                    }
                                    &&& t == if i == 0 && dir == Dir::Up {
                                        target.next()
                                    } else if i == 0 && dir == Dir::Down {
                                        target.prev()
                                    } else {
                                        target
                                    }
                                    &&& p.index() == if i == 1 && dir == Dir::Up {
                                        (predicate.index() + 1) % 18
                                    } else if i == 1 && dir == Dir::Down {
                                        (predicate.index() + 17) % 18
                                    } else {
                                        predicate.index()
                                    }
                                },
                                None => final(self).ctx == ctx2 && final(self).selection.player_menu
                                    == old(self).selection.player_menu,
                            }
                        }
                    }
                },
                _ => false,
            },
    {
        proof {
            lemma_two_pushes_keep_slots(self.animations.slots());
        }
        let (mut target, mut predicate) = match &self.selection.player_menu {
            PlayerMenu::Net { target, predicate } => (*target, *predicate),
            _ => {
                assert(false);
                return;
            },
        };
        if button_press(&mut self.ctx, input, speaker, Id::Submit) {
            discard_net(
                &mut self.cards,
                &mut self.animations,
                Targeting { source: HandId::Player, target: HandId::from(target) },
                predicate,
            );
        } else if input.pressed_this_frame(Button::B()) {
            self.selection.player_menu = PlayerMenu::Selecting { sub_menu: PlayerSelectingSubMenu::Root };
        } else {
            match input.dir_pressed_this_frame() {
                Some(dir) => {
                    let i = trio_index_of(self.ctx.hot, Id::NetPredicate);
                    if i == 0 {
                        match dir {
                            Dir::Up => {
                                target = target.wrapping_inc();
                            },
                            Dir::Down => {
                                target = target.wrapping_dec();
                            },
                            _ => {},
                        }
                    } else if i == 1 {
                        match dir {
                            Dir::Up => predicate.wrapping_inc(),
                            Dir::Down => predicate.wrapping_dec(),
                            _ => {},
                        }
                    }
                    self.selection.player_menu = PlayerMenu::Net { target, predicate };
                    let moved = trio_moved_of(i, dir);
                    self.ctx.set_next_hot(trio_hot_of(moved, Id::NetPredicate));
                },
                None => {},
            }
        }
    }

    /// A frame of the player's menu for the lure, which asks a target for the
    /// card of a rank and a suit, as `player_net` does for the net.
    pub fn player_lure(&mut self, input: Input, speaker: &mut Speaker)
        requires
            old(self).well_formed(),
            old(self).selection.player_menu is Lure,
            old(self).cards.player@.contains(THE_LURE),
        ensures
            final(self).well_formed(),
            same_but_menu_and_cards(*old(self), *final(self)),
            match old(self).selection.player_menu {
                PlayerMenu::Lure { target, predicate } => {
                    let (fired, ctx2, sound) = button_press_spec(old(self).ctx, input, Id::Submit);
                    &&& final(speaker)@ == if sound {
                        old(speaker)@.push(SFX::ButtonPress)
                    } else {
                        old(speaker)@
                    }
                    &&& if fired {
                        &&& final(self).ctx == ctx2
                        &&& final(self).selection.player_menu == old(self).selection.player_menu
                        &&& discarded_for_play(
                            old(self).cards,
                            final(self).cards,
                            old(self).animations.slots(),
                            final(self).animations.slots(),
                            HandId::Player,
                            THE_LURE,
                            PlayKind::TheLure {
                                targeting: Targeting { source: HandId::Player, target: HandId::from_cpu_spec(target) },
                                predicate,
                            },
                        )
                    } else {
                        &&& final(self).cards == old(self).cards
                        &&& final(self).animations == old(self).animations
                        &&& if pressed(input, B_BITS) {
                            &&& final(self).ctx == ctx2
                            &&& final(self).selection.player_menu matches PlayerMenu::Selecting {
                                sub_menu: PlayerSelectingSubMenu::Root,
                            }
                        } else {
                            match dir_of(input) {
                                Some(dir) => {
                                    let i = trio_index(old(self).ctx.hot, Id::LurePredicate);
                                    &&& final(self).ctx == (Context {
                                        next_hot: trio_hot(trio_moved(i, dir), Id::LurePredicate),
                                        ..ctx2
                                    })
                                    &&& final(self).selection.player_menu matches PlayerMenu::Lure {
                                        target: t,
                                        predicate: p,
                                    }
                                    &&& t == if i == 0 && dir == Dir::Up {
                                        target.next()
                                    } else if i == 0 && dir == Dir::Down {
                                        target.prev()
                                    } else {
                                        target
                                    }
                                    &&& p.index() == if i == 1 && dir == Dir::Up {
                                        (predicate.index() + 1) % 65
                                    } else if i == 1 && dir == Dir::Down {
                                        (predicate.index() + 64) % 65
                                    } else {
                                        predicate.index()
                                    }
                                },
                                None => final(self).ctx == ctx2 && final(self).selection.player_menu
                                    == old(self).selection.player_menu,
                            }
                        }
                    }
                },
                _ => false,
            },
    {
        proof {
            lemma_two_pushes_keep_slots(self.animations.slots());
        }
        let (mut target, mut predicate) = match &self.selection.player_menu {
            PlayerMenu::Lure { target, predicate } => (*target, *predicate),
            _ => {
                assert(false);
                return;
            },
        };
        if button_press(&mut self.ctx, input, speaker, Id::Submit) {
            discard_lure(
                &mut self.cards,
                &mut self.animations,
                Targeting { source: HandId::Player, target: HandId::from(target) },
                predicate,
            );
        } else if input.pressed_this_frame(Button::B()) {
            self.selection.player_menu = PlayerMenu::Selecting { sub_menu: PlayerSelectingSubMenu::Root };
        } else {
            match input.dir_pressed_this_frame() {
                Some(dir) => {
                    let i = trio_index_of(self.ctx.hot, Id::LurePredicate);
                    if i == 0 {
                        match dir {
                            Dir::Up => {
                                target = target.wrapping_inc();
                            },
                            Dir::Down => {
                                target = target.wrapping_dec();
                            },
                            _ => {},
                        }
                    } else if i == 1 {
                        match dir {
                            Dir::Up => predicate.wrapping_inc(),
                            Dir::Down => predicate.wrapping_dec(),
                            _ => {},
                        }
                    }
                    self.selection.player_menu = PlayerMenu::Lure { target, predicate };
                    let moved = trio_moved_of(i, dir);
                    self.ctx.set_next_hot(trio_hot_of(moved, Id::LurePredicate));
                },
                None => {},
            }
        }
    }
}

/// A target after up (`up`) or down is pressed on it: round the computer
/// players; the player is never a target, and stays.
pub open spec fn stepped_hand(target: HandId, up: bool) -> HandId {
    match target {
        HandId::Cpu1 => if up {
            HandId::Cpu2
        } else {
            HandId::Cpu3
        },
        HandId::Cpu2 => if up {
            HandId::Cpu3
        } else {
            HandId::Cpu1
        },
        HandId::Cpu3 => if up {
            HandId::Cpu1
        } else {
            HandId::Cpu2
        },
        HandId::Player => HandId::Player,
    }
}

/// A question's predicate after up (`up`) or down is pressed on its suit.
pub open spec fn stepped_suit(predicate: Predicate, up: bool) -> Predicate {
    match predicate {
        Predicate::RankSuit(rank, suit) => Predicate::RankSuit(
            rank,
            if up {
                suit.next()
            } else {
                suit.prev()
            },
        ),
        other => other,
    }
}

/// The animation of the card `card` drawn from the deck into the player's hand
/// of `len` cards.
pub open spec fn drawn_animation(card: Card, len: int) -> Animation {
    Animation {
        delay: 0,
        card,
        at: XY { x: X(203), y: Y(107) },
        target: card_position_spec(spread_spec(HandId::Player), len + 1, len),
        action: AnimationAction::AddToHand(HandId::Player),
        shown: false,
    }
}

/// The player goes fishing, from `state` to `after`: the top card of the deck,
/// if any, comes to the player's hand, the fished menu shows `question` and
/// what was drawn, and the player has done something this turn.
pub open spec fn went_fishing(state: State, after: State, question: Question) -> bool {
    let deck = state.cards.deck@;
    let drew = if deck.len() > 0 {
        Some(deck.last())
    } else {
        None
    };
    &&& after.selection.player_menu == (PlayerMenu::Fished { question, drew })
    &&& after.done_something_this_turn
    &&& after.cards.piles() == (if deck.len() > 0 {
        state.cards.piles().update(0, deck.drop_last())
    } else {
        state.cards.piles()
    })
    &&& after.animations.slots() == match drew {
        Some(card) => push_spec(state.animations.slots(), drawn_animation(card, state.cards.player@.len() as int)),
        None => state.animations.slots(),
    }
}

impl State {
    /// The player goes fishing after a question that found nothing.
    fn player_goes_fishing(&mut self, question: Question)
        requires
            old(self).well_formed(),
        ensures
            final(self).well_formed(),
            went_fishing(*old(self), *final(self), question),
            final(self).memories == old(self).memories,
            final(self).has_started == old(self).has_started,
            final(self).selection.card_index == old(self).selection.card_index,
            final(self).selection.player_selection == old(self).selection.player_selection,
            final(self).turn_id == old(self).turn_id,
            final(self).sub_turn_ids == old(self).sub_turn_ids,
            final(self).sub_turn_index == old(self).sub_turn_index,
            final(self).stack == old(self).stack,
            final(self).cpu_menu == old(self).cpu_menu,
            final(self).paused == old(self).paused,
            final(self).ctx == old(self).ctx,
    {
        proof {
            lemma_first_free_in_range(self.animations.slots(), 0);
        }
        let player_len = self.cards.player.len();
        let drew = self.cards.deck.draw();
        self.done_something_this_turn = true;
        if let Some(card) = drew {
            let to = get_card_insert_position(spread(HandId::Player), player_len);
            let at = deck_xy();
            assert(at == XY { x: X(203), y: Y(107) });
            self.animations.push(
                Animation {
                    card,
                    at,
                    target: to,
                    action: AnimationAction::AddToHand(HandId::Player),
                    delay: 0,
                    shown: false,
                },
            );
        }
        self.selection.player_menu = PlayerMenu::Fished { question, drew };
        assert(self.cards.piles() =~= (if old(self).cards.deck@.len() > 0 {
            old(self).cards.piles().update(0, old(self).cards.deck@.drop_last())
        } else {
            old(self).cards.piles()
        }));
    }

    /// A frame of the player's asking menu. On its root, submit puts the
    /// question (see `question_submitted`), B goes back to the selecting menu,
    /// up and down change the target, round the computer players, or the suit
    /// asked for, whichever is hot, and left and right move between the target,
    /// the suit and submit. Where the question found nothing and the player
    /// holds the two-fisted fisherman, submit plays it, which ends the question,
    /// and B goes fishing instead; submit is hot next frame.
    pub fn player_asking(&mut self, input: Input, speaker: &mut Speaker)
        requires
            old(self).well_formed(),
            old(self).selection.player_menu matches PlayerMenu::Asking { question, sub_menu, .. } && CpuId::try_from_hand_spec(
                question.targeting.target,
            ) is Some && (sub_menu is TwoFistedFisherman ==> old(self).cards.player@.contains(TWO_FISTED_FISHERMAN)),
        ensures
            final(self).well_formed(),
            final(self).turn_id == old(self).turn_id,
            final(self).cpu_menu == old(self).cpu_menu,
            final(self).selection.card_index == old(self).selection.card_index,
            final(self).selection.player_selection == old(self).selection.player_selection,
            match old(self).selection.player_menu {
                PlayerMenu::Asking { used, question, sub_menu } => {
                    let (fired, ctx2, sound) = button_press_spec(old(self).ctx, input, Id::Submit);
                    &&& final(speaker)@ == if sound {
                        old(speaker)@.push(SFX::ButtonPress)
                    } else {
                        old(speaker)@
                    }
                    &&& match sub_menu {
                        PlayerAskingSubMenu::Root => if fired {
                            question_submitted(State { ctx: ctx2, ..*old(self) }, *final(self))
                        } else {
                            &&& same_but_menu_and_cards(*old(self), *final(self))
                            &&& final(self).cards == old(self).cards
                            &&& final(self).animations == old(self).animations
                            &&& if pressed(input, B_BITS) {
                                &&& final(self).ctx == ctx2
                                &&& final(self).selection.player_menu matches PlayerMenu::Selecting {
                                    sub_menu: PlayerSelectingSubMenu::Root,
                                }
                            } else {
                                match dir_of(input) {
                                    Some(dir) => {
                                        let i = trio_index(old(self).ctx.hot, Id::AskSuit);
                                        let up = dir == Dir::Up;
                                        let stepped = dir == Dir::Up || dir == Dir::Down;
                                        &&& final(self).ctx == (Context {
                                            next_hot: trio_hot(trio_moved(i, dir), Id::AskSuit),
                                            ..ctx2
                                        })
                                        &&& final(self).selection.player_menu matches PlayerMenu::Asking {
                                            used: u,
                                            question: q,
                                            sub_menu: PlayerAskingSubMenu::Root,
                                        }
                                        &&& u == used
                                        &&& q.description@ == question.description@
                                        &&& q.targeting.source == question.targeting.source
                                        &&& q.targeting.target == if i == 0 && stepped {
                                            stepped_hand(question.targeting.target, up)
                                        } else {
                                            question.targeting.target
                                        }
                                        &&& q.predicate == if i == 1 && stepped {
                                            stepped_suit(question.predicate, up)
                                        } else {
                                            question.predicate
                                        }
                                    },
                                    None => final(self).ctx == ctx2 && final(self).selection.player_menu
                                        == old(self).selection.player_menu,
                                }
                            }
                        },
                        PlayerAskingSubMenu::TwoFistedFisherman => {
                            &&& final(self).ctx == (Context { next_hot: Id::Submit, ..ctx2 })
                            &&& final(self).stack == old(self).stack
                            &&& final(self).sub_turn_index == old(self).sub_turn_index
                            &&& final(self).memories == old(self).memories
                            &&& if fired {
                                let hand = old(self).cards.player@;
                                let i = first_index(hand, TWO_FISTED_FISHERMAN);
                                &&& final(self).cards.player@ == hand.remove(i)
                                &&& final(self).cards.same_but_hand(old(self).cards, HandId::Player)
                                &&& pushed(
                                    old(self).animations.slots(),
                                    final(self).animations.slots(),
                                    discard_animation(
                                        HandId::Player,
                                        hand.len() - 1,
                                        i,
                                        TWO_FISTED_FISHERMAN,
                                        AfterDiscard::BackToSelecting(HandId::Player),
                                    ),
                                )
                                &&& final(self).selection.player_menu matches PlayerMenu::Selecting {
                                    sub_menu: PlayerSelectingSubMenu::Root,
                                }
                                &&& final(self).done_something_this_turn
                            } else if pressed(input, B_BITS) {
                                went_fishing(*old(self), *final(self), question)
                            } else {
                                &&& final(self).cards == old(self).cards
                                &&& final(self).animations == old(self).animations
                                &&& final(self).selection.player_menu == old(self).selection.player_menu
                                &&& final(self).done_something_this_turn == old(self).done_something_this_turn
                            }
                        },
                    }
                },
                _ => false,
            },
    {
        proof {
            lemma_two_pushes_keep_slots(self.animations.slots());
        }
        let mut menu = PlayerMenu::default();
        core::mem::swap(&mut menu, &mut self.selection.player_menu);
        let (used, mut question, sub_menu) = match menu {
            PlayerMenu::Asking { used, question, sub_menu } => (used, question, sub_menu),
            _ => {
                assert(false);
                return;
            },
        };
        let fired = button_press(&mut self.ctx, input, speaker, Id::Submit);
        match sub_menu {
            PlayerAskingSubMenu::Root => {
                if fired {
                    self.selection.player_menu = PlayerMenu::Asking { used, question, sub_menu };
                    self.player_submit_question();
                } else if input.pressed_this_frame(Button::B()) {
                } else {
                    match input.dir_pressed_this_frame() {
                        Some(dir) => {
                            let i = trio_index_of(self.ctx.hot, Id::AskSuit);
                            let stepped = match dir {
                                Dir::Up | Dir::Down => true,
                                _ => false,
                            };
                            let up = match dir {
                                Dir::Up => true,
                                _ => false,
                            };
                            if i == 0 && stepped {
                                question.targeting.target = match question.targeting.target {
                                    HandId::Cpu1 => if up {
                                        HandId::Cpu2
                                    } else {
                                        HandId::Cpu3
                                    },
                                    HandId::Cpu2 => if up {
                                        HandId::Cpu3
                                    } else {
                                        HandId::Cpu1
                                    },
                                    HandId::Cpu3 => if up {
                                        HandId::Cpu1
                                    } else {
                                        HandId::Cpu2
                                    },
                                    HandId::Player => HandId::Player,
                                };
                            } else if i == 1 && stepped {
                                question.predicate = match question.predicate {
                                    Predicate::RankSuit(rank, suit) => Predicate::RankSuit(
                                        rank,
                                        if up {
                                            suit.wrapping_inc()
                                        } else {
                                            suit.wrapping_dec()
                                        },
                                    ),
                                    other => other,
                                };
                            }
                            let moved = trio_moved_of(i, dir);
                            self.ctx.set_next_hot(trio_hot_of(moved, Id::AskSuit));
                        },
                        None => {},
                    }
                    self.selection.player_menu = PlayerMenu::Asking { used, question, sub_menu };
                }
            },
            PlayerAskingSubMenu::TwoFistedFisherman => {
                if fired {
                    discard_two_fisted_fisherman(&mut self.cards, &mut self.animations, HandId::Player);
                    self.done_something_this_turn = true;
                } else if input.pressed_this_frame(Button::B()) {
                    self.player_goes_fishing(question);
                } else {
                    self.selection.player_menu = PlayerMenu::Asking { used, question, sub_menu };
                }
                self.ctx.set_next_hot(Id::Submit);
            },
        }
    }
}

/// How many characters fit on a line of the message window: its width, less
/// the window's margins, over the width of a character.
pub const MESSAGE_WIDTH_IN_CHARS: usize = 49;

/// The position of the last card of a hand of `len` cards, or zero.
pub open spec fn last_position(len: int) -> int {
    if len > 0 {
        len - 1
    } else {
        0
    }
}

/// Whether `after` passes the turn on from `state`, as `State::to_next_turn`
/// does.
pub open spec fn turn_passed(state: State, after: State) -> bool {
    &&& after.turn_id == HandId::from_index((state.turn_id.index() + 1) % 4)
    &&& after.sub_turn_index == NO_SUB_TURN
    &&& after.selection.card_index == last_position(after.cards.player@.len() as int)
    &&& after.selection.player_menu matches PlayerMenu::Selecting { sub_menu: PlayerSelectingSubMenu::Root }
    &&& after.cpu_menu is Selecting
    &&& !after.done_something_this_turn
}

impl State {
    /// A frame of the window that shows the player a message: its text is
    /// laid out in lines that fit the window, and B closes it.
    pub fn player_message(&mut self, input: Input)
        requires
            old(self).selection.player_menu matches PlayerMenu::Selecting {
                sub_menu: PlayerSelectingSubMenu::Message(m),
            } && m@.len() < usize::MAX / 4,
        ensures
            same_but_menu_and_cards(*old(self), *final(self)),
            final(self).cards == old(self).cards,
            final(self).animations == old(self).animations,
            final(self).ctx == old(self).ctx,
            match old(self).selection.player_menu {
                PlayerMenu::Selecting { sub_menu: PlayerSelectingSubMenu::Message(m) } => if pressed(input, B_BITS) {
                    final(self).selection.player_menu matches PlayerMenu::Selecting {
                        sub_menu: PlayerSelectingSubMenu::Root,
                    }
                } else {
                    final(self).selection.player_menu matches PlayerMenu::Selecting {
                        sub_menu: PlayerSelectingSubMenu::Message(shown),
                    } && shown@ == reflow(m@, MESSAGE_WIDTH_IN_CHARS as int)
                },
                _ => false,
            },
    {
        let mut menu = PlayerMenu::default();
        core::mem::swap(&mut menu, &mut self.selection.player_menu);
        let mut message = match menu {
            PlayerMenu::Selecting { sub_menu: PlayerSelectingSubMenu::Message(m) } => m,
            _ => {
                assert(false);
                return;
            },
        };
        bytes_reflow_in_place(&mut message, MESSAGE_WIDTH_IN_CHARS);
        if !input.pressed_this_frame(Button::B()) {
            self.selection.player_menu = PlayerMenu::Selecting {
                sub_menu: PlayerSelectingSubMenu::Message(message),
            };
        }
    }

    /// A frame of the window that asks the player to confirm discarding divine
    /// intervention, which uses up the turn. Submit, which is hot, discards it
    /// and passes the turn on; B goes back to the selecting menu.
    pub fn player_discard_divine(&mut self, input: Input, speaker: &mut Speaker)
        requires
            old(self).well_formed(),
            old(self).selection.player_menu matches PlayerMenu::Selecting {
                sub_menu: PlayerSelectingSubMenu::DiscardDivineIntervention,
            },
            old(self).cards.player@.contains(DIVINE_INTERVENTION),
        ensures
            final(self).well_formed(),
            final(self).memories == old(self).memories,
            final(self).stack == old(self).stack,
            final(self).sub_turn_ids == old(self).sub_turn_ids,
            final(self).selection.player_selection == old(self).selection.player_selection,
            ({
                let (fired, ctx2, sound) = button_press_spec(
                    Context { next_hot: Id::Submit, ..old(self).ctx },
                    input,
                    Id::Submit,
                );
                &&& final(self).ctx == ctx2
                &&& final(speaker)@ == if sound {
                    old(speaker)@.push(SFX::ButtonPress)
                } else {
                    old(speaker)@
                }
                &&& if fired {
                    let hand = old(self).cards.player@;
                    let i = first_index(hand, DIVINE_INTERVENTION);
                    &&& final(self).cards.player@ == hand.remove(i)
                    &&& final(self).cards.same_but_hand(old(self).cards, HandId::Player)
                    &&& pushed(
                        old(self).animations.slots(),
                        final(self).animations.slots(),
                        discard_animation(HandId::Player, hand.len() - 1, i, DIVINE_INTERVENTION, AfterDiscard::Nothing),
                    )
                    &&& turn_passed(*old(self), *final(self))
                } else {
                    &&& final(self).cards == old(self).cards
                    &&& final(self).animations == old(self).animations
                    &&& final(self).turn_id == old(self).turn_id
                    &&& final(self).sub_turn_index == old(self).sub_turn_index
                    &&& final(self).cpu_menu == old(self).cpu_menu
                    &&& final(self).done_something_this_turn == old(self).done_something_this_turn
                    &&& final(self).selection.card_index == old(self).selection.card_index
                    &&& final(self).selection.player_menu == if pressed(input, B_BITS) {
                        PlayerMenu::Selecting { sub_menu: PlayerSelectingSubMenu::Root }
                    } else {
                        old(self).selection.player_menu
                    }
                }
            }),
    {
        proof {
            lemma_two_pushes_keep_slots(self.animations.slots());
        }
        self.ctx.set_next_hot(Id::Submit);
        if button_press(&mut self.ctx, input, speaker, Id::Submit) {
            discard_divine_intervention(&mut self.cards, &mut self.animations, HandId::Player);
            self.to_next_turn();
        } else if input.pressed_this_frame(Button::B()) {
            self.selection.player_menu = PlayerMenu::Selecting { sub_menu: PlayerSelectingSubMenu::Root };
        }
    }

    /// A frame of the window that shows what the player fished. A or B closes
    /// it: where the card drawn is the one asked for, everyone sees it and the
    /// player may go on with the turn; otherwise the unsuccessful fishing goes
    /// on the stack for the others to respond to.
    pub fn player_fished(&mut self, input: Input)
        requires
            old(self).selection.player_menu is Fished,
        ensures
            final(self).cards == old(self).cards,
            final(self).animations == old(self).animations,
            final(self).ctx == old(self).ctx,
            final(self).turn_id == old(self).turn_id,
            final(self).cpu_menu == old(self).cpu_menu,
            final(self).selection.player_selection == old(self).selection.player_selection,
            match old(self).selection.player_menu {
                PlayerMenu::Fished { question, drew } => if pressed(input, A_BITS) || pressed(input, B_BITS) {
                    if drew is Some && question.predicate.matches_spec(drew->0) {
                        let card = drew->0;
                        &&& forall|id: CpuId|
                            #[trigger] final(self).memories.memory_spec(id).locations_spec() == old(
                                self,
                            ).memories.memory_spec(id).locations_spec().update(card as int, Location::Known(HandId::Player))
                        &&& forall|id: CpuId|
                            #[trigger] final(self).memories.memory_spec(id).did_not_have_spec() == old(
                                self,
                            ).memories.memory_spec(id).did_not_have_spec()
                        &&& final(self).selection.card_index == last_position(old(self).cards.player@.len() as int)
                        &&& final(self).selection.player_menu matches PlayerMenu::Selecting {
                            sub_menu: PlayerSelectingSubMenu::Root,
                        }
                        &&& final(self).done_something_this_turn
                        &&& final(self).stack == old(self).stack
                        &&& final(self).sub_turn_ids == old(self).sub_turn_ids
                        &&& final(self).sub_turn_index == old(self).sub_turn_index
                    } else {
                        let n = old(self).stack@.len();
                        &&& final(self).stack@.len() == n + 1
                        &&& final(self).stack@.take(n as int) == old(self).stack@
                        &&& final(self).stack@[n as int].sub_turn_ids@ == HandId::Player.besides_spec().push(
                            HandId::Player,
                        )
                        &&& final(self).stack@[n as int].sub_turn_index == 0
                        &&& final(self).stack@[n as int].kind == (PlayKind::FishedUnsuccessfully {
                            source: HandId::Player,
                        })
                        &&& final(self).sub_turn_ids@ == old(self).turn_id.besides_spec().push(old(self).turn_id)
                        &&& final(self).sub_turn_index == 0
                        &&& final(self).done_something_this_turn
                        &&& final(self).memories == old(self).memories
                        &&& final(self).selection.card_index == old(self).selection.card_index
                        &&& final(self).selection.player_menu == old(self).selection.player_menu
                    }
                } else {
                    &&& final(self).memories == old(self).memories
                    &&& final(self).stack == old(self).stack
                    &&& final(self).sub_turn_ids == old(self).sub_turn_ids
                    &&& final(self).sub_turn_index == old(self).sub_turn_index
                    &&& final(self).done_something_this_turn == old(self).done_something_this_turn
                    &&& final(self).selection.card_index == old(self).selection.card_index
                    &&& final(self).selection.player_menu == old(self).selection.player_menu
                },
                _ => false,
            },
    {
        let (predicate, drew) = match &self.selection.player_menu {
            PlayerMenu::Fished { question, drew } => (question.predicate, *drew),
            _ => {
                assert(false);
                return;
            },
        };
        if input.pressed_this_frame(Button::A()) || input.pressed_this_frame(Button::B()) {
            let found = match drew {
                Some(card) => predicate.matches(card),
                None => false,
            };
            if found {
                let card = match drew {
                    Some(card) => card,
                    None => {
                        assert(false);
                        return;
                    },
                };
                proof {
                    lemma_matched_is_fish(predicate, card);
                }
                self.memories.found(HandId::Player, card);
                let len = self.cards.player.len();
                self.selection.card_index = if len > 0 { len - 1 } else { 0 };
                self.selection.player_menu = PlayerMenu::Selecting { sub_menu: PlayerSelectingSubMenu::Root };
                self.done_something_this_turn = true;
            } else {
                let ids = HandId::Player.next_to_current();
                self.stack.push(
                    Play { sub_turn_ids: ids, sub_turn_index: 0, kind: PlayKind::FishedUnsuccessfully { source: HandId::Player } },
                );
                self.allow_to_respond();
                assert(self.stack@.take(old(self).stack@.len() as int) =~= old(self).stack@);
            }
        }
    }

    /// A frame of the player's turn with no card at the selection, as when
    /// the hand is empty: once the game has started, A or B draws the top card
    /// of the deck into the hand; with no card left, the turn passes on.
    pub fn player_dead_in_the_water(&mut self, input: Input)
        requires
            old(self).well_formed(),
            old(self).selection.card_index >= old(self).cards.player@.len(),
        ensures
            final(self).well_formed(),
            final(self).memories == old(self).memories,
            final(self).stack == old(self).stack,
            final(self).ctx == old(self).ctx,
            final(self).selection.player_selection == old(self).selection.player_selection,
            if old(self).has_started && (pressed(input, A_BITS) || pressed(input, B_BITS)) {
                let deck = old(self).cards.deck@;
                let len = old(self).cards.player@.len() as int;
                &&& final(self).cards.piles() == (if deck.len() > 0 {
                    old(self).cards.piles().update(0, deck.drop_last())
                } else {
                    old(self).cards.piles()
                })
                &&& if deck.len() > 0 {
                    &&& final(self).animations.slots() == push_spec(
                        old(self).animations.slots(),
                        drawn_animation(deck.last(), len),
                    )
                    &&& final(self).selection.card_index == last_position(len)
                    &&& final(self).selection.player_menu matches PlayerMenu::Selecting {
                        sub_menu: PlayerSelectingSubMenu::Root,
                    }
                    &&& final(self).turn_id == old(self).turn_id
                    &&& final(self).sub_turn_index == old(self).sub_turn_index
                    &&& final(self).cpu_menu == old(self).cpu_menu
                    &&& final(self).done_something_this_turn == old(self).done_something_this_turn
                } else {
                    &&& final(self).animations == old(self).animations
                    &&& turn_passed(*old(self), *final(self))
                }
            } else {
                &&& final(self).cards == old(self).cards
                &&& final(self).animations == old(self).animations
                &&& final(self).turn_id == old(self).turn_id
                &&& final(self).sub_turn_index == old(self).sub_turn_index
                &&& final(self).cpu_menu == old(self).cpu_menu
                &&& final(self).done_something_this_turn == old(self).done_something_this_turn
                &&& final(self).selection.card_index == old(self).selection.card_index
                &&& final(self).selection.player_menu == old(self).selection.player_menu
            },
    {
        proof {
            lemma_first_free_in_range(self.animations.slots(), 0);
        }
        if self.has_started && (input.pressed_this_frame(Button::A()) || input.pressed_this_frame(Button::B())) {
            let drew = self.cards.deck.draw();
            let len = self.cards.player.len();
            self.selection.card_index = if len > 0 { len - 1 } else { 0 };
            self.selection.player_menu = PlayerMenu::Selecting { sub_menu: PlayerSelectingSubMenu::Root };
            match drew {
                Some(card) => {
                    let to = get_card_insert_position(spread(HandId::Player), len);
                    let at = deck_xy();
                    assert(at == XY { x: X(203), y: Y(107) });
                    self.animations.push(
                        Animation {
                            card,
                            at,
                            target: to,
                            action: AnimationAction::AddToHand(HandId::Player),
                            delay: 0,
                            shown: false,
                        },
                    );
                },
                None => {
                    self.to_next_turn();
                },
            }
            assert(self.cards.piles() =~= (if old(self).cards.deck@.len() > 0 {
                old(self).cards.piles().update(0, old(self).cards.deck@.drop_last())
            } else {
                old(self).cards.piles()
            }));
        }
    }
}

} // verus!
