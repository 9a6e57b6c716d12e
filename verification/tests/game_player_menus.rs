use twisted_fish::game::frame::{PlayerStep, Step};
use twisted_fish::game::animation::Animations;
use twisted_fish::game::cards::Cards;
use twisted_fish::game::question::Question;
use twisted_fish::game::state::{PlayerAskingSubMenu, PlayerMenu, PlayerSelectingSubMenu, State};
use twisted_fish::game::ui::{Context, Id};
use twisted_fish::models::{
    fish_card, CpuId, HandId, LurePredicate, NetPredicate, Predicate, Rank, Suit, Targeting, DIVINE_INTERVENTION,
    THE_LURE, THE_NET,
    TWO_FISTED_FISHERMAN,
};
use twisted_fish::platform_types::{Button, Input, Speaker};

fn in_order() -> [u8; 73] {
    let mut cards = [0u8; 73];
    for (i, card) in cards.iter_mut().enumerate() {
        *card = i as u8;
    }
    cards
}

fn quiet_state(player: &[u8]) -> State {
    let mut state = State::new(in_order());
    state.animations = Animations::default();
    state.cards = Cards::default();
    for &card in player {
        state.cards.player.push(card);
    }
    state
}

fn pressing(button: Button) -> Input {
    let mut input = Input::default();
    input.gamepad.insert(button);
    input
}

fn releasing_a() -> Input {
    let mut input = Input::default();
    input.previous_gamepad.insert(Button::A());
    input
}

fn submit_is_down() -> Context {
    Context { active: Id::Submit, hot: Id::Submit, next_hot: Id::Zero }
}

fn asking(target: HandId, sub_menu: PlayerAskingSubMenu) -> PlayerMenu {
    PlayerMenu::Asking {
        used: fish_card(Rank::Eel, Suit::Blue),
        question: Question::new(
            Targeting { source: HandId::Player, target },
            Predicate::RankSuit(Rank::Eel, Suit::Red),
        ),
        sub_menu,
    }
}

#[test]
fn submitting_the_net_discards_it() {
    let mut state = quiet_state(&[1, THE_NET]);
    state.selection.player_menu = PlayerMenu::Net { target: CpuId::Two, predicate: NetPredicate::Suit(Suit::Red) };
    state.ctx = submit_is_down();
    let mut speaker = Speaker::default();
    state.player_net(releasing_a(), &mut speaker);
    assert_eq!(state.cards.player.iter(), vec![1]);
    assert_eq!(state.animations.get(0).card, THE_NET);
    assert!(matches!(state.selection.player_menu, PlayerMenu::Net { .. }));
}

#[test]
fn the_net_menu_moves_between_its_sections() {
    let mut state = quiet_state(&[THE_NET]);
    state.selection.player_menu = PlayerMenu::Net { target: CpuId::One, predicate: NetPredicate::Suit(Suit::Red) };
    state.ctx = Context { active: Id::Zero, hot: Id::CpuIdSelect, next_hot: Id::Zero };
    let mut speaker = Speaker::default();
    state.player_net(pressing(Button::UP()), &mut speaker);
    assert!(matches!(state.selection.player_menu, PlayerMenu::Net { target: CpuId::Two, .. }));
    assert_eq!(state.ctx.next_hot, Id::CpuIdSelect);
    state.player_net(pressing(Button::LEFT()), &mut speaker);
    assert_eq!(state.ctx.next_hot, Id::Submit);
    state.player_net(pressing(Button::B()), &mut speaker);
    assert!(matches!(
        state.selection.player_menu,
        PlayerMenu::Selecting { sub_menu: PlayerSelectingSubMenu::Root }
    ));
    assert_eq!(state.cards.player.len(), 1);
}

#[test]
fn the_lure_predicate_steps_round() {
    let mut state = quiet_state(&[THE_LURE]);
    let first = LurePredicate { rank: Rank::Barnacle, suit: Suit::Red };
    state.selection.player_menu = PlayerMenu::Lure { target: CpuId::One, predicate: first };
    state.ctx = Context { active: Id::Zero, hot: Id::LurePredicate, next_hot: Id::Zero };
    let mut speaker = Speaker::default();
    state.player_lure(pressing(Button::DOWN()), &mut speaker);
    state.player_lure(pressing(Button::UP()), &mut speaker);
    match state.selection.player_menu {
        PlayerMenu::Lure { target, predicate } => {
            assert_eq!(target, CpuId::One);
            assert_eq!(predicate, first);
        }
        _ => panic!("the lure menu closed"),
    }
    state.ctx = submit_is_down();
    state.player_lure(releasing_a(), &mut speaker);
    assert!(state.cards.player.is_empty());
}

#[test]
fn the_asking_menu_changes_target_and_suit() {
    let mut state = quiet_state(&[fish_card(Rank::Eel, Suit::Blue)]);
    state.selection.player_menu = asking(HandId::Cpu3, PlayerAskingSubMenu::Root);
    state.ctx = Context { active: Id::Zero, hot: Id::CpuIdSelect, next_hot: Id::Zero };
    let mut speaker = Speaker::default();
    state.player_asking(pressing(Button::UP()), &mut speaker);
    state.ctx.hot = Id::AskSuit;
    state.player_asking(pressing(Button::DOWN()), &mut speaker);
    match &state.selection.player_menu {
        PlayerMenu::Asking { question, .. } => {
            assert_eq!(question.targeting.target, HandId::Cpu1);
            assert_eq!(question.predicate, Predicate::RankSuit(Rank::Eel, Suit::Purple));
        }
        _ => panic!("the asking menu closed"),
    }
}

#[test]
fn submitting_a_question_gets_the_card() {
    let wanted = fish_card(Rank::Eel, Suit::Red);
    let mut state = quiet_state(&[fish_card(Rank::Eel, Suit::Blue)]);
    state.cards.cpu1.push(wanted);
    state.selection.player_menu = asking(HandId::Cpu1, PlayerAskingSubMenu::Root);
    state.ctx = submit_is_down();
    let mut speaker = Speaker::default();
    state.player_asking(releasing_a(), &mut speaker);
    assert!(state.cards.cpu1.is_empty());
    assert_eq!(state.animations.get(0).card, wanted);
    assert!(state.done_something_this_turn);
}

#[test]
fn declining_the_two_fisted_fisherman_goes_fishing() {
    let mut state = quiet_state(&[TWO_FISTED_FISHERMAN]);
    state.cards.deck.push(9);
    state.selection.player_menu = asking(HandId::Cpu1, PlayerAskingSubMenu::TwoFistedFisherman);
    let mut speaker = Speaker::default();
    state.player_asking(pressing(Button::B()), &mut speaker);
    assert!(matches!(state.selection.player_menu, PlayerMenu::Fished { drew: Some(9), .. }));
    assert!(state.cards.deck.is_empty());
    assert_eq!(state.animations.get(0).card, 9);
    assert_eq!(state.ctx.next_hot, Id::Submit);
}

#[test]
fn playing_the_two_fisted_fisherman_discards_it() {
    let mut state = quiet_state(&[TWO_FISTED_FISHERMAN]);
    state.selection.player_menu = asking(HandId::Cpu1, PlayerAskingSubMenu::TwoFistedFisherman);
    state.ctx = submit_is_down();
    let mut speaker = Speaker::default();
    state.player_asking(releasing_a(), &mut speaker);
    assert!(state.cards.player.is_empty());
    assert!(matches!(
        state.selection.player_menu,
        PlayerMenu::Selecting { sub_menu: PlayerSelectingSubMenu::Root }
    ));
    assert!(state.done_something_this_turn);
}

#[test]
fn b_closes_a_message_and_otherwise_it_is_laid_out() {
    let mut state = quiet_state(&[1]);
    state.selection.player_menu = PlayerMenu::Selecting {
        sub_menu: PlayerSelectingSubMenu::Message(b"short".to_vec()),
    };
    state.player_message(Input::default());
    match &state.selection.player_menu {
        PlayerMenu::Selecting { sub_menu: PlayerSelectingSubMenu::Message(m) } => assert_eq!(m, &b"short".to_vec()),
        _ => panic!("the message closed"),
    }
    state.player_message(pressing(Button::B()));
    assert!(matches!(
        state.selection.player_menu,
        PlayerMenu::Selecting { sub_menu: PlayerSelectingSubMenu::Root }
    ));
}

#[test]
fn discarding_divine_intervention_ends_the_turn() {
    let mut state = quiet_state(&[1, DIVINE_INTERVENTION]);
    state.selection.player_menu = PlayerMenu::Selecting { sub_menu: PlayerSelectingSubMenu::DiscardDivineIntervention };
    state.ctx = submit_is_down();
    let mut speaker = Speaker::default();
    state.player_discard_divine(releasing_a(), &mut speaker);
    assert_eq!(state.cards.player.iter(), vec![1]);
    assert_eq!(state.turn_id, HandId::Cpu1);
    assert_eq!(state.selection.card_index, 0);
    assert_eq!(state.animations.get(0).card, DIVINE_INTERVENTION);
}

#[test]
fn b_keeps_divine_intervention() {
    let mut state = quiet_state(&[DIVINE_INTERVENTION]);
    state.selection.player_menu = PlayerMenu::Selecting { sub_menu: PlayerSelectingSubMenu::DiscardDivineIntervention };
    let mut speaker = Speaker::default();
    state.player_discard_divine(pressing(Button::B()), &mut speaker);
    assert_eq!(state.cards.player.len(), 1);
    assert_eq!(state.turn_id, HandId::Player);
    assert_eq!(state.ctx.next_hot, Id::Submit);
    assert!(matches!(
        state.selection.player_menu,
        PlayerMenu::Selecting { sub_menu: PlayerSelectingSubMenu::Root }
    ));
}

#[test]
fn fishing_up_the_card_asked_for_keeps_the_turn() {
    let wanted = fish_card(Rank::Eel, Suit::Red);
    let mut state = quiet_state(&[wanted]);
    let question = Question::new(
        Targeting { source: HandId::Player, target: HandId::Cpu1 },
        Predicate::RankSuit(Rank::Eel, Suit::Red),
    );
    state.selection.player_menu = PlayerMenu::Fished { question, drew: Some(wanted) };
    state.player_fished(pressing(Button::A()));
    assert!(matches!(
        state.selection.player_menu,
        PlayerMenu::Selecting { sub_menu: PlayerSelectingSubMenu::Root }
    ));
    assert!(state.done_something_this_turn);
    assert!(state.stack.is_empty());
}

#[test]
fn fishing_up_something_else_goes_on_the_stack() {
    let mut state = quiet_state(&[fish_card(Rank::Crab, Suit::Red)]);
    let question = Question::new(
        Targeting { source: HandId::Player, target: HandId::Cpu1 },
        Predicate::RankSuit(Rank::Eel, Suit::Red),
    );
    state.selection.player_menu = PlayerMenu::Fished { question, drew: Some(fish_card(Rank::Crab, Suit::Red)) };
    state.player_fished(pressing(Button::B()));
    assert_eq!(state.stack.len(), 1);
    assert!(matches!(state.stack[0].kind, twisted_fish::game::play::PlayKind::FishedUnsuccessfully { .. }));
    assert_eq!(state.sub_turn_index, 0);
    assert_eq!(state.sub_turn_ids, [HandId::Cpu1, HandId::Cpu2, HandId::Cpu3, HandId::Player]);
}

#[test]
fn an_empty_hand_draws_from_the_deck_or_passes() {
    let mut state = quiet_state(&[]);
    state.has_started = true;
    state.cards.deck.push(5);
    state.player_dead_in_the_water(pressing(Button::A()));
    assert!(state.cards.deck.is_empty());
    assert_eq!(state.animations.get(0).card, 5);
    assert_eq!(state.turn_id, HandId::Player);
    state.animations = Animations::default();
    state.player_dead_in_the_water(pressing(Button::A()));
    assert_eq!(state.turn_id, HandId::Cpu1);
}

#[test]
fn the_step_follows_the_responders_then_the_stack_then_the_turn() {
    let mut state = quiet_state(&[1]);
    state.sub_turn_ids = [HandId::Cpu1, HandId::Cpu2, HandId::Cpu3, HandId::Player];
    state.sub_turn_index = 1;
    state.stack = Vec::new();
    assert_eq!(state.next_step(), Some(Step::Respond(HandId::Cpu2)));
    state.sub_turn_index = 4;
    assert_eq!(state.next_step(), Some(Step::Turn(HandId::Player)));
    state.stack.push(twisted_fish::game::play::Play {
        sub_turn_ids: HandId::Player.next_to_current(),
        sub_turn_index: 4,
        kind: twisted_fish::game::play::PlayKind::FishedUnsuccessfully { source: HandId::Player },
    });
    assert_eq!(state.next_step(), Some(Step::Resolve));
    let mut moving = twisted_fish::game::animation::Animation::default();
    moving.target = twisted_fish::platform_types::unscaled::XY {
        x: twisted_fish::platform_types::unscaled::X(4),
        y: twisted_fish::platform_types::unscaled::Y(0),
    };
    state.animations.push(moving);
    assert_eq!(state.next_step(), None);
}

#[test]
fn the_player_step_is_the_open_window() {
    let mut state = quiet_state(&[1]);
    state.selection.card_index = 0;
    state.selection.player_menu = PlayerMenu::Selecting { sub_menu: PlayerSelectingSubMenu::Root };
    assert_eq!(state.player_step(), PlayerStep::Select);
    state.selection.player_menu = asking(HandId::Cpu1, PlayerAskingSubMenu::TwoFistedFisherman);
    assert_eq!(state.player_step(), PlayerStep::TwoFistedFisherman);
    state.selection.card_index = 1;
    assert_eq!(state.player_step(), PlayerStep::DeadInTheWater);
}
