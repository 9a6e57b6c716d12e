use twisted_fish::game::animation::Animations;
use twisted_fish::game::cards::Cards;
use twisted_fish::game::state::{CpuMenu, PlayerMenu, PlayerSelectingSubMenu, State};
use twisted_fish::game::ui::Id;
use twisted_fish::models::{
    fish_card, CpuId, HandId, Predicate, Rank, Suit, Targeting, NO_FISHING, THE_GAME_WARDEN, THE_NET,
};
use twisted_fish::platform_types::{Button, Input};

fn in_order() -> [u8; 73] {
    let mut cards = [0u8; 73];
    for (i, card) in cards.iter_mut().enumerate() {
        *card = i as u8;
    }
    cards
}

fn quiet_state(player: &[u8]) -> State {
    let mut state = State::new(in_order());
    state.animations = Animations::default();
    state.cards = Cards::default();
    for &card in player {
        state.cards.player.push(card);
    }
    state
}

fn pressing(button: Button) -> Input {
    let mut input = Input::default();
    input.gamepad.insert(button);
    input
}

#[test]
fn left_and_right_wrap_round_the_hand() {
    let mut state = quiet_state(&[1, 2, 3]);
    state.selection.card_index = 0;
    state.player_select(pressing(Button::LEFT()));
    assert_eq!(state.selection.card_index, 2);
    state.player_select(pressing(Button::RIGHT()));
    assert_eq!(state.selection.card_index, 0);
    state.player_select(pressing(Button::RIGHT()));
    assert_eq!(state.selection.card_index, 1);
    assert!(state.has_started);
}

#[test]
fn using_a_fish_card_starts_a_question() {
    let mut state = quiet_state(&[fish_card(Rank::Whale, Suit::Blue)]);
    state.selection.card_index = 0;
    state.player_select(pressing(Button::A()));
    match &state.selection.player_menu {
        PlayerMenu::Asking { used, question, .. } => {
            assert_eq!(*used, fish_card(Rank::Whale, Suit::Blue));
            assert_eq!(question.targeting, Targeting { source: HandId::Player, target: HandId::Cpu1 });
            assert_eq!(question.predicate, Predicate::RankSuit(Rank::Whale, Suit::Red));
        }
        _ => panic!("expected the asking menu"),
    }
    assert_eq!(state.ctx.next_hot, Id::CpuIdSelect);
}

#[test]
fn no_fishing_cannot_be_used_on_your_own_turn() {
    let mut state = quiet_state(&[NO_FISHING]);
    state.selection.card_index = 0;
    state.player_select(pressing(Button::A()));
    match &state.selection.player_menu {
        PlayerMenu::Selecting { sub_menu: PlayerSelectingSubMenu::Message(message) } => {
            assert_eq!(
                message.as_slice(),
                b"This card can only be played when someone asks you for a fish.".as_slice()
            );
        }
        _ => panic!("expected a message"),
    }
}

#[test]
fn the_net_needs_the_start_of_the_turn() {
    let mut state = quiet_state(&[THE_NET]);
    state.selection.card_index = 0;
    state.done_something_this_turn = true;
    state.player_select(pressing(Button::A()));
    assert!(matches!(
        state.selection.player_menu,
        PlayerMenu::Selecting { sub_menu: PlayerSelectingSubMenu::Message(_) }
    ));

    let mut state = quiet_state(&[THE_NET]);
    state.selection.card_index = 0;
    state.player_select(pressing(Button::A()));
    assert!(matches!(state.selection.player_menu, PlayerMenu::Net { target: CpuId::One, .. }));
}

#[test]
fn the_game_warden_opens_the_anytime_menu() {
    let mut state = quiet_state(&[1, THE_GAME_WARDEN]);
    state.selection.card_index = 1;
    state.player_select(pressing(Button::A()));
    match &state.selection.player_menu {
        PlayerMenu::Selecting { sub_menu: PlayerSelectingSubMenu::Anytime(_, available) } => {
            assert_eq!(available.warden_i, 1);
        }
        _ => panic!("expected the anytime menu"),
    }
}

#[test]
fn nothing_happens_without_a_selected_card() {
    let mut state = quiet_state(&[]);
    state.player_select(pressing(Button::A()));
    assert!(!state.has_started);
}

#[test]
fn a_cpu_dead_in_the_water_draws_a_card() {
    let mut state = quiet_state(&[]);
    state.cards.deck.push(5);
    state.cpu_menu = CpuMenu::DeadInTheWater;
    state.cpu_dead_in_the_water_draws(CpuId::Two);
    assert!(state.cards.deck.is_empty());
    assert!(matches!(state.cpu_menu, CpuMenu::Selecting));
    assert_eq!(state.turn_id, HandId::Player);
    assert_eq!(state.animations.get(0).card, 5);

    state.cpu_dead_in_the_water_draws(CpuId::Two);
    assert_eq!(state.turn_id, HandId::Cpu1);
}

#[test]
fn a_cpu_without_no_fishing_cannot_block() {
    let mut state = quiet_state(&[]);
    state.cards.cpu2.push(fish_card(Rank::Crab, Suit::Red));
    assert!(!state.cpu_target_blocks(CpuId::One, CpuId::Two, Predicate::RankSuit(Rank::Crab, Suit::Red)));
    assert_eq!(state.cards.cpu2.len(), 1);
}

#[test]
fn with_few_cards_left_a_cpu_blocks_with_no_fishing() {
    let mut state = quiet_state(&[]);
    state.cards.cpu2.push(fish_card(Rank::Crab, Suit::Red));
    state.cards.cpu2.push(NO_FISHING);
    assert!(state.cpu_target_blocks(CpuId::One, CpuId::Two, Predicate::RankSuit(Rank::Crab, Suit::Red)));
    assert_eq!(state.cards.cpu2.iter(), vec![fish_card(Rank::Crab, Suit::Red)]);
    assert_eq!(state.animations.get(0).card, NO_FISHING);
}

fn asking(state: &mut State, card: u8) {
    state.cards.player.push(card);
    state.selection.card_index = state.cards.player.len() - 1;
    state.player_select(pressing(Button::A()));
}

#[test]
fn a_question_answered_brings_the_card_over() {
    let mut state = quiet_state(&[]);
    state.cards.cpu1.push(fish_card(Rank::Whale, Suit::Red));
    asking(&mut state, fish_card(Rank::Whale, Suit::Blue));
    state.player_submit_question();
    assert!(state.cards.cpu1.is_empty());
    assert!(matches!(
        state.selection.player_menu,
        PlayerMenu::Selecting { sub_menu: PlayerSelectingSubMenu::Root }
    ));
    assert!(state.done_something_this_turn);
    assert_eq!(state.animations.get(0).card, fish_card(Rank::Whale, Suit::Red));
}

#[test]
fn a_question_not_answered_sends_the_player_fishing() {
    let mut state = quiet_state(&[]);
    state.cards.deck.push(9);
    state.cards.cpu1.push(fish_card(Rank::Eel, Suit::Red));
    asking(&mut state, fish_card(Rank::Whale, Suit::Blue));
    state.player_submit_question();
    match &state.selection.player_menu {
        PlayerMenu::Fished { question, drew } => {
            assert_eq!(*drew, Some(9));
            assert_eq!(question.predicate, Predicate::RankSuit(Rank::Whale, Suit::Red));
        }
        _ => panic!("expected the fished menu"),
    }
    assert!(state.cards.deck.is_empty());
    assert_eq!(state.cards.cpu1.len(), 1);
}
