use twisted_fish::game::animation::Animations;
use twisted_fish::game::anytime::{AnytimeCard, PlayAnytimeFlags};
use twisted_fish::game::anytime_menu::{menu_is_ready, play_anytime_menu, AnytimeOutcome};
use twisted_fish::game::anytime_play::AvailablePlayAnytime;
use twisted_fish::game::cards::Cards;
use twisted_fish::game::play::{Play, PlayKind};
use twisted_fish::game::state::{PlayerMenu, PlayerSelectingSubMenu, PlayerSelection, State};
use twisted_fish::game::ui::{Context, Id};
use twisted_fish::models::{
    fish_card, CpuId, HandId, Rank, Suit, DEAD_SCUBA_DIVER, DIVINE_INTERVENTION, GLASS_BOTTOM_BOAT,
    THE_GAME_WARDEN,
};
use twisted_fish::platform_types::{Button, Input, Speaker};

fn in_order() -> [u8; 73] {
    let mut cards = [0u8; 73];
    for (i, card) in cards.iter_mut().enumerate() {
        *card = i as u8;
    }
    cards
}

fn cards_with(player: &[u8], cpu1: &[u8]) -> Cards {
    let mut cards = Cards::default();
    for &card in player {
        cards.player.push(card);
    }
    for &card in cpu1 {
        cards.cpu1.push(card);
    }
    cards
}

fn releasing_a() -> Input {
    let mut input = Input::default();
    input.previous_gamepad.insert(Button::A());
    input
}

fn pressing(button: Button) -> Input {
    let mut input = Input::default();
    input.gamepad.insert(button);
    input
}

fn submit_is_down() -> Context {
    Context { active: Id::Submit, hot: Id::Submit, next_hot: Id::Zero }
}

#[test]
fn the_glass_bottom_boat_takes_the_picked_card_and_shows_it() {
    let eel = fish_card(Rank::Eel, Suit::Red);
    let crab = fish_card(Rank::Crab, Suit::Blue);
    let mut cards = cards_with(&[GLASS_BOTTOM_BOAT], &[eel, crab]);
    let available = AvailablePlayAnytime::in_player_hand(&cards, &[]).unwrap();
    assert_eq!(available.flags, PlayAnytimeFlags::GBB);
    let mut animations = Animations::default();
    let mut stack: Vec<Play> = Vec::new();
    let mut selection = PlayerSelection::default();
    let mut ctx = submit_is_down();
    let mut speaker = Speaker::default();
    let res = play_anytime_menu(
        &mut ctx,
        releasing_a(),
        &mut speaker,
        &mut cards,
        &mut animations,
        &mut stack,
        &mut selection,
        available,
        1,
    );
    assert_eq!(res, AnytimeOutcome::Hold);
    assert_eq!(selection.card, AnytimeCard::GlassBottomBoat);
    assert_eq!(selection.viewing, Some(crab));
    assert_eq!(cards.cpu1.iter(), vec![eel]);
    assert!(cards.player.is_empty());
    assert_eq!(animations.iter().len(), 2);
    assert_eq!(animations.get(0).card, crab);
}

#[test]
fn the_viewed_card_is_put_away_with_the_submit_button() {
    let mut cards = cards_with(&[GLASS_BOTTOM_BOAT], &[1]);
    let available = AvailablePlayAnytime::glass_bottom_boat(0);
    let mut animations = Animations::default();
    let mut stack: Vec<Play> = Vec::new();
    let mut selection = PlayerSelection::default();
    selection.viewing = Some(7);
    let mut ctx = submit_is_down();
    let mut speaker = Speaker::default();
    let res = play_anytime_menu(
        &mut ctx,
        releasing_a(),
        &mut speaker,
        &mut cards,
        &mut animations,
        &mut stack,
        &mut selection,
        available,
        0,
    );
    assert_eq!(res, AnytimeOutcome::Done);
    assert_eq!(selection.viewing, None);
    assert_eq!(ctx.next_hot, Id::Submit);
    assert_eq!(ctx.active, Id::Zero);
}

#[test]
fn the_game_warden_sends_the_picked_card_back_to_the_deck() {
    let eel = fish_card(Rank::Eel, Suit::Red);
    let crab = fish_card(Rank::Crab, Suit::Blue);
    let mut cards = cards_with(&[THE_GAME_WARDEN], &[eel, crab]);
    cards.discard.push(fish_card(Rank::Whale, Suit::Green));
    let available = AvailablePlayAnytime::in_player_hand(&cards, &[]).unwrap();
    assert_eq!(available.flags, PlayAnytimeFlags::GW);
    let mut animations = Animations::default();
    let mut stack: Vec<Play> = Vec::new();
    let mut selection = PlayerSelection::default();
    let mut ctx = submit_is_down();
    let mut speaker = Speaker::default();
    let res = play_anytime_menu(
        &mut ctx,
        releasing_a(),
        &mut speaker,
        &mut cards,
        &mut animations,
        &mut stack,
        &mut selection,
        available,
        0,
    );
    assert_eq!(res, AnytimeOutcome::Done);
    assert_eq!(cards.cpu1.iter(), vec![crab]);
    assert!(cards.player.is_empty());
    assert_eq!(animations.get(0).card, eel);
    assert_eq!(animations.get(1).card, THE_GAME_WARDEN);
}

#[test]
fn the_dead_scuba_diver_completes_the_selected_basket() {
    let eels = [
        fish_card(Rank::Eel, Suit::Red),
        fish_card(Rank::Eel, Suit::Green),
        fish_card(Rank::Eel, Suit::Blue),
        fish_card(Rank::Eel, Suit::Yellow),
    ];
    let crab = fish_card(Rank::Crab, Suit::Blue);
    let mut cards = cards_with(&[eels[0], crab, eels[1], DEAD_SCUBA_DIVER, eels[2], eels[3]], &[1]);
    let available = AvailablePlayAnytime::in_player_hand(&cards, &[]).unwrap();
    assert_eq!(available.flags, PlayAnytimeFlags::DSD);
    let mut animations = Animations::default();
    let mut stack: Vec<Play> = Vec::new();
    let mut selection = PlayerSelection::default();
    let mut ctx = submit_is_down();
    let mut speaker = Speaker::default();
    let res = play_anytime_menu(
        &mut ctx,
        releasing_a(),
        &mut speaker,
        &mut cards,
        &mut animations,
        &mut stack,
        &mut selection,
        available,
        0,
    );
    assert_eq!(res, AnytimeOutcome::Done);
    assert_eq!(selection.rank, Rank::Eel);
    assert_eq!(cards.player.iter(), vec![crab]);
    assert_eq!(cards.player_baskets.len(), 5);
    assert!(animations.all_done());
}

#[test]
fn divine_intervention_cancels_the_two_fisted_fisherman() {
    let mut cards = cards_with(&[DIVINE_INTERVENTION], &[1]);
    let mut stack: Vec<Play> = vec![Play {
        sub_turn_ids: [HandId::Player, HandId::Cpu2, HandId::Cpu3, HandId::Cpu1],
        sub_turn_index: 0,
        kind: PlayKind::TwoFistedFisherman { source: HandId::Cpu1, cancelled: false },
    }];
    let available = AvailablePlayAnytime::in_player_hand(&cards, &stack).unwrap();
    assert_eq!(available.flags, PlayAnytimeFlags::DI);
    let mut animations = Animations::default();
    let mut selection = PlayerSelection::default();
    let mut ctx = submit_is_down();
    let mut speaker = Speaker::default();
    let res = play_anytime_menu(
        &mut ctx,
        releasing_a(),
        &mut speaker,
        &mut cards,
        &mut animations,
        &mut stack,
        &mut selection,
        available,
        0,
    );
    assert_eq!(res, AnytimeOutcome::Done);
    assert!(matches!(stack[0].kind, PlayKind::TwoFistedFisherman { cancelled: true, .. }));
    assert!(cards.player.is_empty());
    assert_eq!(animations.get(0).card, DIVINE_INTERVENTION);
}

#[test]
fn b_declines_and_directions_move_round_the_menu() {
    let mut cards = cards_with(&[GLASS_BOTTOM_BOAT, THE_GAME_WARDEN], &[1]);
    cards.discard.push(2);
    let available = AvailablePlayAnytime::in_player_hand(&cards, &[]).unwrap();
    assert_eq!(available.flags, PlayAnytimeFlags::GBB_GW);
    let mut animations = Animations::default();
    let mut stack: Vec<Play> = Vec::new();
    let mut speaker = Speaker::default();

    let mut selection = PlayerSelection::default();
    let mut ctx = Context { active: Id::Zero, hot: Id::AnytimeCard, next_hot: Id::Zero };
    let res = play_anytime_menu(
        &mut ctx,
        pressing(Button::B()),
        &mut speaker,
        &mut cards,
        &mut animations,
        &mut stack,
        &mut selection,
        available,
        0,
    );
    assert_eq!(res, AnytimeOutcome::Hold);
    assert!(selection.declined);
    assert_eq!(ctx.next_hot, Id::AnytimeCard);

    let mut selection = PlayerSelection::default();
    let res = play_anytime_menu(
        &mut ctx,
        pressing(Button::UP()),
        &mut speaker,
        &mut cards,
        &mut animations,
        &mut stack,
        &mut selection,
        available,
        0,
    );
    assert_eq!(res, AnytimeOutcome::Hold);
    assert_eq!(selection.card, AnytimeCard::GlassBottomBoat);
    assert_eq!(ctx.next_hot, Id::AnytimeCard);

    let res = play_anytime_menu(
        &mut ctx,
        pressing(Button::RIGHT()),
        &mut speaker,
        &mut cards,
        &mut animations,
        &mut stack,
        &mut selection,
        available,
        0,
    );
    assert_eq!(res, AnytimeOutcome::Hold);
    assert_eq!(ctx.next_hot, Id::CpuIdSelect);
    ctx.hot = Id::CpuIdSelect;
    play_anytime_menu(
        &mut ctx,
        pressing(Button::DOWN()),
        &mut speaker,
        &mut cards,
        &mut animations,
        &mut stack,
        &mut selection,
        available,
        0,
    );
    assert_eq!(selection.target, CpuId::Three);
    assert_eq!(cards.player.len(), 2);
    assert!(speaker.slice().is_empty());
}

#[test]
fn the_player_passes_when_the_hand_offers_nothing() {
    let mut state = State::new(in_order());
    state.animations = Animations::default();
    state.cards = cards_with(&[1, 2], &[3]);
    state.sub_turn_ids = [HandId::Player, HandId::Cpu1, HandId::Cpu2, HandId::Cpu3];
    state.sub_turn_index = 0;
    state.stack = Vec::new();
    let mut speaker = Speaker::default();
    let res = state.player_respond(Input::default(), &mut speaker, 0);
    assert_eq!(res, None);
    assert_eq!(state.sub_turn_index, 1);
}

#[test]
fn the_player_answers_with_the_glass_bottom_boat() {
    let mut state = State::new(in_order());
    state.animations = Animations::default();
    state.cards = cards_with(&[GLASS_BOTTOM_BOAT], &[3, 4]);
    state.sub_turn_ids = [HandId::Player, HandId::Cpu1, HandId::Cpu2, HandId::Cpu3];
    state.sub_turn_index = 0;
    state.stack = Vec::new();
    state.ctx = submit_is_down();
    let mut speaker = Speaker::default();
    let res = state.player_respond(releasing_a(), &mut speaker, 0);
    assert_eq!(res, Some(AnytimeOutcome::Hold));
    assert_eq!(state.selection.player_selection.viewing, Some(3));
    assert_eq!(state.cards.cpu1.iter(), vec![4]);
    assert_eq!(state.sub_turn_index, 0);
}

#[test]
fn declining_in_the_players_turn_goes_back_to_the_root_menu() {
    let mut state = State::new(in_order());
    state.animations = Animations::default();
    state.cards = cards_with(&[GLASS_BOTTOM_BOAT], &[3, 4]);
    let mut selection = PlayerSelection::default();
    selection.declined = true;
    state.selection.player_menu = PlayerMenu::Selecting {
        sub_menu: PlayerSelectingSubMenu::Anytime(selection, AvailablePlayAnytime::glass_bottom_boat(0)),
    };
    let mut speaker = Speaker::default();
    let res = state.player_anytime_turn(Input::default(), &mut speaker, 0);
    assert_eq!(res, AnytimeOutcome::Done);
    assert!(matches!(
        state.selection.player_menu,
        PlayerMenu::Selecting { sub_menu: PlayerSelectingSubMenu::Root }
    ));
    assert_eq!(state.cards.cpu1.len(), 2);
}

#[test]
fn a_menu_is_ready_only_where_its_cards_are() {
    let cards = cards_with(&[1, GLASS_BOTTOM_BOAT], &[3]);
    assert!(menu_is_ready(&cards, &AvailablePlayAnytime::glass_bottom_boat(1)));
    assert!(!menu_is_ready(&cards, &AvailablePlayAnytime::glass_bottom_boat(0)));
    assert!(!menu_is_ready(&cards, &AvailablePlayAnytime::game_warden(1)));
    assert!(!menu_is_ready(&cards, &AvailablePlayAnytime::glass_bottom_boat(5)));
}

#[test]
fn the_menu_in_the_players_turn_stays_open_until_a_play() {
    let mut state = State::new(in_order());
    state.animations = Animations::default();
    state.cards = cards_with(&[GLASS_BOTTOM_BOAT], &[3, 4]);
    state.selection.player_menu = PlayerMenu::Selecting {
        sub_menu: PlayerSelectingSubMenu::Anytime(PlayerSelection::default(), AvailablePlayAnytime::glass_bottom_boat(0)),
    };
    state.ctx = Context { active: Id::Zero, hot: Id::Submit, next_hot: Id::Zero };
    let mut speaker = Speaker::default();
    let res = state.player_anytime_turn(pressing(Button::A()), &mut speaker, 1);
    assert_eq!(res, AnytimeOutcome::Hold);
    assert_eq!(state.ctx.active, Id::Submit);
    assert_eq!(speaker.slice().len(), 1);
    assert_eq!(state.cards.cpu1.len(), 2);
    match state.selection.player_menu {
        PlayerMenu::Selecting { sub_menu: PlayerSelectingSubMenu::Anytime(selection, _) } => {
            assert_eq!(selection.card, AnytimeCard::GlassBottomBoat);
        }
        _ => panic!("the menu closed"),
    }
    let res = state.player_anytime_turn(releasing_a(), &mut speaker, 1);
    assert_eq!(res, AnytimeOutcome::Hold);
    assert_eq!(state.cards.cpu1.iter(), vec![3]);
    let res = state.player_anytime_turn(releasing_a(), &mut speaker, 0);
    assert_eq!(res, AnytimeOutcome::Hold);
    state.ctx = submit_is_down();
    let res = state.player_anytime_turn(releasing_a(), &mut speaker, 0);
    assert_eq!(res, AnytimeOutcome::Done);
    assert!(matches!(
        state.selection.player_menu,
        PlayerMenu::Selecting { sub_menu: PlayerSelectingSubMenu::Root }
    ));
}
