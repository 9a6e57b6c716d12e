use twisted_fish::game::animation::{Animation, AnimationAction, Animations};
use twisted_fish::game::cards::Cards;
use twisted_fish::game::play::{Play, PlayKind};
use twisted_fish::game::state::{CpuMenu, PausedKind, PausedStateKind, Paused, State, NO_SUB_TURN};
use twisted_fish::models::{fish_card, CpuId, Hand, HandId, Predicate, Rank, Suit};
use twisted_fish::platform_types::{Button, Input, Speaker, SFX};
use twisted_fish::platform_types::unscaled::{X, XY, Y};

fn in_order() -> [u8; 73] {
    let mut cards = [0u8; 73];
    for (i, card) in cards.iter_mut().enumerate() {
        *card = i as u8;
    }
    cards
}

fn hand_of(cards: &[u8]) -> Hand {
    let mut hand = Hand::default();
    for &card in cards {
        hand.push(card);
    }
    hand
}

fn run_until_still(state: &mut State, speaker: &mut Speaker) {
    for _ in 0..1000 {
        if state.animations.all_done() {
            return;
        }
        state.tick(speaker);
    }
    panic!("the animations did not finish");
}

#[test]
fn a_new_game_deals_from_the_top_of_the_deck() {
    let state = State::new(in_order());
    assert_eq!(state.cards.deck.len(), 73 - 32);
    assert_eq!(state.cards.deck.last(), Some(40));
    assert_eq!(state.turn_id, HandId::Player);
    assert_eq!(state.sub_turn_index, NO_SUB_TURN);
    let first = state.animations.get(0);
    assert_eq!(first.card, 72);
    assert_eq!(first.delay, 0);
    assert!(matches!(first.action, AnimationAction::AddToHand(HandId::Player)));
    let fifth = state.animations.get(5);
    assert_eq!(fifth.card, 67);
    assert_eq!(fifth.delay, 5);
    assert!(matches!(fifth.action, AnimationAction::AddToHand(HandId::Cpu1)));
    assert!(state.animations.get(32).is_done());
}

#[test]
fn dealt_cards_all_arrive_with_a_sound_each() {
    let mut state = State::new(in_order());
    let mut speaker = Speaker::default();
    run_until_still(&mut state, &mut speaker);
    let mut held = 0;
    for id in HandId::ALL {
        held += state.cards.hand(id).len() as usize;
    }
    held += state.cards.player_baskets.len() as usize
        + state.cards.cpu1_baskets.len() as usize
        + state.cards.cpu2_baskets.len() as usize
        + state.cards.cpu3_baskets.len() as usize;
    assert_eq!(held, 32);
    assert_eq!(state.cards.deck.len(), 41);
    assert_eq!(speaker.slice().len(), 32);
    assert!(speaker.slice().iter().all(|sfx| *sfx == SFX::CardPlace));
    assert_eq!(state.selection.card_index as usize, state.cards.player.len() as usize - 1);
}

#[test]
fn a_tick_with_nothing_moving_changes_nothing() {
    let mut state = State::new(in_order());
    state.animations = Animations::default();
    let mut speaker = Speaker::default();
    let shuffle = state.tick(&mut speaker);
    assert!(!shuffle);
    assert!(speaker.slice().is_empty());
    assert_eq!(state.cards.deck.len(), 41);
}

#[test]
fn the_turn_passes_round_the_table() {
    let mut state = State::new(in_order());
    state.cpu_menu = CpuMenu::DeadInTheWater;
    state.done_something_this_turn = true;
    state.to_next_turn();
    assert_eq!(state.turn_id, HandId::Cpu1);
    assert_eq!(state.sub_turn_index, NO_SUB_TURN);
    assert!(matches!(state.cpu_menu, CpuMenu::Selecting));
    assert!(!state.done_something_this_turn);
}

#[test]
fn the_others_respond_in_turn_order() {
    let mut state = State::new(in_order());
    state.turn_id = HandId::Cpu2;
    state.allow_to_respond();
    assert_eq!(state.sub_turn_ids, [HandId::Cpu3, HandId::Player, HandId::Cpu1, HandId::Cpu2]);
    assert_eq!(state.sub_turn_index, 0);
    assert_eq!(state.responder(), Some(HandId::Cpu3));
    state.pass_response();
    assert_eq!(state.responder(), Some(HandId::Player));
    state.pass_response();
    state.pass_response();
    state.pass_response();
    assert_eq!(state.responder(), None);
}

#[test]
fn the_play_on_top_of_the_stack_is_responded_to_first() {
    let mut state = State::new(in_order());
    state.stack.push(Play {
        sub_turn_ids: [HandId::Cpu1, HandId::Cpu2, HandId::Cpu3, HandId::Player],
        sub_turn_index: 1,
        kind: PlayKind::FishedUnsuccessfully { source: HandId::Player },
    });
    assert_eq!(state.responder(), Some(HandId::Cpu2));
    state.pass_response();
    assert_eq!(state.stack[0].sub_turn_index, 2);
}

#[test]
fn fishing_unsuccessfully_ends_the_turn() {
    let mut state = State::new(in_order());
    state.stack.push(Play {
        sub_turn_ids: HandId::Player.next_to_current(),
        sub_turn_index: 4,
        kind: PlayKind::FishedUnsuccessfully { source: HandId::Player },
    });
    assert!(state.resolve_top_of_stack());
    assert!(state.stack.is_empty());
    assert_eq!(state.turn_id, HandId::Cpu1);
    assert!(!state.resolve_top_of_stack());
}

#[test]
fn an_uncancelled_two_fisted_fisherman_keeps_the_turn() {
    let mut state = State::new(in_order());
    state.stack.push(Play {
        sub_turn_ids: HandId::Player.next_to_current(),
        sub_turn_index: 4,
        kind: PlayKind::TwoFistedFisherman { source: HandId::Player, cancelled: false },
    });
    assert!(state.resolve_top_of_stack());
    assert_eq!(state.turn_id, HandId::Player);
}

#[test]
fn a_cpu_gets_the_card_it_asked_for() {
    let mut state = State::new(in_order());
    state.animations = Animations::default();
    state.cards = Cards::default();
    state.cards.cpu2 = hand_of(&[fish_card(Rank::Eel, Suit::Blue), fish_card(Rank::Crab, Suit::Red)]);
    state.cpu_menu = CpuMenu::Selecting;

    state.cpu_handle_ask(CpuId::One, HandId::Cpu2, Predicate::RankSuit(Rank::Crab, Suit::Red));

    assert_eq!(state.cards.cpu2.iter(), vec![fish_card(Rank::Eel, Suit::Blue)]);
    assert!(matches!(state.cpu_menu, CpuMenu::WaitingForSuccesfulAsk));
    assert!(state.done_something_this_turn);

    let mut speaker = Speaker::default();
    run_until_still(&mut state, &mut speaker);
    assert_eq!(state.cards.cpu1.iter(), vec![fish_card(Rank::Crab, Suit::Red)]);
    assert!(matches!(state.cpu_menu, CpuMenu::Selecting));
}

#[test]
fn a_cpu_told_to_go_fish_draws_the_top_card() {
    let mut state = State::new(in_order());
    state.animations = Animations::default();
    state.cards = Cards::default();
    state.cards.deck = hand_of(&[3, 4]);
    state.cards.cpu2 = hand_of(&[fish_card(Rank::Eel, Suit::Blue)]);

    state.cpu_handle_ask(CpuId::One, HandId::Cpu2, Predicate::RankSuit(Rank::Crab, Suit::Red));

    assert_eq!(state.cards.deck.iter(), vec![3]);
    assert_eq!(state.stack.len(), 1);
    assert!(matches!(state.stack[0].kind, PlayKind::FishedUnsuccessfully { source: HandId::Cpu1 }));
    assert_eq!(state.sub_turn_index, 0);

    let mut speaker = Speaker::default();
    run_until_still(&mut state, &mut speaker);
    assert_eq!(state.cards.cpu1.iter(), vec![4]);
}

#[test]
fn a_cpu_that_fishes_what_it_asked_for_waits_for_it() {
    let mut state = State::new(in_order());
    state.animations = Animations::default();
    state.cards = Cards::default();
    let wanted = fish_card(Rank::Crab, Suit::Red);
    state.cards.deck = hand_of(&[3, wanted]);

    state.cpu_handle_negative_response(CpuId::Two, Predicate::RankSuit(Rank::Crab, Suit::Red));

    assert!(matches!(state.cpu_menu, CpuMenu::WaitingWhenGotWhatWasFishingFor));
    assert!(state.stack.is_empty());
    assert_eq!(state.cards.deck.iter(), vec![3]);
}

#[test]
fn the_pause_screens_switch_and_scroll() {
    let mut paused = Paused::default();
    paused.kind = PausedStateKind::paused_default();
    let mut input = Input::default();
    input.gamepad.insert(Button::DOWN());
    paused.update(PausedKind::Baskets, input, true);
    assert_eq!(paused.baskets.top_index_with_offset, 1);
    assert_eq!(paused.memories.top_index_with_offset, 0);

    let mut input = Input::default();
    input.gamepad.insert(Button::B());
    paused.update(PausedKind::Baskets, input, true);
    assert_eq!(paused.kind, PausedStateKind::Paused(PausedKind::Memories));

    let mut input = Input::default();
    input.gamepad.insert(Button::UP());
    paused.update(PausedKind::Memories, input, true);
    assert_eq!(paused.memories.top_index_with_offset, 0);

    let mut input = Input::default();
    input.gamepad.insert(Button::START());
    paused.update(PausedKind::Memories, input, false);
    assert_eq!(paused.kind, PausedStateKind::Un);
}

#[test]
fn a_fifth_card_of_a_rank_arriving_completes_a_basket() {
    let mut state = State::new(in_order());
    state.animations = Animations::default();
    state.cards.cpu1 = hand_of(&[
        fish_card(Rank::Eel, Suit::Red),
        fish_card(Rank::Crab, Suit::Red),
        fish_card(Rank::Eel, Suit::Green),
        fish_card(Rank::Eel, Suit::Blue),
        fish_card(Rank::Eel, Suit::Yellow),
    ]);
    state.cards.cpu1_baskets = hand_of(&[]);
    let mut anim = Animation::default();
    anim.card = fish_card(Rank::Eel, Suit::Purple);
    anim.action = AnimationAction::AddToHand(HandId::Cpu1);
    anim.target = XY { x: X(2), y: Y(0) };
    state.animations.push(anim);
    let mut speaker = Speaker::default();
    run_until_still(&mut state, &mut speaker);
    assert_eq!(state.cards.cpu1.iter(), vec![fish_card(Rank::Crab, Suit::Red)]);
    assert_eq!(state.cards.cpu1_baskets.len(), 5);
    assert_eq!(speaker.slice(), &[SFX::CardPlace][..]);
}

#[test]
fn the_net_against_a_computer_player_takes_a_matching_card() {
    let mut state = State::new(in_order());
    state.animations = Animations::default();
    state.cards = Cards::default();
    let red_crab = fish_card(Rank::Crab, Suit::Red);
    let blue_eel = fish_card(Rank::Eel, Suit::Blue);
    state.cards.cpu1 = hand_of(&[blue_eel, red_crab]);
    state.stack.push(Play {
        sub_turn_ids: HandId::Player.next_to_current(),
        sub_turn_index: 4,
        kind: PlayKind::TheNet {
            targeting: twisted_fish::models::Targeting { source: HandId::Player, target: HandId::Cpu1 },
            predicate: twisted_fish::models::NetPredicate::Suit(Suit::Red),
        },
    });
    assert!(state.resolve_top_of_stack());
    assert_eq!(state.cards.cpu1.iter(), vec![blue_eel]);
    assert_eq!(state.animations.get(0).card, red_crab);
    assert!(matches!(state.animations.get(0).action, AnimationAction::AddToHand(HandId::Player)));
}

#[test]
fn the_lure_finding_nothing_has_the_asker_draw() {
    let mut state = State::new(in_order());
    state.animations = Animations::default();
    state.cards = Cards::default();
    state.cards.cpu1 = hand_of(&[fish_card(Rank::Eel, Suit::Blue)]);
    state.cards.deck = hand_of(&[9]);
    state.stack.push(Play {
        sub_turn_ids: HandId::Cpu2.next_to_current(),
        sub_turn_index: 4,
        kind: PlayKind::TheLure {
            targeting: twisted_fish::models::Targeting { source: HandId::Cpu2, target: HandId::Cpu1 },
            predicate: twisted_fish::models::LurePredicate { rank: Rank::Crab, suit: Suit::Red },
        },
    });
    assert!(state.resolve_top_of_stack());
    assert_eq!(state.cards.cpu1.len(), 1);
    assert!(state.cards.deck.is_empty());
    assert_eq!(state.animations.get(0).card, 9);
    assert!(matches!(state.animations.get(0).action, AnimationAction::AddToHand(HandId::Cpu2)));
}
