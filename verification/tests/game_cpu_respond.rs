use twisted_fish::game::animation::{AnimationAction, Animations};
use twisted_fish::game::cards::Cards;
use twisted_fish::game::state::State;
use twisted_fish::models::{fish_card, CpuId, HandId, Rank, Suit, DEAD_SCUBA_DIVER, GLASS_BOTTOM_BOAT};

fn in_order() -> [u8; 73] {
    let mut cards = [0u8; 73];
    for (i, card) in cards.iter_mut().enumerate() {
        *card = i as u8;
    }
    cards
}

fn quiet_state() -> State {
    let mut state = State::new(in_order());
    state.animations = Animations::default();
    state.cards = Cards::default();
    state
}

const OTHERS: [HandId; 3] = [HandId::Cpu2, HandId::Cpu3, HandId::Player];

#[test]
fn a_cpu_with_no_cards_lets_the_chance_pass() {
    let mut state = quiet_state();
    assert!(!state.cpu_respond(CpuId::One, &OTHERS, &OTHERS, 0));
}

#[test]
fn a_cpu_with_only_fish_lets_the_chance_pass() {
    let mut state = quiet_state();
    state.cards.cpu1.push(fish_card(Rank::Crab, Suit::Red));
    assert!(!state.cpu_respond(CpuId::One, &OTHERS, &OTHERS, 0));
    assert_eq!(state.cards.cpu1.len(), 1);
}

#[test]
fn the_glass_bottom_boat_looks_at_a_last_card() {
    let mut state = quiet_state();
    state.cards.cpu1.push(GLASS_BOTTOM_BOAT);
    state.cards.cpu2.push(fish_card(Rank::Eel, Suit::Green));
    state.cards.cpu3.push(fish_card(Rank::Eel, Suit::Red));
    state.cards.cpu3.push(fish_card(Rank::Eel, Suit::Blue));
    assert!(state.cpu_respond(CpuId::One, &OTHERS, &OTHERS, 0));
    assert!(state.cards.cpu2.is_empty());
    assert!(state.cards.cpu1.is_empty());
    let looked_at = state.animations.get(0);
    assert_eq!(looked_at.card, fish_card(Rank::Eel, Suit::Green));
    assert!(matches!(looked_at.action, AnimationAction::AnimateBackToHand(HandId::Cpu2)));
}

#[test]
fn the_dead_scuba_diver_completes_a_basket() {
    let mut state = quiet_state();
    for suit in [Suit::Red, Suit::Green, Suit::Blue, Suit::Yellow] {
        state.cards.cpu1.push(fish_card(Rank::Whale, suit));
    }
    state.cards.cpu1.push(DEAD_SCUBA_DIVER);
    state.cards.cpu1.push(fish_card(Rank::Eel, Suit::Red));
    assert!(state.cpu_respond(CpuId::One, &OTHERS, &OTHERS, 0));
    assert_eq!(state.cards.cpu1.iter(), vec![fish_card(Rank::Eel, Suit::Red)]);
    assert_eq!(state.cards.cpu1_baskets.len(), 5);
    assert!(state.cards.cpu1_baskets.contains(DEAD_SCUBA_DIVER));
}
