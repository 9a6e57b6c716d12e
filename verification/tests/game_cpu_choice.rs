use twisted_fish::game::animation::Animations;
use twisted_fish::game::cards::Cards;
use twisted_fish::game::cpu_choice::{choose_cpu_play, CpuChoice, ZingerToPlay};
use twisted_fish::game::state::{CpuMenu, State};
use twisted_fish::memories::Memories;
use twisted_fish::models::{
    fish_card, CpuId, HandId, Predicate, Rank, Suit, Targeting, NO_FISHING, THE_NET,
};

fn in_order() -> [u8; 73] {
    let mut cards = [0u8; 73];
    for (i, card) in cards.iter_mut().enumerate() {
        *card = i as u8;
    }
    cards
}

#[test]
fn a_cpu_with_no_cards_is_dead_in_the_water() {
    let cards = Cards::default();
    let memories = Memories::default();
    assert_eq!(
        choose_cpu_play(&cards, &[], &memories, CpuId::One, false, 0, Suit::Red, 0),
        CpuChoice::DeadInTheWater
    );
}

#[test]
fn a_cpu_that_knows_nothing_guesses_with_its_first_fish() {
    let mut cards = Cards::default();
    cards.cpu2.push(fish_card(Rank::Whale, Suit::Blue));
    cards.cpu2.push(fish_card(Rank::Eel, Suit::Blue));
    let memories = Memories::default();
    assert_eq!(
        choose_cpu_play(&cards, &[], &memories, CpuId::Two, false, 1, Suit::Yellow, 0),
        CpuChoice::Ask(
            Targeting { source: HandId::Cpu2, target: HandId::Player },
            Predicate::RankSuit(Rank::Whale, Suit::Yellow),
        )
    );
}

#[test]
fn a_cpu_with_only_no_fishing_does_nothing() {
    let mut cards = Cards::default();
    cards.cpu1.push(NO_FISHING);
    let memories = Memories::default();
    assert_eq!(
        choose_cpu_play(&cards, &[], &memories, CpuId::One, false, 0, Suit::Red, 0),
        CpuChoice::Zinger(ZingerToPlay::DoNotPlay)
    );
}

#[test]
fn the_net_is_not_played_after_doing_something() {
    let mut cards = Cards::default();
    cards.cpu3.push(fish_card(Rank::Crab, Suit::Green));
    cards.cpu3.push(THE_NET);
    let memories = Memories::default();
    assert_eq!(
        choose_cpu_play(&cards, &[], &memories, CpuId::Three, true, 2, Suit::Purple, 0),
        CpuChoice::Ask(
            Targeting { source: HandId::Cpu3, target: HandId::Cpu2 },
            Predicate::RankSuit(Rank::Crab, Suit::Purple),
        )
    );
}

#[test]
fn a_cpu_with_nothing_to_do_is_dead_in_the_water() {
    let mut state = State::new(in_order());
    state.animations = Animations::default();
    state.cards = Cards::default();
    state.cards.cpu1.push(NO_FISHING);
    state.cpu_select(CpuId::One, 0, Suit::Red, 0, 7);
    assert!(matches!(state.cpu_menu, CpuMenu::DeadInTheWater));
}

#[test]
fn a_cpu_that_guesses_starts_asking() {
    let mut state = State::new(in_order());
    state.animations = Animations::default();
    state.cards = Cards::default();
    state.cards.cpu1.push(fish_card(Rank::Shrimp, Suit::Red));
    state.cpu_select(CpuId::One, 2, Suit::Green, 0, 7);
    match &state.cpu_menu {
        CpuMenu::Asking(question) => {
            assert_eq!(question.targeting, Targeting { source: HandId::Cpu1, target: HandId::Player });
            assert_eq!(question.predicate, Predicate::RankSuit(Rank::Shrimp, Suit::Green));
        }
        _ => panic!("expected a question"),
    }
    assert!(state.done_something_this_turn);
}
