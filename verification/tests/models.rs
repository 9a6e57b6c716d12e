use twisted_fish::models::{fish_card, get_rank, get_suit, Hand, HandId, CpuId, Rank, Suit, FISH_COUNT};

#[test]
fn get_rank_and_get_suit_then_fish_card_works() {
    for card in 0..FISH_COUNT {
        let rank = get_rank(card).unwrap();
        let suit = get_suit(card).unwrap();

        assert_eq!(fish_card(rank, suit), card, "expected {rank:?}, {suit:?} -> {card:?}");
    }
}

#[test]
fn zingers_have_no_rank_or_suit() {
    assert_eq!(get_rank(FISH_COUNT), None);
    assert_eq!(get_suit(72), None);
}

#[test]
fn fish_card_counts_ranks_within_suits() {
    assert_eq!(fish_card(Rank::Barnacle, Suit::Red), 0);
    assert_eq!(fish_card(Rank::Crab, Suit::Red), 1);
    assert_eq!(fish_card(Rank::Barnacle, Suit::Green), 13);
}

#[test]
fn a_hand_gives_back_what_was_pushed_and_drawn() {
    let mut hand = Hand::default();
    assert!(hand.is_empty());
    hand.push(5);
    hand.push(9);
    assert_eq!(hand.len(), 2);
    assert_eq!(hand.last(), Some(9));
    assert_eq!(hand.draw(), Some(9));
    assert_eq!(hand.draw(), Some(5));
    assert_eq!(hand.draw(), None);
}

#[test]
fn a_hand_removes_from_the_middle() {
    let mut hand = Hand::default();
    hand.push(1);
    hand.push(2);
    hand.push(3);
    assert_eq!(hand.remove(1), Some(2));
    assert_eq!(hand.iter(), vec![1, 3]);
    assert_eq!(hand.remove(5), None);
    assert!(hand.contains(3));
    assert!(!hand.contains(2));
}

#[test]
fn turns_go_round_the_table() {
    assert_eq!(HandId::Player.next_looping(), HandId::Cpu1);
    assert_eq!(HandId::Cpu3.next_looping(), HandId::Player);
    assert_eq!(HandId::Cpu1.besides(), [HandId::Cpu2, HandId::Cpu3, HandId::Player]);
    assert_eq!(
        HandId::Cpu2.next_to_current(),
        [HandId::Cpu3, HandId::Player, HandId::Cpu1, HandId::Cpu2]
    );
}

#[test]
fn cpu_ids_wrap_both_ways() {
    assert_eq!(CpuId::Three.wrapping_inc(), CpuId::One);
    assert_eq!(CpuId::One.wrapping_dec(), CpuId::Three);
    assert_eq!(CpuId::Two.wrapping_inc().wrapping_dec(), CpuId::Two);
}
