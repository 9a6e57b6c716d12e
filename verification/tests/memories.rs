use twisted_fish::memories::Memory;
use twisted_fish::models::{fish_card, Hand, HandId, Predicate, Rank, Suit};

const R: Rank = Rank::Barnacle;

#[test]
fn on_this_one_found_red_example() {
    let mut my_hand = Hand::default();
    my_hand.push(fish_card(R, Suit::Green));

    let my_id = HandId::Cpu1;
    let other_id = HandId::Cpu2;

    let mut mem = Memory::default();

    mem.known(other_id, fish_card(R, Suit::Red));

    assert_eq!(mem.informed_question(&my_hand, my_id), Some((R, Suit::Red, other_id)));
}

#[test]
fn on_this_one_found_then_asked_example() {
    let mut my_hand = Hand::default();
    my_hand.push(fish_card(R, Suit::Green));

    let my_id = HandId::Cpu1;
    let other_id = HandId::Cpu2;
    let other_id_2 = HandId::Cpu3;

    let mut mem = Memory::default();

    mem.known(other_id, fish_card(R, Suit::Red));
    mem.asked_for(other_id_2, Predicate::RankSuit(R, Suit::Red));

    assert_eq!(mem.informed_question(&my_hand, my_id), Some((R, Suit::Red, other_id)));
}

#[test]
fn a_fresh_memory_knows_of_no_card_to_ask_for() {
    let mut my_hand = Hand::default();
    my_hand.push(fish_card(R, Suit::Green));
    let mem = Memory::default();
    assert_eq!(mem.question_for_known_card_with_rank(R, &my_hand, HandId::Cpu1), None);
}

#[test]
fn a_known_card_is_asked_of_its_holder() {
    let mut my_hand = Hand::default();
    my_hand.push(fish_card(R, Suit::Green));
    let mut mem = Memory::default();
    mem.known(HandId::Player, fish_card(R, Suit::Blue));
    assert_eq!(
        mem.question_for_known_card_with_rank(R, &my_hand, HandId::Cpu1),
        Some((Suit::Blue, HandId::Player))
    );
}
