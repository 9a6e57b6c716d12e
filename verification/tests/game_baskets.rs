use twisted_fish::game::anytime::find_almost_complete_baskets;
use twisted_fish::game::baskets::{collect_baskets, remove_basket};
use twisted_fish::memories::Memories;
use twisted_fish::models::{fish_card, Hand, Rank, Suit};

#[test]
fn find_almost_complete_baskets_works_on_this_previously_panicking_example() {
    let mut hand = Hand::default();
    hand.push(65);
    hand.push(17);
    hand.push(67);
    hand.push(27);
    hand.push(fish_card(Rank::Dogfish, Suit::Yellow));
    hand.push(fish_card(Rank::Dogfish, Suit::Purple));
    hand.push(42);
    hand.push(30);

    assert_eq!(find_almost_complete_baskets(&hand), None);
}

#[test]
fn game_find_almost_complete_baskets_works_on_this_previously_panicking_example() {
    let mut hand = Hand::default();
    hand.push(65);
    hand.push(17);
    hand.push(67);
    hand.push(27);
    hand.push(fish_card(Rank::Dogfish, Suit::Yellow));
    hand.push(fish_card(Rank::Dogfish, Suit::Purple));
    hand.push(42);
    hand.push(30);

    assert_eq!(find_almost_complete_baskets(&hand), None);
}

#[test]
fn find_almost_complete_baskets_works_on_this_simplifed_previously_panicking_example() {
    let mut hand = Hand::default();

    hand.push(fish_card(Rank::Dogfish, Suit::Yellow));
    hand.push(fish_card(Rank::Dogfish, Suit::Purple));

    assert_eq!(find_almost_complete_baskets(&hand), None);
}

#[test]
fn game_find_almost_complete_baskets_works_on_this_simplifed_previously_panicking_example() {
    let mut hand = Hand::default();

    hand.push(fish_card(Rank::Dogfish, Suit::Yellow));
    hand.push(fish_card(Rank::Dogfish, Suit::Purple));

    assert_eq!(find_almost_complete_baskets(&hand), None);
}

#[test]
fn find_almost_complete_baskets_returns_none_on_this_previously_misbehaving_example() {
    let mut hand = Hand::default();
    hand.push(fish_card(Rank::Dogfish, Suit::Yellow));

    assert_eq!(find_almost_complete_baskets(&hand), None);
}

#[test]
fn game_find_almost_complete_baskets_returns_none_on_this_previously_misbehaving_example() {
    let mut hand = Hand::default();
    hand.push(fish_card(Rank::Dogfish, Suit::Yellow));

    assert_eq!(find_almost_complete_baskets(&hand), None);
}

#[test]
fn find_almost_complete_baskets_works_on_this_smaller_example() {
    let mut hand = Hand::default();
    hand.push(65);
    hand.push(17);
    hand.push(67);
    hand.push(27);

    assert_eq!(find_almost_complete_baskets(&hand), None);
}

#[test]
fn game_find_almost_complete_baskets_works_on_this_smaller_example() {
    let mut hand = Hand::default();
    hand.push(65);
    hand.push(17);
    hand.push(67);
    hand.push(27);

    assert_eq!(find_almost_complete_baskets(&hand), None);
}

#[test]
fn find_almost_complete_baskets_finds_four_of_a_rank() {
    let mut hand = Hand::default();
    hand.push(fish_card(Rank::Crab, Suit::Red));
    hand.push(fish_card(Rank::Eel, Suit::Red));
    hand.push(fish_card(Rank::Crab, Suit::Green));
    hand.push(fish_card(Rank::Crab, Suit::Blue));
    hand.push(fish_card(Rank::Crab, Suit::Purple));

    let baskets = find_almost_complete_baskets(&hand).expect("four crabs");
    assert_eq!(baskets[Rank::Crab as usize], Some([0, 2, 3, 4]));
    assert_eq!(baskets[Rank::Eel as usize], None);
}

#[test]
fn remove_basket_takes_out_the_five_cards_of_a_rank() {
    let mut hand = Hand::default();
    hand.push(fish_card(Rank::Eel, Suit::Red));
    for suit in [Suit::Red, Suit::Green, Suit::Blue, Suit::Yellow, Suit::Purple] {
        hand.push(fish_card(Rank::Crab, suit));
    }

    let basket = remove_basket(&mut hand).expect("a basket of crabs");
    assert_eq!(
        basket,
        [
            fish_card(Rank::Crab, Suit::Purple),
            fish_card(Rank::Crab, Suit::Yellow),
            fish_card(Rank::Crab, Suit::Blue),
            fish_card(Rank::Crab, Suit::Green),
            fish_card(Rank::Crab, Suit::Red),
        ]
    );
    assert_eq!(hand.len(), 1);
    assert_eq!(hand.get(0), Some(fish_card(Rank::Eel, Suit::Red)));
    assert_eq!(remove_basket(&mut hand), None);
}

#[test]
fn collect_baskets_leaves_no_basket_and_keeps_every_card() {
    let mut hand = Hand::default();
    for rank in [Rank::Crab, Rank::Whale] {
        for suit in [Suit::Red, Suit::Green, Suit::Blue, Suit::Yellow, Suit::Purple] {
            hand.push(fish_card(rank, suit));
        }
    }
    hand.push(fish_card(Rank::Eel, Suit::Blue));
    let mut baskets = Hand::default();
    let mut memories = Memories::default();

    collect_baskets(&mut hand, &mut baskets, &mut memories);

    assert_eq!(hand.len(), 1);
    assert_eq!(baskets.len(), 10);
    assert_eq!(remove_basket(&mut hand), None);
}
