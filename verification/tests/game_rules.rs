use twisted_fish::game::animation::{Animation, AnimationAction, Animations};
use twisted_fish::game::anytime::{AnytimeCard, PlayAnytimeFlags};
use twisted_fish::game::cards::{Cards, FullHandId};
use twisted_fish::game::question::Question;
use twisted_fish::game::zingers::{discard_two_fisted_fisherman, force_into_start_of_hand};
use twisted_fish::models::{fish_card, HandId, Predicate, Rank, Suit, Targeting, TWO_FISTED_FISHERMAN};
use twisted_fish::game::layout::fit_to_rest_of_window;
use twisted_fish::platform_types::unscaled::{Rect, H, W, X, XY, Y};

#[test]
fn flags_combine_as_sets() {
    let gw = PlayAnytimeFlags::GW;
    let di = PlayAnytimeFlags::DI;
    assert_eq!(gw.bitor(di), PlayAnytimeFlags::DI_GW);
    assert_eq!(gw.bitor(di).bits(), gw.bits() | di.bits());
    assert_eq!(PlayAnytimeFlags::DI_GBB_GW.bitand(PlayAnytimeFlags::DSD_GBB), PlayAnytimeFlags::GBB);
    assert!(PlayAnytimeFlags::DI_GW.contains(AnytimeCard::GameWarden));
    assert!(!PlayAnytimeFlags::DI_GW.contains(AnytimeCard::GlassBottomBoat));
    assert!(PlayAnytimeFlags::DSD.is_single());
    assert!(!PlayAnytimeFlags::DSD_GW.is_single());
    assert_eq!(PlayAnytimeFlags::from_bits(13), PlayAnytimeFlags::DI_DSD_GW);
}

#[test]
fn anytime_cards_cycle_through_the_flags_only() {
    let flags = PlayAnytimeFlags::DI_GW;
    let next = AnytimeCard::GameWarden.wrapping_inc(flags);
    assert_eq!(next, AnytimeCard::DivineIntervention);
    assert_eq!(next.wrapping_inc(flags), AnytimeCard::GameWarden);
    assert_eq!(AnytimeCard::GameWarden.wrapping_dec(flags), AnytimeCard::DivineIntervention);
    let mut card = AnytimeCard::GlassBottomBoat;
    card.clamp_to(flags);
    assert!(flags.contains(card));
}

#[test]
fn an_animation_reaches_its_target_three_pixels_a_frame() {
    let mut anim = Animation::default();
    anim.at = XY { x: X(0), y: Y(10) };
    anim.target = XY { x: X(7), y: Y(9) };
    anim.delay = 1;
    assert!(!anim.advance());
    assert_eq!(anim.at, XY { x: X(0), y: Y(10) });
    assert!(!anim.advance());
    assert_eq!(anim.at, XY { x: X(3), y: Y(9) });
    assert!(!anim.advance());
    assert!(anim.advance());
    assert!(anim.is_done());
    assert!(!anim.advance());
}

#[test]
fn animations_start_in_the_first_free_slot() {
    let mut animations = Animations::default();
    let mut anim = Animation::default();
    anim.target = XY { x: X(5), y: Y(0) };
    anim.card = 3;
    animations.push(anim);
    let mut other = Animation::default();
    other.target = XY { x: X(9), y: Y(0) };
    other.card = 4;
    animations.push(other);
    assert_eq!(animations.get(0).card, 3);
    assert_eq!(animations.get(1).card, 4);
    assert_eq!(animations.iter().len(), 2);
    assert!(!animations.all_done());
}

#[test]
fn the_player_asks_in_words() {
    let mut question = Question::new(
        Targeting { source: HandId::Player, target: HandId::Cpu1 },
        Predicate::RankSuit(Rank::Shrimp, Suit::Red),
    );
    assert_eq!(question.fresh_ask_description(), b"Cpu 1, do you have the Red Shrimp?");
}

#[test]
fn playing_the_two_fisted_fisherman_sends_it_to_the_discard_pile() {
    let mut cards = Cards::default();
    cards.cpu1.push(fish_card(Rank::Eel, Suit::Red));
    cards.cpu1.push(TWO_FISTED_FISHERMAN);
    let mut animations = Animations::default();
    discard_two_fisted_fisherman(&mut cards, &mut animations, HandId::Cpu1);
    assert_eq!(cards.cpu1.iter(), vec![fish_card(Rank::Eel, Suit::Red)]);
    let anim = animations.get(0);
    assert_eq!(anim.card, TWO_FISTED_FISHERMAN);
    assert!(matches!(anim.action, AnimationAction::AddToDiscard(_)));
}

#[test]
fn a_card_can_be_forced_to_the_front_of_a_hand() {
    let mut cards = Cards::default();
    for card in 0..10 {
        cards.deck.push(card);
    }
    cards.player.push(20);
    cards.player.push(21);
    force_into_start_of_hand(&mut cards, 4, FullHandId::Player);
    assert_eq!(cards.player.iter(), vec![4, 21, 20]);
    assert_eq!(cards.deck.len(), 9);
    assert!(!cards.deck.contains(4));
}

#[test]
fn the_rest_of_a_window_stops_at_its_margin() {
    let window = Rect { x: X(64), y: Y(64), w: W(352), h: H(192) };
    let rest = fit_to_rest_of_window(XY { x: X(67), y: Y(67) }, window);
    assert_eq!(rest, Rect { x: X(67), y: Y(67), w: W(346), h: H(186) });
}
