use blackjack::models::card::{Card, Rank, Suit};
use blackjack::models::hand::{Hand, BLACKJACK_VALUE};

fn card(rank: Rank) -> Card {
    Card::new(rank, Suit::Spades)
}

#[test]
fn ace_downgrades_to_avoid_bust() {
    let mut hand = Hand::new();
    hand.add_card(card(Rank::Ace));
    hand.add_card(card(Rank::Nine));
    assert_eq!(hand.get_value(), 20);
    assert!(hand.is_soft());
    hand.add_card(card(Rank::Eight));
    assert_eq!(hand.get_value(), 18);
    assert!(!hand.is_soft());
}

#[test]
fn natural_blackjack_requires_two_cards() {
    let mut hand = Hand::new();
    hand.add_card(card(Rank::Ace));
    hand.add_card(card(Rank::King));
    assert!(hand.is_blackjack());
    hand.add_card(card(Rank::Ten)); // 21 with three cards is not a natural
    assert_eq!(hand.get_value(), BLACKJACK_VALUE);
    assert!(!hand.is_blackjack());
}

#[test]
fn busted_hands_are_detected() {
    let mut hand = Hand::new();
    hand.add_card(card(Rank::Ten));
    hand.add_card(card(Rank::Ten));
    assert!(!hand.is_busted());
    hand.add_card(card(Rank::Five));
    assert!(hand.is_busted());
    assert_eq!(hand.get_value(), 25);
}

#[test]
fn several_aces_downgrade_one_at_a_time() {
    let mut hand = Hand::new();
    hand.add_card(card(Rank::Ace));
    hand.add_card(card(Rank::Ace));
    assert_eq!(hand.get_value(), 12);
    assert!(hand.is_soft());
    hand.add_card(card(Rank::Ace));
    hand.add_card(card(Rank::Ace));
    assert_eq!(hand.get_value(), 14);
    assert!(hand.is_soft());
    hand.add_card(card(Rank::Nine));
    assert_eq!(hand.get_value(), 13);
    assert!(!hand.is_soft());
}

#[test]
fn soft_hand_is_never_busted() {
    let mut hand = Hand::new();
    for rank in [Rank::Ace, Rank::Five, Rank::Five, Rank::Ace] {
        hand.add_card(card(rank));
        if hand.is_soft() {
            assert!(hand.get_value() <= 21);
        }
    }
    assert_eq!(hand.get_value(), 12);
}

#[test]
fn empty_hand_and_clear() {
    let mut hand = Hand::default();
    assert!(hand.is_empty());
    assert_eq!(hand.len(), 0);
    assert_eq!(hand.get_value(), 0);
    assert_eq!(hand.description(), "(no cards)");
    hand.add_card(card(Rank::Queen));
    assert_eq!(hand.cards(), &[card(Rank::Queen)]);
    hand.clear();
    assert!(hand.is_empty());
}

#[test]
fn description_lists_cards_and_value() {
    let mut hand = Hand::new();
    hand.add_card(Card::new(Rank::Ace, Suit::Spades));
    hand.add_card(Card::new(Rank::King, Suit::Hearts));
    assert_eq!(hand.description(), "A\u{2660}, K\u{2665} = 21");
    hand.add_card(Card::new(Rank::Ten, Suit::Diamonds));
    assert_eq!(hand.description(), "A\u{2660}, K\u{2665}, 10\u{2666} = 21");
}
