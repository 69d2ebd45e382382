use blackjack::models::card::{Card, Rank, Suit};
use blackjack::models::deck::{Deck, DECK_SIZE};

#[test]
fn rank_values_follow_blackjack_counting() {
    let expected = [2u32, 3, 4, 5, 6, 7, 8, 9, 10, 10, 10, 10, 11];
    for (rank, value) in Rank::ALL.iter().zip(expected.iter()) {
        assert_eq!(rank.value(), *value);
        assert_eq!(Card::new(*rank, Suit::Clubs).value(), *value);
    }
    assert!(Rank::Ace.is_ace());
    assert!(!Rank::King.is_ace());
    assert!(Card::new(Rank::Ace, Suit::Hearts).is_ace());
}

#[test]
fn card_labels_show_rank_and_suit() {
    assert_eq!(Card::new(Rank::Ace, Suit::Spades).label(), "A\u{2660}");
    assert_eq!(Card::new(Rank::Ten, Suit::Hearts).label(), "10\u{2665}");
    assert_eq!(Card::new(Rank::Two, Suit::Diamonds).label(), "2\u{2666}");
    assert_eq!(Card::new(Rank::Queen, Suit::Clubs).label(), "Q\u{2663}");
    for (i, suit) in Suit::ALL.iter().enumerate() {
        assert_eq!(Suit::from_index(i), *suit);
    }
    for (i, rank) in Rank::ALL.iter().enumerate() {
        assert_eq!(Rank::from_index(i), *rank);
    }
}

#[test]
fn new_deck_holds_each_card_once() {
    let mut deck = Deck::new();
    assert_eq!(deck.remaining(), DECK_SIZE);
    let mut seen = Vec::new();
    while let Some(card) = deck.draw() {
        assert!(!seen.contains(&card));
        seen.push(card);
    }
    assert_eq!(seen.len(), 52);
    for suit in Suit::ALL {
        for rank in Rank::ALL {
            assert!(seen.contains(&Card::new(rank, suit)));
        }
    }
    assert_eq!(deck.remaining(), 0);
    assert_eq!(deck.draw(), None);
}

#[test]
fn draw_card_refills_an_empty_deck() {
    let mut deck = Deck::default();
    for _ in 0..52 {
        deck.draw_card();
    }
    assert_eq!(deck.remaining(), 0);
    let card = deck.draw_card();
    assert_eq!(deck.remaining(), 51);
    let mut rest = vec![card];
    while let Some(c) = deck.draw() {
        assert!(!rest.contains(&c));
        rest.push(c);
    }
    assert_eq!(rest.len(), 52);
}

#[test]
fn shuffle_keeps_the_cards() {
    let mut deck = Deck::new();
    for _ in 0..10 {
        deck.draw();
    }
    deck.shuffle();
    assert_eq!(deck.remaining(), 42);
}

#[test]
fn new_deck_is_shuffled() {
    // Drawing takes from the top (the end), so an unshuffled deck would
    // deal the build order backwards: Ace of spades first.
    let mut deck = Deck::new();
    let mut order = Vec::new();
    while let Some(card) = deck.draw() {
        order.push(card);
    }
    let mut build = Vec::new();
    for suit in Suit::ALL {
        for rank in Rank::ALL {
            build.push(Card::new(rank, suit));
        }
    }
    build.reverse();
    assert_ne!(order, build);
}
