use blackjack::game::rules::{
    check_dealer_blackjack, check_insurance_payout, check_player_blackjack, determine_winner,
    RoundOutcome,
};
use blackjack::models::card::{Card, Rank, Suit};
use blackjack::models::hand::Hand;

fn card(rank: Rank) -> Card {
    Card::new(rank, Suit::Hearts)
}

fn hand_of(ranks: &[Rank]) -> Hand {
    let mut hand = Hand::new();
    for rank in ranks {
        hand.add_card(card(*rank));
    }
    hand
}

#[test]
fn player_bust_loses_even_vs_dealer_bust() {
    let player = hand_of(&[Rank::Ten, Rank::Ten, Rank::Five]);
    let dealer = hand_of(&[Rank::Ten, Rank::Ten, Rank::Ten]);
    assert_eq!(determine_winner(&player, &dealer), RoundOutcome::DealerWin);
}

#[test]
fn natural_beats_plain_twenty_one() {
    let player = hand_of(&[Rank::Ace, Rank::King]);
    let dealer = hand_of(&[Rank::Seven, Rank::Seven, Rank::Seven]);
    assert_eq!(
        determine_winner(&player, &dealer),
        RoundOutcome::PlayerBlackjack
    );
}

#[test]
fn dealer_bust_wins_and_equal_totals_push() {
    let player = hand_of(&[Rank::Ten, Rank::Nine]);
    let dealer = hand_of(&[Rank::Ten, Rank::Ten, Rank::Five]);
    assert_eq!(determine_winner(&player, &dealer), RoundOutcome::PlayerWin);
    let tie = hand_of(&[Rank::Ten, Rank::Nine]);
    assert_eq!(determine_winner(&player, &tie), RoundOutcome::Push);
}

#[test]
fn insurance_pays_only_on_dealer_blackjack() {
    let natural = hand_of(&[Rank::Ace, Rank::Ten]);
    let plain = hand_of(&[Rank::Ten, Rank::Nine]);
    assert!(check_insurance_payout(&natural));
    assert!(!check_insurance_payout(&plain));
    assert!(check_dealer_blackjack(&natural));
    assert!(check_player_blackjack(&natural));
}

#[test]
fn higher_total_wins_and_lower_loses() {
    let player = hand_of(&[Rank::Ten, Rank::Eight]);
    let dealer = hand_of(&[Rank::Ten, Rank::Seven]);
    assert_eq!(determine_winner(&player, &dealer), RoundOutcome::PlayerWin);
    assert_eq!(determine_winner(&dealer, &player), RoundOutcome::DealerWin);
}

#[test]
fn dealer_natural_beats_player_twenty_one() {
    let dealer = hand_of(&[Rank::Ace, Rank::Queen]);
    let player = hand_of(&[Rank::Seven, Rank::Seven, Rank::Seven]);
    assert_eq!(determine_winner(&player, &dealer), RoundOutcome::DealerWin);
}

#[test]
fn two_naturals_push() {
    let dealer = hand_of(&[Rank::Ace, Rank::Queen]);
    let natural = hand_of(&[Rank::King, Rank::Ace]);
    assert_eq!(determine_winner(&natural, &dealer), RoundOutcome::Push);
}
