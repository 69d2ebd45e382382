//! Blackjack rules: hand comparison and insurance resolution.
use vstd::prelude::*;

use crate::models::card::Card;
use crate::models::hand::{hand_is_blackjack, hand_is_busted, hand_value, Hand};

verus! {

/// How a settled hand turned out for the player.
#[derive(Debug, Clone, Copy, PartialEq, Eq, Structural)]
pub enum RoundOutcome {
    /// Player natural blackjack (dealer does not have one) — pays 3:2.
    PlayerBlackjack,
    /// Player total beats the dealer's (or the dealer busted).
    PlayerWin,
    /// Equal totals — the stake is returned.
    Push,
    /// Player total loses (including a bust).
    DealerWin,
}

/// The outcome of a finished player hand against the dealer's hand: a bust
/// loses; a natural beats a dealer without one; a dealer natural beats any
/// other hand; a dealer bust loses to a live hand; otherwise the higher
/// total wins and equal totals push (so two naturals push).
pub open spec fn outcome(player: Seq<Card>, dealer: Seq<Card>) -> RoundOutcome {
    if hand_is_busted(player) {
        RoundOutcome::DealerWin
    } else if hand_is_blackjack(player) && !hand_is_blackjack(dealer) {
        RoundOutcome::PlayerBlackjack
    } else if hand_is_blackjack(dealer) && !hand_is_blackjack(player) {
        RoundOutcome::DealerWin
    } else if hand_is_busted(dealer) {
        RoundOutcome::PlayerWin
    } else if hand_value(player) > hand_value(dealer) {
        RoundOutcome::PlayerWin
    } else if hand_value(player) == hand_value(dealer) {
        RoundOutcome::Push
    } else {
        RoundOutcome::DealerWin
    }
}

/// Compares a finished player hand against the dealer's hand.
///
/// A player bust loses immediately; a natural blackjack beats any
/// non-blackjack dealer hand; a dealer natural beats any other hand; a
/// dealer bust beats any live player hand; otherwise the higher total wins
/// and equal totals push, so two naturals push.
pub fn determine_winner(player_hand: &Hand, dealer_hand: &Hand) -> (r: RoundOutcome)
    requires
        player_hand.fits(),
        dealer_hand.fits(),
    ensures
        r == outcome(player_hand@, dealer_hand@),
{
    if player_hand.is_busted() {
        return RoundOutcome::DealerWin;
    }
    if player_hand.is_blackjack() && !dealer_hand.is_blackjack() {
        return RoundOutcome::PlayerBlackjack;
    }
    if dealer_hand.is_blackjack() && !player_hand.is_blackjack() {
        return RoundOutcome::DealerWin;
    }
    if dealer_hand.is_busted() {
        return RoundOutcome::PlayerWin;
    }
    let p = player_hand.get_value();
    let d = dealer_hand.get_value();
    if p > d {
        RoundOutcome::PlayerWin
    } else if p == d {
        RoundOutcome::Push
    } else {
        RoundOutcome::DealerWin
    }
}

/// Whether the hand is a natural blackjack.
pub fn check_player_blackjack(hand: &Hand) -> (b: bool)
    requires
        hand.fits(),
    ensures
        b == hand_is_blackjack(hand@),
{
    hand.is_blackjack()
}

/// Whether the dealer was dealt a natural blackjack.
pub fn check_dealer_blackjack(hand: &Hand) -> (b: bool)
    requires
        hand.fits(),
    ensures
        b == hand_is_blackjack(hand@),
{
    hand.is_blackjack()
}

/// Whether outstanding insurance bets pay out (only on a dealer blackjack).
pub fn check_insurance_payout(dealer_hand: &Hand) -> (b: bool)
    requires
        dealer_hand.fits(),
    ensures
        b == hand_is_blackjack(dealer_hand@),
{
    dealer_hand.is_blackjack()
}

/// How a finished hand compares with the dealer's, case by case: a player
/// bust always loses; a natural against a hand that is not one wins 3:2 for
/// the player and loses for the player against the dealer's; two naturals
/// push; otherwise a dealer bust loses to the player, and between two live
/// totals the higher one wins and equal ones push, whatever the total.
pub proof fn law_outcome_compares_totals(player: Seq<Card>, dealer: Seq<Card>)
    ensures
        hand_is_busted(player) ==> outcome(player, dealer) == RoundOutcome::DealerWin,
        !hand_is_busted(player) && hand_is_blackjack(player) && !hand_is_blackjack(dealer)
            ==> outcome(player, dealer) == RoundOutcome::PlayerBlackjack,
        !hand_is_busted(player) && !hand_is_blackjack(player) && hand_is_blackjack(dealer)
            ==> outcome(player, dealer) == RoundOutcome::DealerWin,
        hand_is_blackjack(player) && hand_is_blackjack(dealer) ==> outcome(player, dealer)
            == RoundOutcome::Push,
        !hand_is_blackjack(player) && !hand_is_blackjack(dealer) && !hand_is_busted(player)
            ==> {
            &&& hand_is_busted(dealer) ==> outcome(player, dealer) == RoundOutcome::PlayerWin
            &&& !hand_is_busted(dealer) && hand_value(player) > hand_value(dealer) ==> outcome(
                player,
                dealer,
            ) == RoundOutcome::PlayerWin
            &&& !hand_is_busted(dealer) && hand_value(player) == hand_value(dealer) ==> outcome(
                player,
                dealer,
            ) == RoundOutcome::Push
            &&& !hand_is_busted(dealer) && hand_value(player) < hand_value(dealer) ==> outcome(
                player,
                dealer,
            ) == RoundOutcome::DealerWin
        },
{
}

} // verus!
