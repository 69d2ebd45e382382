//! The dealer and the house turn logic.
use vstd::prelude::*;

use crate::models::card::Card;
use crate::models::deck::{draws_from, lemma_draws_extend, lemma_draws_none, Deck};
use crate::models::hand::{hand_is_soft, hand_value, lemma_push, lemma_value_at_least_len};
use crate::players::player::{Player, PlayerType, DEALER_START_COINS};

verus! {

/// The house rule: the dealer hits below 17 and on a soft 17.
pub open spec fn dealer_hits(cards: Seq<Card>) -> bool {
    hand_value(cards) < 17 || (hand_value(cards) == 17 && hand_is_soft(cards))
}

/// The house dealer, wrapping [`Player`] state.
#[derive(Debug)]
pub struct Dealer {
    /// Shared player state.
    pub player: Player,
}

impl Dealer {
    /// Creates the dealer with the house starting coins.
    pub fn new() -> (d: Dealer)
        ensures
            d.player.name@ == "Dealer"@,
            d.player.player_type == PlayerType::Dealer,
            d.player.hand@ == Seq::<Card>::empty(),
            d.player.coins == DEALER_START_COINS,
            d.player.bet == 0,
            d.player.insurance_bet == 0,
            !d.player.has_surrendered,
            d.player.points == 0,
            d.player.prestige == 0,
    {
        Dealer { player: Player::new("Dealer", PlayerType::Dealer, DEALER_START_COINS) }
    }

    /// The dealer's face-up card (the first card dealt).
    pub fn upcard(&self) -> (c: Option<Card>)
        ensures
            self.player.hand@.len() == 0 ==> c is None,
            self.player.hand@.len() > 0 ==> c == Some(self.player.hand@[0]),
    {
        let cards = self.player.hand.cards();
        if cards.len() == 0 {
            None
        } else {
            Some(cards[0])
        }
    }

    /// Plays the dealer's turn: hits while the total is under 17 or the hand
    /// is a soft 17 (house rule), standing on hard 17 or more.
    ///
    /// Returns the cards drawn during the turn so the caller can display them.
    pub fn play_turn(&mut self, deck: &mut Deck) -> (drawn: Vec<Card>)
        requires
            old(self).player.hand.fits(),
        ensures
            final(self).player.hand@ == old(self).player.hand@ + drawn@,
            final(self).player.hand.fits(),
            !dealer_hits(final(self).player.hand@),
            forall|k: int|
                0 <= k < drawn@.len() ==> dealer_hits(
                    #[trigger] (old(self).player.hand@ + drawn@.take(k)),
                ),
            draws_from(old(deck)@, final(deck)@, drawn@),
            final(self).player == (Player { hand: final(self).player.hand, ..old(self).player }),
    {
        let mut drawn: Vec<Card> = Vec::new();
        let ghost h0 = self.player.hand@;
        let ghost d0 = deck@;
        proof {
            lemma_draws_none(d0);
            assert(h0 + drawn@ =~= h0);
        }
        loop
            invariant
                self.player.hand@ == h0 + drawn@,
                self.player.hand.fits(),
                forall|k: int| 0 <= k < drawn@.len() ==> dealer_hits(#[trigger] (h0 + drawn@.take(k))),
                draws_from(d0, deck@, drawn@),
                self.player == (Player { hand: self.player.hand, ..old(self).player }),
            ensures
                self.player.hand@ == h0 + drawn@,
                self.player.hand.fits(),
                !dealer_hits(self.player.hand@),
                forall|k: int| 0 <= k < drawn@.len() ==> dealer_hits(#[trigger] (h0 + drawn@.take(k))),
                draws_from(d0, deck@, drawn@),
                self.player == (Player { hand: self.player.hand, ..old(self).player }),
            decreases if self.player.hand@.len() <= 18 { 18 - self.player.hand@.len() } else { 0 },
        {
            let value = self.player.hand.get_value();
            let hits = value < 17 || (value == 17 && self.player.hand.is_soft());
            if !hits {
                break;
            }
            proof {
                lemma_value_at_least_len(self.player.hand@);
            }
            let ghost before = deck@;
            let ghost hand_before = self.player.hand@;
            let ghost drawn_before = drawn@;
            assert(dealer_hits(hand_before));
            let card = deck.draw_card();
            self.player.hand.add_card(card);
            proof {
                lemma_push(hand_before, card);
                lemma_draws_extend(d0, before, deck@, drawn@, card);
            }
            drawn.push(card);
            proof {
                assert forall|k: int| 0 <= k < drawn@.len() implies dealer_hits(
                    #[trigger] (h0 + drawn@.take(k)),
                ) by {
                    if k == drawn@.len() - 1 {
                        assert(h0 + drawn@.take(k) =~= hand_before);
                    } else {
                        assert(drawn@.take(k) =~= drawn_before.take(k));
                        assert(dealer_hits(h0 + drawn_before.take(k)));
                    }
                }
                assert(h0 + drawn@ =~= hand_before.push(card));
            }
        }
        drawn
    }
}

impl Default for Dealer {
    fn default() -> (d: Dealer)
        ensures
            d.player.name@ == "Dealer"@,
            !d.player.has_surrendered,
            d.player.coins == DEALER_START_COINS,
            d.player.hand@ == Seq::<Card>::empty(),
            d.player.player_type == PlayerType::Dealer,
            d.player.bet == 0,
            d.player.insurance_bet == 0,
            d.player.points == 0,
            d.player.prestige == 0,
    {
        Self::new()
    }
}

} // verus!

verus! {

/// The dealer stops only on 17 or more, and never on a soft 17.
pub proof fn law_dealer_stands_on_hard_17(cards: Seq<Card>)
    ensures
        !dealer_hits(cards) ==> hand_value(cards) >= 17 && (hand_value(cards) == 17
            ==> !hand_is_soft(cards)),
{
}

/// The house rule by total: the dealer hits on 16 or less, on 17 exactly
/// when the 17 is soft, and never on 18 or more, soft or hard.
pub proof fn law_dealer_rule(cards: Seq<Card>)
    ensures
        hand_value(cards) <= 16 ==> dealer_hits(cards),
        hand_value(cards) == 17 ==> (dealer_hits(cards) <==> hand_is_soft(cards)),
        hand_value(cards) >= 18 ==> !dealer_hits(cards),
{
}

/// A dealer turn as `Dealer::play_turn` states it (a hit before every card
/// drawn, a stand at the end) draws nothing from a hand worth 18 or more or
/// a hard 17, and draws at least one card from a hand worth 16 or less or a
/// soft 17; every card it draws is drawn while the hand is under 17 or a
/// soft 17.
pub proof fn law_dealer_turn_draws(start: Seq<Card>, drawn: Seq<Card>)
    requires
        !dealer_hits(start + drawn),
        forall|k: int| 0 <= k < drawn.len() ==> dealer_hits(#[trigger] (start + drawn.take(k))),
    ensures
        hand_value(start) >= 18 || (hand_value(start) == 17 && !hand_is_soft(start)) ==> drawn.len()
            == 0,
        hand_value(start) <= 16 || (hand_value(start) == 17 && hand_is_soft(start)) ==> drawn.len()
            > 0,
        forall|k: int|
            0 <= k < drawn.len() ==> hand_value(#[trigger] (start + drawn.take(k))) < 17 || (
            hand_value(start + drawn.take(k)) == 17 && hand_is_soft(start + drawn.take(k))),
{
    if drawn.len() > 0 {
        assert(start + drawn.take(0) =~= start);
        assert(dealer_hits(start + drawn.take(0)));
    } else {
        assert(start + drawn =~= start);
    }
}

} // verus!
