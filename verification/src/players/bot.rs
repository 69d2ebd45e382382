//! The bot players and their ("average") AI decisions.
use vstd::prelude::*;

use crate::models::card::{rank_value, Card, Rank};
use crate::models::hand::{hand_is_blackjack, hand_is_soft, hand_value};
use crate::players::player::{Player, PlayerAction, PlayerType, PLAYER_START_COINS};
use crate::utils::text::{decimal, u64_to_decimal};

verus! {

/// Whether a dealer upcard counts as strong enough for a bot to give up a hard 16.
pub open spec fn strong_upcard(up: Card) -> bool {
    match up.rank {
        Rank::Nine | Rank::Ten | Rank::Jack | Rank::Queen | Rank::King | Rank::Ace => true,
        _ => false,
    }
}

/// The "average" bot strategy (roughly basic strategy):
/// a natural stands; a hard 16 surrenders against a dealer 9/10/face/ace;
/// a soft hand stands on 18+ and hits below; a hard 17+ stands; 11 or less
/// hits; a hard 12-16 hits only against a dealer upcard worth 7 or more.
pub open spec fn bot_action(hand: Seq<Card>, up: Card) -> PlayerAction {
    let v = hand_value(hand);
    if hand_is_blackjack(hand) {
        PlayerAction::Stand
    } else if v == 16 && !hand_is_soft(hand) && strong_upcard(up) {
        PlayerAction::Surrender
    } else if hand_is_soft(hand) {
        if v >= 18 {
            PlayerAction::Stand
        } else {
            PlayerAction::Hit
        }
    } else if v >= 17 {
        PlayerAction::Stand
    } else if v <= 11 {
        PlayerAction::Hit
    } else if rank_value(up.rank) >= 7 {
        PlayerAction::Hit
    } else {
        PlayerAction::Stand
    }
}

/// The name of bot number `id`: "Bot " followed by the number.
pub open spec fn bot_name(id: nat) -> Seq<char> {
    "Bot "@ + decimal(id)
}

/// An AI participant, wrapping [`Player`] state with bot decisions.
#[derive(Debug)]
pub struct BotPlayer {
    /// Shared player state.
    pub player: Player,
}

impl BotPlayer {
    /// Creates a bot named `Bot {id}` with the starting coins.
    pub fn new(id: usize) -> (b: BotPlayer)
        ensures
            b.player.name@ == bot_name(id as nat),
            b.player.player_type == PlayerType::Bot,
            b.player.hand@ == Seq::<Card>::empty(),
            b.player.coins == PLAYER_START_COINS,
            b.player.bet == 0,
            b.player.insurance_bet == 0,
            !b.player.has_surrendered,
            b.player.points == 0,
            b.player.prestige == 0,
    {
        proof {
            reveal_strlit("Bot ");
        }
        let mut name = String::from_str("Bot ");
        let digits = u64_to_decimal(id as u64);
        name.append(digits.as_str());
        BotPlayer { player: Player::new(name.as_str(), PlayerType::Bot, PLAYER_START_COINS) }
    }

    /// Matches the human's bet. A bot short on coins goes all-in; a broke
    /// bot sits the round out (returns `None`).
    pub fn match_bet(&mut self, human_bet: u32) -> (r: Option<u32>)
        ensures
            old(self).player.coins == 0 || human_bet == 0 ==> r is None && *final(self) == *old(
                self,
            ),
            old(self).player.coins > 0 && human_bet > 0 ==> {
                let amount = if human_bet < old(self).player.coins {
                    human_bet
                } else {
                    old(self).player.coins
                };
                &&& r == Some(amount)
                &&& final(self).player == (Player {
                    bet: amount,
                    coins: (old(self).player.coins - amount) as u32,
                    ..old(self).player
                })
            },
    {
        if self.player.coins == 0 {
            return None;
        }
        let amount = if human_bet < self.player.coins {
            human_bet
        } else {
            self.player.coins
        };
        match self.player.place_bet(amount) {
            Ok(()) => Some(amount),
            Err(_) => None,
        }
    }

    /// Whether the bot buys insurance. The average AI knows insurance is a
    /// losing bet, so bots always decline.
    pub fn wants_insurance(&self) -> (b: bool)
        ensures
            !b,
    {
        false
    }

    /// Picks the next action ("average" AI, roughly basic strategy):
    ///
    /// - surrenders hard 16 against a dealer 9/10/A,
    /// - stands on any hard 17+ and any soft 18+,
    /// - hits 11 and below, and soft hands below 18,
    /// - otherwise (hard 12–16) hits only against a strong dealer upcard
    ///   (7 through ace).
    pub fn decide_action(&self, dealer_upcard: Card) -> (a: PlayerAction)
        requires
            self.player.hand.fits(),
        ensures
            a == bot_action(self.player.hand@, dealer_upcard),
    {
        if self.player.hand.is_blackjack() {
            return PlayerAction::Stand;
        }
        let value = self.player.hand.get_value();
        let strong = match dealer_upcard.rank {
            Rank::Nine | Rank::Ten | Rank::Jack | Rank::Queen | Rank::King | Rank::Ace => true,
            _ => false,
        };
        if value == 16 && !self.player.hand.is_soft() && strong {
            return PlayerAction::Surrender;
        }
        if self.player.hand.is_soft() {
            return if value >= 18 {
                PlayerAction::Stand
            } else {
                PlayerAction::Hit
            };
        }
        if value >= 17 {
            return PlayerAction::Stand;
        }
        if value <= 11 {
            return PlayerAction::Hit;
        }
        if dealer_upcard.value() >= 7 {
            PlayerAction::Hit
        } else {
            PlayerAction::Stand
        }
    }
}

} // verus!

verus! {

/// The bot strategy at a glance: a natural stands, a hard 17 or more
/// stands, a soft 18 or more stands, 11 or less hits, and a surrender only
/// ever gives up a hard 16.
pub proof fn law_bot_strategy(hand: Seq<Card>, up: Card)
    ensures
        hand_is_blackjack(hand) ==> bot_action(hand, up) == PlayerAction::Stand,
        !hand_is_soft(hand) && hand_value(hand) >= 17 ==> bot_action(hand, up)
            == PlayerAction::Stand,
        hand_is_soft(hand) && hand_value(hand) >= 18 ==> bot_action(hand, up)
            == PlayerAction::Stand,
        !hand_is_blackjack(hand) && hand_value(hand) <= 11 ==> bot_action(hand, up)
            == PlayerAction::Hit,
        bot_action(hand, up) == PlayerAction::Surrender ==> hand_value(hand) == 16
            && !hand_is_soft(hand),
{
}

/// The bot's decision on every hand that is not a natural, by total and
/// upcard: a hard 11 or less hits; a hard 12 to 15 hits exactly when the
/// dealer's upcard is worth 7 or more (an ace counting 11) and stands
/// otherwise; a hard 16 surrenders against a 9, a ten-card or an ace, hits
/// against a 7 or 8, and stands against 2 to 6; a hard 17 or more stands;
/// a soft hand hits below 18 and stands from 18 on.
pub proof fn law_bot_decisions(hand: Seq<Card>, up: Card)
    requires
        !hand_is_blackjack(hand),
    ensures
        !hand_is_soft(hand) && hand_value(hand) <= 11 ==> bot_action(hand, up) == PlayerAction::Hit,
        !hand_is_soft(hand) && 12 <= hand_value(hand) <= 15 ==> {
            &&& rank_value(up.rank) >= 7 ==> bot_action(hand, up) == PlayerAction::Hit
            &&& rank_value(up.rank) < 7 ==> bot_action(hand, up) == PlayerAction::Stand
        },
        !hand_is_soft(hand) && hand_value(hand) == 16 ==> {
            &&& rank_value(up.rank) >= 9 ==> bot_action(hand, up) == PlayerAction::Surrender
            &&& 7 <= rank_value(up.rank) <= 8 ==> bot_action(hand, up) == PlayerAction::Hit
            &&& rank_value(up.rank) < 7 ==> bot_action(hand, up) == PlayerAction::Stand
        },
        !hand_is_soft(hand) && hand_value(hand) >= 17 ==> bot_action(hand, up) == PlayerAction::Stand,
        hand_is_soft(hand) && hand_value(hand) < 18 ==> bot_action(hand, up) == PlayerAction::Hit,
        hand_is_soft(hand) && hand_value(hand) >= 18 ==> bot_action(hand, up) == PlayerAction::Stand,
{
}

} // verus!
