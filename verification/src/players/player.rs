//! The shared [`Player`] state used by the human, bots, and dealer.
use vstd::prelude::*;

use crate::models::card::Card;
use crate::models::hand::{hand_description, Hand};
use crate::utils::text::{decimal, u64_to_decimal};

verus! {

/// Coins a human or bot player starts with.
pub const PLAYER_START_COINS: u32 = 100;

/// Coins the dealer starts with (5× the player's fresh coins).
pub const DEALER_START_COINS: u32 = 500;

/// The smallest allowed bet; a player below this cannot keep playing.
pub const MIN_BET: u32 = 10;

/// The bet amounts the CLI accepts.
pub const BET_OPTIONS: [u32; 3] = [10, 50, 100];

/// Whether `amount` is one of the accepted bet amounts (10, 50, 100).
pub open spec fn is_bet_option(amount: u32) -> bool {
    amount == 10 || amount == 50 || amount == 100
}

/// Which kind of participant a [`Player`] represents.
#[derive(Debug, Clone, Copy, PartialEq, Eq, Structural)]
pub enum PlayerType {
    /// The human at the keyboard.
    Human,
    /// An AI opponent.
    Bot,
    /// The house dealer.
    Dealer,
}

/// A decision a player can make on their turn.
#[derive(Debug, Clone, Copy, PartialEq, Eq, Structural)]
pub enum PlayerAction {
    /// Take another card.
    Hit,
    /// Stop taking cards.
    Stand,
    /// Forfeit the hand for half the bet back (first decision only).
    Surrender,
}

/// The error text for a zero bet.
pub open spec fn zero_bet_message() -> Seq<char> {
    "the bet must be greater than zero"@
}

/// The error text for a bet the player cannot cover.
pub open spec fn short_bet_message(amount: nat, coins: nat) -> Seq<char> {
    "not enough coins: needs "@ + decimal(amount) + ", has "@ + decimal(coins)
}

/// The error text for insurance without a bet.
pub open spec fn no_bet_insurance_message() -> Seq<char> {
    "insurance requires a placed bet"@
}

/// The error text for insurance the player cannot cover.
pub open spec fn short_insurance_message(cost: nat) -> Seq<char> {
    "not enough coins for insurance (needs "@ + decimal(cost) + ")"@
}

/// Shared state and bookkeeping for one participant of the table.
#[derive(Debug)]
pub struct Player {
    /// Display name ("You", "Bot 1", "Dealer", ...).
    pub name: String,
    /// What kind of participant this is.
    pub player_type: PlayerType,
    /// Current hand.
    pub hand: Hand,
    /// Coins left.
    pub coins: u32,
    /// Coins wagered on the current hand (already deducted from the coins).
    pub bet: u32,
    /// Insurance stake for the current hand (half the bet; already deducted).
    pub insurance_bet: u32,
    /// Whether the player gave this hand up.
    pub has_surrendered: bool,
    /// Win/loss score: +1 per win, −1 per loss, never below 0.
    pub points: u32,
    /// Prestige: +1 for each winning hand that wipes out the dealer's bankroll.
    pub prestige: u32,
}

impl Player {
    /// Creates a player with a fresh, empty hand.
    pub fn new(name: &str, player_type: PlayerType, coins: u32) -> (p: Player)
        ensures
            p.name@ == name@,
            p.player_type == player_type,
            p.hand@ == Seq::<Card>::empty(),
            p.coins == coins,
            p.bet == 0,
            p.insurance_bet == 0,
            !p.has_surrendered,
            p.points == 0,
            p.prestige == 0,
    {
        Player {
            name: String::from_str(name),
            player_type,
            hand: Hand::new(),
            coins,
            bet: 0,
            insurance_bet: 0,
            has_surrendered: false,
            points: 0,
            prestige: 0,
        }
    }

    /// Wagers `amount`, deducting it from the coins.
    pub fn place_bet(&mut self, amount: u32) -> (r: Result<(), String>)
        ensures
            r is Ok <==> 0 < amount <= old(self).coins,
            r is Ok ==> *final(self) == (Player {
                bet: amount,
                coins: (old(self).coins - amount) as u32,
                ..*old(self)
            }),
            r is Err ==> *final(self) == *old(self),
            amount == 0 ==> (r matches Err(e) && e@ == zero_bet_message()),
            amount > old(self).coins ==> (r matches Err(e) && e@ == short_bet_message(
                amount as nat,
                old(self).coins as nat,
            )),
    {
        if amount == 0 {
            proof {
                reveal_strlit("the bet must be greater than zero");
            }
            return Err(String::from_str("the bet must be greater than zero"));
        }
        if amount > self.coins {
            proof {
                reveal_strlit("not enough coins: needs ");
                reveal_strlit(", has ");
            }
            let mut e = String::from_str("not enough coins: needs ");
            let a = u64_to_decimal(amount as u64);
            e.append(a.as_str());
            e.append(", has ");
            let c = u64_to_decimal(self.coins as u64);
            e.append(c.as_str());
            return Err(e);
        }
        self.bet = amount;
        self.coins = self.coins - amount;
        Ok(())
    }

    /// Buys insurance for half the current bet (only offered on a dealer ace).
    pub fn buy_insurance(&mut self) -> (r: Result<(), String>)
        ensures
            r is Ok <==> old(self).bet > 0 && old(self).coins >= old(self).bet / 2,
            r is Ok ==> *final(self) == (Player {
                coins: (old(self).coins - old(self).bet / 2) as u32,
                insurance_bet: old(self).bet / 2,
                ..*old(self)
            }),
            r is Err ==> *final(self) == *old(self),
            old(self).bet == 0 ==> (r matches Err(e) && e@ == no_bet_insurance_message()),
            old(self).bet > 0 && old(self).coins < old(self).bet / 2 ==> (r matches Err(e) && e@
                == short_insurance_message((old(self).bet / 2) as nat)),
    {
        if self.bet == 0 {
            proof {
                reveal_strlit("insurance requires a placed bet");
            }
            return Err(String::from_str("insurance requires a placed bet"));
        }
        let cost = self.bet / 2;
        if self.coins < cost {
            proof {
                reveal_strlit("not enough coins for insurance (needs ");
                reveal_strlit(")");
            }
            let mut e = String::from_str("not enough coins for insurance (needs ");
            let c = u64_to_decimal(cost as u64);
            e.append(c.as_str());
            e.append(")");
            return Err(e);
        }
        self.coins = self.coins - cost;
        self.insurance_bet = cost;
        Ok(())
    }

    /// Wins the hand at even money: stake back plus the dealer's match.
    /// Counts as +1 point.
    pub fn win(&mut self)
        requires
            old(self).coins + 2 * old(self).bet <= u32::MAX,
            old(self).points < u32::MAX,
        ensures
            *final(self) == (Player {
                coins: (old(self).coins + 2 * old(self).bet) as u32,
                points: (old(self).points + 1) as u32,
                ..*old(self)
            }),
    {
        self.coins = self.coins + self.bet * 2;
        self.add_point();
    }

    /// Wins with a natural blackjack, paid 3:2. Counts as +1 point.
    pub fn win_blackjack(&mut self)
        requires
            3 * old(self).bet <= u32::MAX,
            old(self).coins + old(self).bet + 3 * old(self).bet / 2 <= u32::MAX,
            old(self).points < u32::MAX,
        ensures
            *final(self) == (Player {
                coins: (old(self).coins + old(self).bet + 3 * old(self).bet / 2) as u32,
                points: (old(self).points + 1) as u32,
                ..*old(self)
            }),
    {
        self.coins = self.coins + self.bet + self.bet * 3 / 2;
        self.add_point();
    }

    /// Cashes out a winning insurance bet, paid 2:1 (stake back plus twice
    /// the stake), and clears the insurance stake.
    pub fn win_insurance(&mut self)
        requires
            old(self).coins + 3 * old(self).insurance_bet <= u32::MAX,
        ensures
            *final(self) == (Player {
                coins: (old(self).coins + 3 * old(self).insurance_bet) as u32,
                insurance_bet: 0,
                ..*old(self)
            }),
    {
        self.coins = self.coins + self.insurance_bet * 3;
        self.insurance_bet = 0;
    }

    /// Forfeits a losing insurance bet (the stake was already deducted).
    pub fn lose_insurance(&mut self)
        ensures
            *final(self) == (Player { insurance_bet: 0, ..*old(self) }),
    {
        self.insurance_bet = 0;
    }

    /// Ties the hand: the stake is returned and no points change.
    pub fn push(&mut self)
        requires
            old(self).coins + old(self).bet <= u32::MAX,
        ensures
            *final(self) == (Player {
                coins: (old(self).coins + old(self).bet) as u32,
                ..*old(self)
            }),
    {
        self.coins = self.coins + self.bet;
    }

    /// Surrenders the hand: half the stake back and a lost point.
    pub fn surrender(&mut self)
        requires
            old(self).coins + old(self).bet / 2 <= u32::MAX,
        ensures
            *final(self) == (Player {
                has_surrendered: true,
                coins: (old(self).coins + old(self).bet / 2) as u32,
                points: if old(self).points > 0 { (old(self).points - 1) as u32 } else { 0 },
                ..*old(self)
            }),
    {
        self.has_surrendered = true;
        self.coins = self.coins + self.bet / 2;
        self.subtract_point();
    }

    /// Loses the hand (the stake is already deducted). Counts as −1 point.
    pub fn lose(&mut self)
        ensures
            *final(self) == (Player {
                points: if old(self).points > 0 { (old(self).points - 1) as u32 } else { 0 },
                ..*old(self)
            }),
    {
        self.subtract_point();
    }

    /// Adds one point.
    pub fn add_point(&mut self)
        requires
            old(self).points < u32::MAX,
        ensures
            *final(self) == (Player { points: (old(self).points + 1) as u32, ..*old(self) }),
    {
        self.points = self.points + 1;
    }

    /// Removes one point, never dropping below zero.
    pub fn subtract_point(&mut self)
        ensures
            *final(self) == (Player {
                points: if old(self).points > 0 { (old(self).points - 1) as u32 } else { 0 },
                ..*old(self)
            }),
    {
        if self.points > 0 {
            self.points = self.points - 1;
        }
    }

    /// Adds one prestige.
    pub fn add_prestige(&mut self)
        requires
            old(self).prestige < u32::MAX,
        ensures
            *final(self) == (Player { prestige: (old(self).prestige + 1) as u32, ..*old(self) }),
    {
        self.prestige = self.prestige + 1;
    }

    /// Sets the points back to zero.
    pub fn reset_points(&mut self)
        ensures
            *final(self) == (Player { points: 0, ..*old(self) }),
    {
        self.points = 0;
    }

    /// Replaces the player's coins (used by the game reset logic).
    pub fn reset_coins(&mut self, coins: u32)
        ensures
            *final(self) == (Player { coins: coins, ..*old(self) }),
    {
        self.coins = coins;
    }

    /// Clears the hand and all per-round state (bet, insurance, surrender).
    pub fn clear_hand(&mut self)
        ensures
            final(self).hand@ == Seq::<Card>::empty(),
            final(self).bet == 0,
            final(self).insurance_bet == 0,
            !final(self).has_surrendered,
            final(self).name == old(self).name,
            final(self).player_type == old(self).player_type,
            final(self).coins == old(self).coins,
            final(self).points == old(self).points,
            final(self).prestige == old(self).prestige,
    {
        self.hand.clear();
        self.bet = 0;
        self.insurance_bet = 0;
        self.has_surrendered = false;
    }

    /// Whether an insurance stake is riding on this hand.
    pub fn has_insurance(&self) -> (b: bool)
        ensures
            b == (self.insurance_bet > 0),
    {
        self.insurance_bet > 0
    }

    /// A human-readable description of the hand, e.g. `A♠, K♥ = 21`.
    pub fn get_hand_description(&self) -> (s: String)
        requires
            self.hand.fits(),
        ensures
            s@ == hand_description(self.hand@),
    {
        self.hand.description()
    }
}

} // verus!
