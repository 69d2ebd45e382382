//! Central game state: table composition, deck, and reset logic.
use vstd::prelude::*;

use crate::models::card::Card;
use crate::models::deck::{standard_deck, Deck};
use crate::players::bot::{bot_name, BotPlayer};
use crate::players::dealer::Dealer;
use crate::players::human::HumanPlayer;
use crate::players::player::{Player, PlayerType, DEALER_START_COINS, MIN_BET, PLAYER_START_COINS};

verus! {

/// Reshuffle a fresh deck when fewer cards than this remain.
pub const RESHUFFLE_THRESHOLD: usize = 15;

/// How many bots sit at the table.
pub const BOT_COUNT: usize = 2;

/// On a dealer reset the dealer receives this multiple of the player's
/// fresh coins (5 × 100 = 500).
pub const DEALER_RESET_MULTIPLIER: u32 = 5;

/// All the coins at a fresh table: three players with the starting coins
/// and the dealer with the house coins.
pub open spec fn table_coins() -> int {
    3 * PLAYER_START_COINS + DEALER_START_COINS
}

/// Everything that persists across the rounds of a blackjack session.
#[derive(Debug)]
pub struct BlackjackGame {
    /// The deck cards are drawn from (reshuffled when it runs low).
    pub deck: Deck,
    /// The house dealer.
    pub dealer: Dealer,
    /// The human player.
    pub human: HumanPlayer,
    /// The bot players.
    pub bots: Vec<BotPlayer>,
    /// Number of rounds played in this session.
    pub round_number: u32,
    /// Net coins won by the human this session: every round's coin delta
    /// plus reset top-ups.
    pub winnings: i64,
    /// Set when the human quits the session early.
    pub quit_requested: bool,
}

impl BlackjackGame {
    /// Player state of bot `i`.
    pub open spec fn bot(&self, i: int) -> Player {
        self.bots@[i].player
    }

    /// Coins held by the human, the bots, and the dealer.
    pub open spec fn coins_total(&self) -> int {
        self.human.player.coins + self.dealer.player.coins + self.bot(0).coins + self.bot(1).coins
    }

    /// The table's shape: the fixed bots, a dealer that never wagers, bots
    /// that never insure, and hands whose totals fit `u32`.
    pub open spec fn structure_ok(&self) -> bool {
        &&& self.bots@.len() == BOT_COUNT
        &&& self.dealer.player.bet == 0
        &&& self.dealer.player.insurance_bet == 0
        &&& self.bot(0).insurance_bet == 0
        &&& self.bot(1).insurance_bet == 0
        &&& self.human.player.hand.fits()
        &&& self.dealer.player.hand.fits()
        &&& self.bot(0).hand.fits()
        &&& self.bot(1).hand.fits()
    }

    /// Nobody holds cards or wagers: the state between rounds.
    pub open spec fn idle(&self) -> bool {
        &&& player_idle(self.human.player)
        &&& player_idle(self.dealer.player)
        &&& player_idle(self.bot(0))
        &&& player_idle(self.bot(1))
    }

    /// Every participant's points and prestige are at most `n`.
    pub open spec fn scores_at_most(&self, n: int) -> bool {
        &&& scores_at_most(self.human.player, n)
        &&& scores_at_most(self.dealer.player, n)
        &&& scores_at_most(self.bot(0), n)
        &&& scores_at_most(self.bot(1), n)
    }

    /// The human can no longer afford the minimum bet.
    pub open spec fn game_over(&self) -> bool {
        self.human.player.coins < MIN_BET
    }

    /// The dealer can no longer cover the minimum bet.
    pub open spec fn dealer_broke(&self) -> bool {
        self.dealer.player.coins < MIN_BET
    }

    /// The state between rounds: the table's shape, no cards or wagers out,
    /// and the net winnings equal to the human's coins minus the starting coins.
    pub open spec fn at_rest(&self) -> bool {
        &&& self.structure_ok()
        &&& self.idle()
        &&& self.winnings == self.human.player.coins - PLAYER_START_COINS
    }

    /// Room in the `u32` counters for a round on the human's bet `bet`: the
    /// human's and each bot's coins can take every payout of the bet (and of
    /// the human's insurance), and no point or prestige count is at its maximum.
    pub open spec fn room_for_bet(&self, bet: u32) -> bool {
        &&& self.human.player.coins + 3 * bet <= u32::MAX
        &&& self.bot(0).coins + 2 * bet <= u32::MAX
        &&& self.bot(1).coins + 2 * bet <= u32::MAX
        &&& scores_below_max(self.human.player)
        &&& scores_below_max(self.bot(0))
        &&& scores_below_max(self.bot(1))
    }

    /// Whether a round on the human's bet `bet` keeps every count within `u32`.
    pub fn has_room_for_bet(&self, bet: u32) -> (b: bool)
        requires
            self.bots@.len() == BOT_COUNT,
        ensures
            b == self.room_for_bet(bet),
    {
        let room: u64 = u32::MAX as u64;
        let bet = bet as u64;
        let human = &self.human.player;
        let b0 = &self.bots[0].player;
        let b1 = &self.bots[1].player;
        human.coins as u64 + 3 * bet <= room && b0.coins as u64 + 2 * bet <= room
            && b1.coins as u64 + 2 * bet <= room && human.points < u32::MAX && human.prestige
            < u32::MAX && b0.points < u32::MAX && b0.prestige < u32::MAX && b1.points
            < u32::MAX && b1.prestige < u32::MAX
    }

    /// Sets up a fresh table: a shuffled deck, a dealer with house coins,
    /// and one human plus [`BOT_COUNT`] bots with starting coins.
    pub fn new(human_name: &str) -> (g: BlackjackGame)
        ensures
            g.deck@.len() == 52,
            g.deck@.to_multiset() == standard_deck().to_multiset(),
            g.dealer.player.coins == DEALER_START_COINS,
            g.dealer.player.name@ == "Dealer"@,
            g.dealer.player.player_type == PlayerType::Dealer,
            g.human.player.name@ == human_name@,
            g.human.player.player_type == PlayerType::Human,
            g.human.player.coins == PLAYER_START_COINS,
            g.bots@.len() == BOT_COUNT,
            forall|i: int|
                0 <= i < BOT_COUNT ==> (#[trigger] g.bot(i)).name@ == bot_name((i + 1) as nat)
                    && g.bot(i).coins == PLAYER_START_COINS && g.bot(i).player_type
                    == PlayerType::Bot,
            g.round_number == 0,
            g.winnings == 0,
            !g.quit_requested,
            g.at_rest(),
            g.scores_at_most(0),
    {
        let deck = Deck::new();
        let dealer = Dealer::new();
        let human = HumanPlayer::new(human_name);
        let mut bots: Vec<BotPlayer> = Vec::new();
        let mut id: usize = 1;
        while id <= BOT_COUNT
            invariant
                1 <= id <= BOT_COUNT + 1,
                bots@.len() == id - 1,
                forall|i: int|
                    0 <= i < bots@.len() ==> (#[trigger] bots@[i]).player.name@ == bot_name(
                        (i + 1) as nat,
                    ) && bots@[i].player.coins == PLAYER_START_COINS
                        && bots@[i].player.player_type == PlayerType::Bot && player_idle(
                        bots@[i].player,
                    ) && scores_at_most(bots@[i].player, 0),
            decreases BOT_COUNT + 1 - id,
        {
            bots.push(BotPlayer::new(id));
            id = id + 1;
        }
        BlackjackGame {
            deck,
            dealer,
            human,
            bots,
            round_number: 0,
            winnings: 0,
            quit_requested: false,
        }
    }

    /// Whether the deck has dipped below the reshuffle threshold.
    pub fn needs_reshuffle(&self) -> (b: bool)
        ensures
            b == (self.deck@.len() < RESHUFFLE_THRESHOLD),
    {
        self.deck.remaining() < RESHUFFLE_THRESHOLD
    }

    /// Replaces the deck with a freshly shuffled one.
    pub fn reshuffle_deck(&mut self)
        ensures
            final(self).deck@.len() == 52,
            final(self).deck@.to_multiset() == standard_deck().to_multiset(),
            *final(self) == (BlackjackGame { deck: final(self).deck, ..*old(self) }),
    {
        self.deck = Deck::new();
    }

    /// Whether the human can no longer afford the minimum bet (game over).
    pub fn is_game_over(&self) -> (b: bool)
        ensures
            b == self.game_over(),
    {
        self.human.player.coins < MIN_BET
    }

    /// Marks the session as quit by the human.
    pub fn request_quit(&mut self)
        ensures
            *final(self) == (BlackjackGame { quit_requested: true, ..*old(self) }),
    {
        self.quit_requested = true;
    }

    /// Whether the human quit the session early.
    pub fn is_quit(&self) -> (b: bool)
        ensures
            b == self.quit_requested,
    {
        self.quit_requested
    }

    /// Whether the dealer can no longer cover the minimum bet.
    pub fn dealer_is_broke(&self) -> (b: bool)
        ensures
            b == self.dealer_broke(),
    {
        self.dealer.player.coins < MIN_BET
    }

    /// Resets the table after the dealer runs dry: everyone returns to
    /// their starting coins, the dealer receives 5× the player's fresh
    /// coins, and the points are cleared.
    pub fn reset_game(&mut self)
        requires
            i64::MIN <= old(self).winnings + PLAYER_START_COINS - old(self).human.player.coins
                <= i64::MAX,
        ensures
            final(self).winnings == old(self).winnings + PLAYER_START_COINS - old(
                self,
            ).human.player.coins,
            final(self).human.player == (Player {
                coins: PLAYER_START_COINS,
                points: 0,
                ..old(self).human.player
            }),
            final(self).dealer.player == (Player {
                coins: (PLAYER_START_COINS * DEALER_RESET_MULTIPLIER) as u32,
                points: 0,
                ..old(self).dealer.player
            }),
            final(self).bots@.len() == old(self).bots@.len(),
            forall|i: int|
                0 <= i < old(self).bots@.len() ==> (#[trigger] final(self).bots@[i]).player == (Player {
                    coins: PLAYER_START_COINS,
                    points: 0,
                    ..old(self).bots@[i].player
                }),
            final(self).deck == old(self).deck,
            final(self).round_number == old(self).round_number,
            final(self).quit_requested == old(self).quit_requested,
    {
        self.winnings = self.winnings + (PLAYER_START_COINS as i64 - self.human.player.coins as i64);
        self.human.player.reset_coins(PLAYER_START_COINS);
        self.human.player.reset_points();
        self.dealer.player.reset_coins(PLAYER_START_COINS * DEALER_RESET_MULTIPLIER);
        self.dealer.player.reset_points();
        let ghost human = self.human;
        let ghost dealer = self.dealer;
        let ghost winnings = self.winnings;
        let mut i: usize = 0;
        while i < self.bots.len()
            invariant
                i <= self.bots@.len(),
                self.bots@.len() == old(self).bots@.len(),
                forall|j: int|
                    0 <= j < i ==> (#[trigger] self.bots@[j]).player == (Player {
                        coins: PLAYER_START_COINS,
                        points: 0,
                        ..old(self).bots@[j].player
                    }),
                forall|j: int| i <= j < self.bots@.len() ==> #[trigger] self.bots@[j] == old(self).bots@[j],
                self.human == human,
                self.dealer == dealer,
                self.winnings == winnings,
                self.deck == old(self).deck,
                self.round_number == old(self).round_number,
                self.quit_requested == old(self).quit_requested,
            decreases self.bots@.len() - i,
        {
            let ghost prev = self.bots@;
            self.bots[i].player.reset_coins(PLAYER_START_COINS);
            self.bots[i].player.reset_points();
            i = i + 1;
        }
    }
}

/// No cards, no bet, no insurance, no surrender.
pub open spec fn player_idle(p: Player) -> bool {
    &&& p.hand@ == Seq::<Card>::empty()
    &&& p.bet == 0
    &&& p.insurance_bet == 0
    &&& !p.has_surrendered
}

/// Points and prestige are at most `n`.
pub open spec fn scores_at_most(p: Player, n: int) -> bool {
    p.points <= n && p.prestige <= n
}

/// Points and prestige can each grow by one more.
pub open spec fn scores_below_max(p: Player) -> bool {
    p.points < u32::MAX && p.prestige < u32::MAX
}

} // verus!
