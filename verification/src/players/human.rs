//! The human player. The prompts themselves are terminal I/O; what the
//! player types is interpreted by [`crate::utils::text`].
use vstd::prelude::*;

use crate::models::card::Card;
use crate::players::player::{is_bet_option, Player, PlayerType, MIN_BET, PLAYER_START_COINS};

verus! {

/// The human participant, wrapping [`Player`] state.
#[derive(Debug)]
pub struct HumanPlayer {
    /// Shared player state.
    pub player: Player,
}

impl HumanPlayer {
    /// Creates the human player with the starting coins.
    pub fn new(name: &str) -> (h: HumanPlayer)
        ensures
            h.player.name@ == name@,
            h.player.player_type == PlayerType::Human,
            h.player.hand@ == Seq::<Card>::empty(),
            h.player.coins == PLAYER_START_COINS,
            h.player.bet == 0,
            h.player.insurance_bet == 0,
            !h.player.has_surrendered,
            h.player.points == 0,
            h.player.prestige == 0,
    {
        HumanPlayer { player: Player::new(name, PlayerType::Human, PLAYER_START_COINS) }
    }

    /// The smallest bet option the player can currently afford (the bet
    /// taken when input ends). The smallest option is the minimum bet, so
    /// this is always the minimum bet, which is affordable unless the game
    /// is over.
    pub fn first_affordable_bet(&self) -> (b: u32)
        ensures
            b == MIN_BET,
            is_bet_option(b),
            b <= self.player.coins <==> MIN_BET <= self.player.coins,
    {
        let options = crate::players::player::BET_OPTIONS;
        let mut i: usize = 0;
        while i < 3
            invariant
                i <= 3,
                options@ == seq![10u32, 50u32, 100u32],
                forall|j: int| 0 <= j < i ==> options@[j] > self.player.coins,
            decreases 3 - i,
        {
            if options[i] <= self.player.coins {
                return options[i];
            }
            i = i + 1;
        }
        MIN_BET
    }
}

} // verus!
