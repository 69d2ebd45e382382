//! Table participants: shared player state plus human, bot, and dealer.
pub mod bot;
pub mod dealer;
pub mod human;
pub mod player;

pub use bot::BotPlayer;
pub use dealer::Dealer;
pub use human::HumanPlayer;
pub use player::{Player, PlayerAction, PlayerType};
