//! # blackjack
//!
//! The game logic of a CLI Blackjack table: you and two bot players against
//! the dealer, with betting (10/50/100), insurance, surrender, a point
//! system, prestige, and an automatic table reset when the dealer runs out
//! of coins.
//!
//! - [`models`] — cards, the deck, and hands
//! - [`players`] — shared player state plus human, bot, and dealer
//! - [`game`] — persistent state, rules, and the round state machine
//! - [`utils`] — text formatting and input interpretation
pub mod game;
pub mod models;
pub mod players;
pub mod utils;
