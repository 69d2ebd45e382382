//! Cards, the deck, and hands.
pub mod card;
pub mod deck;
pub mod hand;
