//! Game flow: persistent state, rules, and the round state machine.
pub mod round;
pub mod rules;
pub mod state;

pub use round::play_round;
pub use rules::RoundOutcome;
pub use state::BlackjackGame;
