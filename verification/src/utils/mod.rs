//! Text helpers: number formatting and the interpretation of typed input.
pub mod text;
