//! A code-breaking game engine: settings and their validation, secret generation,
//! scoring of a guess against the secret, and the turn-by-turn state machine that
//! decides when a game is won or lost.

pub mod board;
pub mod evaluate;
pub mod guess_state;
pub mod settings;
