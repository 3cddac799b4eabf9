//! Scoring of guesses in a five-letter word game, and the decisions of a
//! playing session.

pub mod scoring;
pub mod session;
pub mod verdict;

pub use scoring::check_guess_vec;
pub use session::{Game, TurnOutcome};
pub use verdict::{GuessResult, LetterState};
