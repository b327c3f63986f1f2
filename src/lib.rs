//! A five-letter word-guessing game: the scoring of guesses and the state
//! machine of one game, with their contracts.
//!
//! `scoring` marks a guess against the target, letter by letter; `vocabulary`
//! holds the words that may be guessed and picks the target among them;
//! `game` is one game, modelled by `GameState`; `session` maps key presses to
//! the operations of a game; `laws` states and proves what holds of every
//! game.

pub mod game;
pub mod laws;
pub mod scoring;
pub mod session;
pub mod vocabulary;

pub use game::{App, GameState, GuessError, Outcome, MAX_ROUNDS};
pub use scoring::{encode_feedback, is_all_correct, score_guess, Mark};
pub use session::{Key, KeyInput};
pub use vocabulary::{WordList, WordSourceError, WORD_LENGTH};
