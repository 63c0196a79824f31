//! A five-letter word guessing game: dictionary loading, guess validation,
//! per-letter feedback and the rules that end a session.
//!
//! The library computes and decides; it reads no input and prints nothing.
//! A program hands it the word list and each line that the player types,
//! and prints the lines that it hands back.

pub mod dictionary;
pub mod feedback;
pub mod game;
pub mod paint;
pub mod random;
pub mod render;
pub mod text;

pub use dictionary::{words_list, WORD_LENGTH};
pub use feedback::LetterStatus;
pub use game::{GameOutcome, GuessError, WordlerGame, MAX_TRIES};
pub use text::sanitize_word;
