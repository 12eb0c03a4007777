//! A word-guessing game: a secret word, the letters proposed so far, and a
//! small budget of wrong guesses.

pub mod draw;
pub mod model;
pub mod session;
pub mod text;

pub use model::{Session, WordError, NUM_GUESSES};
pub use session::Hangman;
