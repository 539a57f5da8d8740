//! A five-letter word-guessing game engine: guess scoring, the board state
//! machine, and a dictionary of legal words.

pub mod count;
pub mod scoring;
pub mod letters;
pub mod dictionary;
pub mod session;
