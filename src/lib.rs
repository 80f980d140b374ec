//! A daily word-guessing game: the secret word of each day and the
//! letter-by-letter feedback on a guess.

pub mod model;
pub mod feedback;
pub mod calendar;
pub mod secret;
pub mod game;
