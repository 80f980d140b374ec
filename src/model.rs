//! The values exchanged with the caller of the game.

use vstd::prelude::*;

verus! {

/// What one letter of a guess tells the player.
#[derive(Clone, Copy, Debug, PartialEq, Eq, Structural)]
pub enum Validation {
    /// The letter stands at this very place in the secret word.
    Correct(char),
    /// The letter occurs elsewhere in the secret word, at a place not yet
    /// accounted for.
    Present(char),
    /// No unclaimed occurrence of the letter is left in the secret word.
    NotInWord(char),
}

impl Validation {
    /// The letter of the guess that this feedback is about.
    pub open spec fn letter(self) -> char {
        match self {
            Validation::Correct(c) => c,
            Validation::Present(c) => c,
            Validation::NotInWord(c) => c,
        }
    }
}

} // verus!

verus! {

/// Why a request is refused.
#[derive(Clone, Debug, PartialEq, Eq)]
pub enum AppError {
    /// The guess does not have as many letters as the secret word.
    BadWordLength { size_expected: usize, size_received: usize, word_sent: String },
    /// The guess is neither a word of the dictionary nor the secret word.
    WordNotInDictionary(String),
    /// There is no candidate word to draw the secret word from.
    EmptyPool,
}

} // verus!

verus! {

/// The feedback on an accepted guess, one entry per letter.
#[derive(Clone, Debug, PartialEq, Eq)]
pub struct GuessResponse {
    pub validation_list: Vec<Validation>,
}

/// What a player may know of the secret word before guessing.
#[derive(Clone, Copy, Debug, PartialEq, Eq, Structural)]
pub struct HintsResponse {
    pub number_of_letters: usize,
    pub first_letter: char,
}

/// A guess as a player submits it.
#[derive(Clone, Debug, PartialEq, Eq)]
pub struct GuessBody {
    pub guess: String,
}

/// An answer to a request: the response, or why the request was refused.
#[derive(Clone, Debug, PartialEq, Eq)]
pub enum ResponseOrError<A> {
    Response(A),
    Error(AppError),
}

impl<A> ResponseOrError<A> {
    /// The HTTP status of the answer: 200 for a response, 400 for a guess
    /// that is refused, 500 when there is no secret word to play.
    pub fn status_code(&self) -> (r: u16)
        ensures
            self is Response ==> r == 200,
            self matches ResponseOrError::Error(e) ==> r == if e is EmptyPool {
                500u16
            } else {
                400u16
            },
    {
        match self {
            ResponseOrError::Response(_) => 200,
            ResponseOrError::Error(AppError::EmptyPool) => 500,
            ResponseOrError::Error(_) => 400,
        }
    }
}

/// The word lists that the game serves from, loaded once.
#[derive(Clone, Debug)]
pub struct AppState {
    /// Every word accepted as a guess.
    pub all_word_list: Vec<String>,
    /// The words that may be drawn as the secret word.
    pub playable_word_list: Vec<String>,
}

} // verus!
