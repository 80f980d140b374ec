//! The answers to the two requests of the game: the hints on the day's
//! secret word, and the feedback on a guess.

use vstd::prelude::*;
use crate::calendar::CalendarDate;
use crate::feedback::{case_blind_feedback, get_validation_list};
use crate::model::{AppError, AppState, GuessResponse, HintsResponse};
use crate::secret::{get_today_word, secret_word, words_view};

verus! {

/// The upper-case form of a string.
pub uninterp spec fn upper_of(s: Seq<char>) -> Seq<char>;

/// Relies on `str::to_uppercase`: the upper-case form of a string depends on
/// its characters alone.
#[verifier::external_body]
fn to_upper(s: &str) -> (r: String)
    ensures
        r@ == upper_of(s@),
{
    s.to_uppercase()
}

/// The characters of `s`, in order.
pub fn chars_of(s: &str) -> (r: Vec<char>)
    ensures
        r@ == s@,
{
    let n = s.unicode_len();
    let mut r: Vec<char> = Vec::new();
    let mut i: usize = 0;
    while i < n
        invariant
            n == s@.len(),
            i <= n,
            r@ == s@.take(i as int),
        decreases n - i,
    {
        r.push(s.get_char(i));
        i += 1;
        assert(r@ == s@.take(i as int));
    }
    assert(s@.take(n as int) == s@);
    r
}

/// Whether `word` is one of `words`.
pub fn contains_word(words: &Vec<String>, word: &String) -> (r: bool)
    ensures
        r == words_view(words@).contains(word@),
{
    let mut i: usize = 0;
    while i < words.len()
        invariant
            i <= words@.len(),
            forall|k: int| 0 <= k < i ==> words@[k]@ != word@,
        decreases words@.len() - i,
    {
        if words[i] == *word {
            assert(words_view(words@)[i as int] == word@);
            return true;
        }
        i += 1;
    }
    assert(!words_view(words@).contains(word@)) by {
        if words_view(words@).contains(word@) {
            let k = choose|k: int| 0 <= k < words@.len() && words_view(words@)[k] == word@;
            assert(words@[k]@ == word@);
        }
    }
    false
}

/// Whether `guess` may be played: a word of the dictionary, or the secret
/// word itself.
pub open spec fn is_accepted_guess(
    secret: Seq<char>,
    guess: Seq<char>,
    dictionary: Seq<Seq<char>>,
) -> bool {
    dictionary.contains(guess) || guess == secret
}

/// Whether `r` answers the guess `guess` against the secret word `secret`:
/// a guess that is neither in `dictionary` nor the secret word is refused
/// first; then one whose length differs from the secret's; any other guess
/// gets its feedback, letter case aside.
pub open spec fn is_guess_answer(
    r: Result<GuessResponse, AppError>,
    secret: Seq<char>,
    guess: Seq<char>,
    dictionary: Seq<Seq<char>>,
) -> bool {
    if !is_accepted_guess(secret, guess, dictionary) {
        r matches Err(AppError::WordNotInDictionary(w)) && w@ == guess
    } else if guess.len() != secret.len() {
        r matches Err(AppError::BadWordLength { size_expected, size_received, word_sent })
            && size_expected == secret.len() && size_received == guess.len() && word_sent@
            == guess
    } else {
        r matches Ok(response) && response.validation_list@ == case_blind_feedback(
            secret,
            guess,
        )
    }
}

/// Checks a guess against the secret word and the dictionary, and answers
/// it. Membership in the dictionary and equality with the secret are exact,
/// so both words are expected in the case the dictionary is written in.
pub fn validate_guess(secret: &Vec<char>, guess: String, dictionary: &Vec<String>) -> (r: Result<
    GuessResponse,
    AppError,
>)
    ensures
        is_guess_answer(r, secret@, guess@, words_view(dictionary@)),
{
    let guess_vec = chars_of(guess.as_str());
    if !contains_word(dictionary, &guess) && !same_chars(&guess_vec, secret) {
        return Err(AppError::WordNotInDictionary(guess));
    }
    if secret.len() != guess_vec.len() {
        return Err(
            AppError::BadWordLength {
                size_expected: secret.len(),
                size_received: guess_vec.len(),
                word_sent: guess,
            },
        );
    }
    let validation_list = get_validation_list(secret.clone(), guess_vec);
    Ok(GuessResponse { validation_list })
}

impl AppState {
    /// The length and the first letter of the secret word of `date`. Fails
    /// with `EmptyPool` when there is no playable word.
    pub fn hints(&self, date: &CalendarDate) -> (r: Result<HintsResponse, AppError>)
        requires
            date.is_valid(),
            self.playable_word_list@.len() > 0 ==> secret_word(
                *date,
                words_view(self.playable_word_list@),
            ).len() > 0,
        ensures
            r is Err <==> self.playable_word_list@.len() == 0,
            r matches Err(e) ==> e is EmptyPool,
            r matches Ok(hints) ==> {
                let secret = secret_word(*date, words_view(self.playable_word_list@));
                &&& hints.number_of_letters == secret.len()
                &&& hints.first_letter == secret[0]
            },
    {
        match get_today_word(date, &self.playable_word_list) {
            Ok(word) => {
                let letters = chars_of(word.as_str());
                Ok(HintsResponse { number_of_letters: letters.len(), first_letter: letters[0] })
            },
            Err(e) => Err(e),
        }
    }

    /// The hints of `date` where the day's secret word has a first letter;
    /// `None` where the word drawn for the day is empty.
    pub fn hints_if_any(&self, date: &CalendarDate) -> (r: Option<Result<HintsResponse, AppError>>)
        requires
            date.is_valid(),
        ensures
            r is None <==> (self.playable_word_list@.len() > 0 && secret_word(
                *date,
                words_view(self.playable_word_list@),
            ).len() == 0),
            r matches Some(Err(e)) ==> e is EmptyPool && self.playable_word_list@.len() == 0,
            r matches Some(Ok(hints)) ==> {
                let secret = secret_word(*date, words_view(self.playable_word_list@));
                &&& self.playable_word_list@.len() > 0
                &&& hints.number_of_letters == secret.len()
                &&& hints.first_letter == secret[0]
            },
    {
        if let Ok(word) = get_today_word(date, &self.playable_word_list) {
            if word.unicode_len() == 0 {
                return None;
            }
        }
        Some(self.hints(date))
    }

    /// The answer to the guess `guess` on `date`: the secret word of the day
    /// and the guess are both put in upper case, then the guess is checked
    /// against the dictionary and the secret's length, and classified.
    /// Fails with `EmptyPool` when there is no playable word.
    pub fn check_guess(&self, date: &CalendarDate, guess: &str) -> (r: Result<
        GuessResponse,
        AppError,
    >)
        requires
            date.is_valid(),
        ensures
            self.playable_word_list@.len() == 0 ==> (r matches Err(e) && e is EmptyPool),
            self.playable_word_list@.len() > 0 ==> is_guess_answer(
                r,
                upper_of(secret_word(*date, words_view(self.playable_word_list@))),
                upper_of(guess@),
                words_view(self.all_word_list@),
            ),
    {
        match get_today_word(date, &self.playable_word_list) {
            Ok(word) => {
                let secret = chars_of(to_upper(word.as_str()).as_str());
                let guess = to_upper(guess);
                validate_guess(&secret, guess, &self.all_word_list)
            },
            Err(e) => Err(e),
        }
    }
}

/// Whether two words hold the same letters in the same order.
fn same_chars(a: &Vec<char>, b: &Vec<char>) -> (r: bool)
    ensures
        r == (a@ == b@),
{
    if a.len() != b.len() {
        return false;
    }
    let mut i: usize = 0;
    while i < a.len()
        invariant
            a@.len() == b@.len(),
            i <= a@.len(),
            forall|k: int| 0 <= k < i ==> a@[k] == b@[k],
        decreases a@.len() - i,
    {
        if a[i] != b[i] {
            return false;
        }
        i += 1;
    }
    assert(a@ == b@);
    true
}

} // verus!
