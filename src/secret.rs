//! The secret word of each day, drawn from the candidate words with a
//! generator seeded by the date.

use rand::rngs::StdRng;
use vstd::prelude::*;
use crate::calendar::CalendarDate;
use crate::model::AppError;

verus! {

/// The place that a generator seeded with `seed` draws among `len` places.
pub uninterp spec fn drawn_index(seed: u64, len: nat) -> nat;

/// Relies on rand's `StdRng::seed_from_u64` and `IteratorRandom::choose`:
/// `choose` returns `None` only for an empty iterator; on an iterator whose
/// size hint is exact, as that of a slice is, it returns the item at the
/// place `gen_index(rng, len)`, which depends on the seed and the length
/// alone.
#[verifier::external_body]
fn draw_index(seed: u64, words: &Vec<String>) -> (r: Option<usize>)
    ensures
        r is None <==> words@.len() == 0,
        r matches Some(i) ==> i < words@.len() && i == drawn_index(seed, words@.len()),
{
    let mut rng: StdRng = rand::SeedableRng::seed_from_u64(seed);
    rand::seq::IteratorRandom::choose(words.iter().enumerate(), &mut rng).map(|(i, _)| i)
}

/// The seed of a day: the number of whole days between it and 1 January of
/// year 1, without sign.
pub open spec fn seed_of(date: CalendarDate) -> u64 {
    let days = date.spec_days_since_epoch();
    (if days < 0 {
        -days
    } else {
        days
    }) as u64
}

/// The views of a list of words.
pub open spec fn words_view(words: Seq<String>) -> Seq<Seq<char>> {
    words.map_values(|w: String| w@)
}

/// The place of the secret word of `date` in a pool of `len` candidates.
pub open spec fn secret_index(date: CalendarDate, len: nat) -> int {
    drawn_index(seed_of(date), len) as int
}

/// The secret word of `date` among `pool`.
pub open spec fn secret_word(date: CalendarDate, pool: Seq<Seq<char>>) -> Seq<char> {
    pool[secret_index(date, pool.len())]
}

/// The secret word of `date`: a word of `words` drawn by a generator seeded
/// with the date's seed, the same on every call for the same date and the
/// same words. Fails with `EmptyPool` when there is no word to draw.
pub fn get_today_word(date: &CalendarDate, words: &Vec<String>) -> (r: Result<String, AppError>)
    requires
        date.is_valid(),
    ensures
        r is Err <==> words@.len() == 0,
        r matches Err(e) ==> e is EmptyPool,
        r matches Ok(w) ==> {
            &&& 0 <= secret_index(*date, words@.len()) < words@.len()
            &&& w@ == secret_word(*date, words_view(words@))
        },
{
    let days = date.days_since_epoch() as i128;
    let seed: u64 = if days < 0 {
        (-days) as u64
    } else {
        days as u64
    };
    match draw_index(seed, words) {
        Some(i) => Ok(words[i].clone()),
        None => Err(AppError::EmptyPool),
    }
}

/// The secret word depends on nothing but the date and the candidate words:
/// two draws with the same arguments give the same word.
pub proof fn lemma_secret_deterministic(
    date1: CalendarDate,
    date2: CalendarDate,
    pool1: Seq<Seq<char>>,
    pool2: Seq<Seq<char>>,
)
    requires
        date1 == date2,
        pool1 == pool2,
    ensures
        secret_word(date1, pool1) == secret_word(date2, pool2),
{
}

} // verus!
