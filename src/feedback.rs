//! The feedback on a guess, with the two-pass rule for repeated letters.

use std::collections::HashMap;
use vstd::prelude::*;
use crate::model::Validation;

verus! {

broadcast use vstd::std_specs::hash::group_hash_axioms;

/// Number of places the secret and the guess are compared at: the shorter
/// of the two lengths.
pub open spec fn paired_len(secret: Seq<char>, guess: Seq<char>) -> int {
    if secret.len() <= guess.len() {
        secret.len() as int
    } else {
        guess.len() as int
    }
}

/// Places `k < i` where the letters differ and the secret holds `c`: the
/// occurrences of `c` in the secret that a `Correct` has not claimed.
pub open spec fn unclaimed_count(secret: Seq<char>, guess: Seq<char>, c: char, i: int) -> nat
    decreases i,
{
    if i <= 0 {
        0
    } else {
        unclaimed_count(secret, guess, c, i - 1) + if secret[i - 1] != guess[i - 1]
            && secret[i - 1] == c {
            1nat
        } else {
            0nat
        }
    }
}

/// Places `k < i` where the letters differ and the guess holds `c`: the
/// earlier places of the guess that compete for an unclaimed `c`.
pub open spec fn missed_count(secret: Seq<char>, guess: Seq<char>, c: char, i: int) -> nat
    decreases i,
{
    if i <= 0 {
        0
    } else {
        missed_count(secret, guess, c, i - 1) + if secret[i - 1] != guess[i - 1] && guess[i
            - 1] == c {
            1nat
        } else {
            0nat
        }
    }
}

/// The feedback at place `i`: `Correct` where the letters agree; otherwise
/// `Present` while earlier misplaced copies of the letter have not used up
/// the secret's unclaimed occurrences of it, `NotInWord` once they have.
pub open spec fn feedback_at(secret: Seq<char>, guess: Seq<char>, i: int) -> Validation {
    let c = guess[i];
    if secret[i] == c {
        Validation::Correct(c)
    } else if missed_count(secret, guess, c, i) < unclaimed_count(
        secret,
        guess,
        c,
        paired_len(secret, guess),
    ) {
        Validation::Present(c)
    } else {
        Validation::NotInWord(c)
    }
}

/// The feedback on a whole guess, one entry per compared place.
pub open spec fn feedback(secret: Seq<char>, guess: Seq<char>) -> Seq<Validation> {
    Seq::new(paired_len(secret, guess) as nat, |i: int| feedback_at(secret, guess, i))
}

/// The classification of the first pass, before unclaimed occurrences are
/// counted.
spec fn tentative(secret: Seq<char>, guess: Seq<char>, i: int) -> Validation {
    let c = guess[i];
    if secret[i] == c {
        Validation::Correct(c)
    } else if secret.contains(c) {
        Validation::Present(c)
    } else {
        Validation::NotInWord(c)
    }
}

/// Unclaimed occurrences of `c` left once the places before `i` have made
/// their claims.
spec fn still_unclaimed(secret: Seq<char>, guess: Seq<char>, c: char, i: int) -> int {
    let total = unclaimed_count(secret, guess, c, paired_len(secret, guess));
    let claims = missed_count(secret, guess, c, i);
    if claims < total {
        total - claims
    } else {
        0
    }
}

/// The count that `counts` keeps for the letter `c`.
spec fn count_in(counts: Map<u32, usize>, c: char) -> int {
    if counts.contains_key(c as u32) {
        counts[c as u32] as int
    } else {
        0
    }
}

proof fn lemma_unclaimed_bounded(secret: Seq<char>, guess: Seq<char>, c: char, i: int)
    requires
        0 <= i,
    ensures
        unclaimed_count(secret, guess, c, i) <= i,
    decreases i,
{
    if i > 0 {
        lemma_unclaimed_bounded(secret, guess, c, i - 1);
    }
}

/// A letter absent from the secret has no unclaimed occurrence.
proof fn lemma_unclaimed_absent(secret: Seq<char>, guess: Seq<char>, c: char, i: int)
    requires
        0 <= i <= secret.len(),
        !secret.contains(c),
    ensures
        unclaimed_count(secret, guess, c, i) == 0,
    decreases i,
{
    if i > 0 {
        lemma_unclaimed_absent(secret, guess, c, i - 1);
        if secret[i - 1] == c {
            assert(secret.contains(c));
        }
    }
}

fn contains_char(word: &Vec<char>, c: char) -> (r: bool)
    ensures
        r == word@.contains(c),
{
    let mut i: usize = 0;
    while i < word.len()
        invariant
            i <= word@.len(),
            forall|k: int| 0 <= k < i ==> word@[k] != c,
        decreases word@.len() - i,
    {
        if word[i] == c {
            return true;
        }
        i += 1;
    }
    false
}

/// Classifies each letter of `guess_word` against the secret `word`, place
/// by place, over the places both words have, comparing letters exactly:
/// this is the step that follows putting both words in one case.
///
/// A first pass marks the places where the letters agree as `Correct`, and
/// counts, for each letter of the secret at the other places, how many of
/// its occurrences are left unclaimed; a misplaced letter is tentatively
/// `Present` when the secret holds it at all. A second pass, left to right,
/// lets each tentative `Present` claim one unclaimed occurrence of its
/// letter and turns it into `NotInWord` when none is left.
pub fn classify_canonical(word: Vec<char>, guess_word: Vec<char>) -> (r: Vec<Validation>)
    ensures
        r@ == feedback(word@, guess_word@),
{
    let n: usize = if word.len() <= guess_word.len() {
        word.len()
    } else {
        guess_word.len()
    };
    let ghost s = word@;
    let ghost g = guess_word@;
    let mut validation_list: Vec<Validation> = Vec::new();
    let mut chars_not_found: HashMap<u32, usize> = HashMap::new();

    let mut i: usize = 0;
    while i < n
        invariant
            s == word@,
            g == guess_word@,
            n == paired_len(s, g),
            i <= n,
            validation_list@.len() == i,
            forall|k: int| 0 <= k < i ==> validation_list@[k] == tentative(s, g, k),
            forall|c: char| #[trigger]
                count_in(chars_not_found@, c) == unclaimed_count(s, g, c, i as int),
        decreases n - i,
    {
        let char_word = word[i];
        let char_guessed = guess_word[i];
        let ghost old_counts = chars_not_found@;
        let ghost old_list = validation_list@;
        let validation = if char_word == char_guessed {
            Validation::Correct(char_guessed)
        } else {
            let key = char_word as u32;
            let count: usize = match chars_not_found.get(&key) {
                Some(v) => *v,
                None => 0,
            };
            proof {
                lemma_unclaimed_bounded(s, g, char_word, i as int);
                assert(count == count_in(chars_not_found@, char_word));
            }
            chars_not_found.insert(key, count + 1);
            if contains_char(&word, char_guessed) {
                Validation::Present(char_guessed)
            } else {
                Validation::NotInWord(char_guessed)
            }
        };
        validation_list.push(validation);
        assert(validation_list@ == old_list.push(tentative(s, g, i as int)));
        assert forall|c: char| #[trigger]
            count_in(chars_not_found@, c) == unclaimed_count(s, g, c, i + 1) by {
            assert(count_in(old_counts, c) == unclaimed_count(s, g, c, i as int));
            if char_word == char_guessed {
                assert(chars_not_found@ == old_counts);
            } else {
                vstd::utf8::char_u32_cast(c, c as u32);
                vstd::utf8::char_u32_cast(char_word, char_word as u32);
                assert(chars_not_found@ == old_counts.insert(
                    char_word as u32,
                    (count_in(old_counts, char_word) + 1) as usize,
                ));
            }
        }
        i += 1;
    }

    let mut i: usize = 0;
    while i < n
        invariant
            s == word@,
            g == guess_word@,
            n == paired_len(s, g),
            i <= n,
            validation_list@.len() == n,
            forall|k: int| 0 <= k < i ==> validation_list@[k] == feedback_at(s, g, k),
            forall|k: int| i <= k < n ==> validation_list@[k] == tentative(s, g, k),
            forall|c: char| #[trigger]
                count_in(chars_not_found@, c) == still_unclaimed(s, g, c, i as int),
        decreases n - i,
    {
        let ghost old_counts = chars_not_found@;
        let ghost gc = g[i as int];
        proof {
            if s[i as int] != gc && !s.contains(gc) {
                lemma_unclaimed_absent(s, g, gc, n as int);
            }
        }
        if let Validation::Present(char_guessed) = validation_list[i] {
            let key = char_guessed as u32;
            let count: usize = match chars_not_found.get(&key) {
                Some(v) => *v,
                None => 0,
            };
            assert(count == count_in(chars_not_found@, char_guessed));
            if count > 0 {
                chars_not_found.insert(key, count - 1);
            } else {
                validation_list.set(i, Validation::NotInWord(char_guessed));
            }
        }
        assert forall|c: char| #[trigger]
            count_in(chars_not_found@, c) == still_unclaimed(s, g, c, i + 1) by {
            assert(count_in(old_counts, c) == still_unclaimed(s, g, c, i as int));
            vstd::utf8::char_u32_cast(c, c as u32);
            vstd::utf8::char_u32_cast(gc, gc as u32);
        }
        i += 1;
    }
    validation_list
}

/// The upper-case mapping of a character: one character or more.
pub uninterp spec fn upper_char_of(c: char) -> Seq<char>;

/// Relies on `char::to_uppercase`: the characters of the upper-case mapping
/// of `c`, which depends on `c` alone.
#[verifier::external_body]
fn upper_char(c: char) -> (r: Vec<char>)
    ensures
        r@ == upper_char_of(c),
{
    c.to_uppercase().collect()
}

/// The form in which a letter is compared and reported: its upper-case
/// mapping where that is a single character, the letter itself where the
/// mapping takes several characters (as for `ß`), so that places stay aligned.
pub open spec fn canonical_letter(c: char) -> char {
    let upper = upper_char_of(c);
    if upper.len() == 1 {
        upper[0]
    } else {
        c
    }
}

/// Each letter of `word` in the form it is compared in.
pub open spec fn canonical_word(word: Seq<char>) -> Seq<char> {
    word.map_values(|c: char| canonical_letter(c))
}

/// The feedback on `guess` against `secret`, letter case aside: both words
/// are put in one case, then classified.
pub open spec fn case_blind_feedback(secret: Seq<char>, guess: Seq<char>) -> Seq<Validation> {
    feedback(canonical_word(secret), canonical_word(guess))
}

/// The form in which the letter `c` is compared and reported.
pub fn canonical_letter_of(c: char) -> (r: char)
    ensures
        r == canonical_letter(c),
{
    let upper = upper_char(c);
    if upper.len() == 1 {
        upper[0]
    } else {
        c
    }
}

/// Each letter of `word` in the form it is compared in.
pub fn canonical_word_of(word: &Vec<char>) -> (r: Vec<char>)
    ensures
        r@ == canonical_word(word@),
{
    let mut r: Vec<char> = Vec::new();
    let mut i: usize = 0;
    while i < word.len()
        invariant
            i <= word@.len(),
            r@ == canonical_word(word@.take(i as int)),
        decreases word@.len() - i,
    {
        r.push(canonical_letter_of(word[i]));
        i += 1;
        assert(r@ == canonical_word(word@.take(i as int)));
    }
    assert(word@.take(word@.len() as int) == word@);
    r
}

/// Classifies each letter of `guess_word` against the secret `word`, place
/// by place, over the places both words have, without regard to letter
/// case: both words are first put in upper case, letter by letter, and the
/// feedback carries the upper-case letters.
pub fn get_validation_list(word: Vec<char>, guess_word: Vec<char>) -> (r: Vec<Validation>)
    ensures
        r@ == case_blind_feedback(word@, guess_word@),
{
    let secret = canonical_word_of(&word);
    let guess = canonical_word_of(&guess_word);
    classify_canonical(secret, guess)
}

/// Occurrences of the letter `c` in `word`.
pub open spec fn occurrences(word: Seq<char>, c: char) -> nat
    decreases word.len(),
{
    if word.len() == 0 {
        0
    } else {
        occurrences(word.drop_last(), c) + if word.last() == c {
            1nat
        } else {
            0nat
        }
    }
}

/// Entries of `list` that credit the letter `c` to the secret: `Correct(c)`
/// or `Present(c)`.
pub open spec fn credited(list: Seq<Validation>, c: char) -> nat
    decreases list.len(),
{
    if list.len() == 0 {
        0
    } else {
        credited(list.drop_last(), c) + match list.last() {
            Validation::Correct(d) if d == c => 1nat,
            Validation::Present(d) if d == c => 1nat,
            _ => 0nat,
        }
    }
}

proof fn lemma_same_word_all_correct(secret: Seq<char>)
    ensures
        feedback(secret, secret).len() == secret.len(),
        forall|i: int|
            0 <= i < secret.len() ==> #[trigger] feedback(secret, secret)[i]
                == Validation::Correct(secret[i]),
{
}

proof fn lemma_disjoint_words_all_absent(secret: Seq<char>, guess: Seq<char>)
    requires
        forall|i: int, j: int|
            0 <= i < guess.len() && 0 <= j < secret.len() ==> guess[i] != secret[j],
    ensures
        forall|i: int|
            0 <= i < paired_len(secret, guess) ==> #[trigger] feedback(secret, guess)[i]
                == Validation::NotInWord(guess[i]),
{
    assert forall|i: int| 0 <= i < paired_len(secret, guess) implies #[trigger] feedback(
        secret,
        guess,
    )[i] == Validation::NotInWord(guess[i]) by {
        let c = guess[i];
        assert(!secret.contains(c));
        lemma_unclaimed_absent(secret, guess, c, paired_len(secret, guess));
    }
}

proof fn lemma_feedback_aligned(secret: Seq<char>, guess: Seq<char>)
    requires
        guess.len() <= secret.len(),
    ensures
        feedback(secret, guess).len() == guess.len(),
        forall|i: int|
            0 <= i < guess.len() ==> (#[trigger] feedback(secret, guess)[i]).letter() == guess[i],
{
}

/// Places `k < i` where both words hold `c`.
spec fn matched_count(secret: Seq<char>, guess: Seq<char>, c: char, i: int) -> nat
    decreases i,
{
    if i <= 0 {
        0
    } else {
        matched_count(secret, guess, c, i - 1) + if secret[i - 1] == guess[i - 1] && secret[i
            - 1] == c {
            1nat
        } else {
            0nat
        }
    }
}

/// Over the first `i` places, the credited entries for `c` are the matches
/// plus the claims that the unclaimed occurrences could satisfy.
proof fn lemma_credited_prefix(secret: Seq<char>, guess: Seq<char>, c: char, i: int)
    requires
        0 <= i <= paired_len(secret, guess),
    ensures
        credited(feedback(secret, guess).take(i), c) == matched_count(secret, guess, c, i) + if missed_count(
            secret,
            guess,
            c,
            i,
        ) < unclaimed_count(secret, guess, c, paired_len(secret, guess)) {
            missed_count(secret, guess, c, i)
        } else {
            unclaimed_count(secret, guess, c, paired_len(secret, guess))
        },
    decreases i,
{
    if i > 0 {
        lemma_credited_prefix(secret, guess, c, i - 1);
        let fb = feedback(secret, guess);
        assert(fb.take(i).drop_last() == fb.take(i - 1));
    }
}

/// Places `k < i` where the secret holds `c` number at most the occurrences
/// of `c` in the secret's first `i` letters.
proof fn lemma_secret_places(secret: Seq<char>, guess: Seq<char>, c: char, i: int)
    requires
        0 <= i <= paired_len(secret, guess),
    ensures
        matched_count(secret, guess, c, i) + unclaimed_count(secret, guess, c, i) == occurrences(
            secret.take(i),
            c,
        ),
    decreases i,
{
    if i > 0 {
        lemma_secret_places(secret, guess, c, i - 1);
        assert(secret.take(i).drop_last() == secret.take(i - 1));
    }
}

/// A prefix of a word holds no more occurrences of a letter than the word.
proof fn lemma_occurrences_prefix(word: Seq<char>, c: char, i: int)
    requires
        0 <= i <= word.len(),
    ensures
        occurrences(word.take(i), c) <= occurrences(word, c),
    decreases word.len() - i,
{
    if i < word.len() {
        lemma_occurrences_prefix(word, c, i + 1);
        assert(word.take(i + 1).drop_last() == word.take(i));
    } else {
        assert(word.take(i) == word);
    }
}

proof fn lemma_credit_within_secret(secret: Seq<char>, guess: Seq<char>, c: char)
    ensures
        credited(feedback(secret, guess), c) <= occurrences(secret, c),
{
    let n = paired_len(secret, guess);
    let fb = feedback(secret, guess);
    lemma_credited_prefix(secret, guess, c, n);
    assert(fb.take(n) == fb);
    lemma_secret_places(secret, guess, c, n);
    lemma_occurrences_prefix(secret, c, n);
}

/// A guess equal to the secret, letter case aside, is `Correct` at every
/// place.
pub proof fn lemma_exact_guess_all_correct(secret: Seq<char>, guess: Seq<char>)
    requires
        canonical_word(guess) == canonical_word(secret),
    ensures
        case_blind_feedback(secret, guess).len() == secret.len(),
        forall|i: int|
            0 <= i < secret.len() ==> #[trigger] case_blind_feedback(secret, guess)[i]
                == Validation::Correct(canonical_letter(secret[i])),
{
    lemma_same_word_all_correct(canonical_word(secret));
}

/// A guess that shares no letter with the secret, letter case aside, is
/// `NotInWord` at every compared place.
pub proof fn lemma_disjoint_guess_all_absent(secret: Seq<char>, guess: Seq<char>)
    requires
        forall|i: int, j: int|
            0 <= i < guess.len() && 0 <= j < secret.len() ==> canonical_letter(guess[i])
                != canonical_letter(secret[j]),
    ensures
        forall|i: int|
            0 <= i < paired_len(secret, guess) ==> #[trigger] case_blind_feedback(secret, guess)[i]
                == Validation::NotInWord(canonical_letter(guess[i])),
{
    let cs = canonical_word(secret);
    let cg = canonical_word(guess);
    assert forall|i: int, j: int| 0 <= i < cg.len() && 0 <= j < cs.len() implies cg[i]
        != cs[j] by {
        assert(canonical_letter(guess[i]) != canonical_letter(secret[j]));
    }
    lemma_disjoint_words_all_absent(cs, cg);
}

/// Where the guess is no longer than the secret, the feedback has one entry
/// per letter of the guess, and entry `i` carries the guess's letter `i` in
/// the case letters are compared in.
pub proof fn lemma_feedback_follows_guess(secret: Seq<char>, guess: Seq<char>)
    requires
        guess.len() <= secret.len(),
    ensures
        case_blind_feedback(secret, guess).len() == guess.len(),
        forall|i: int|
            0 <= i < guess.len() ==> (#[trigger] case_blind_feedback(secret, guess)[i]).letter()
                == canonical_letter(guess[i]),
{
    lemma_feedback_aligned(canonical_word(secret), canonical_word(guess));
}

/// No letter is credited to the secret more often than the secret holds it:
/// `Correct(c)` and `Present(c)` together number at most the occurrences
/// of `c` in the secret, letters being taken in the case they are compared
/// in.
pub proof fn lemma_credit_bounded(secret: Seq<char>, guess: Seq<char>, c: char)
    ensures
        credited(case_blind_feedback(secret, guess), c) <= occurrences(canonical_word(secret), c),
{
    lemma_credit_within_secret(canonical_word(secret), canonical_word(guess), c);
}

/// Words that differ only in letter case get the same feedback: where each
/// letter of one has the upper-case mapping of the letter at the same place
/// in the other (and is that very letter where the mapping takes several
/// characters), the feedback is the same.
pub proof fn lemma_feedback_ignores_case(
    secret1: Seq<char>,
    secret2: Seq<char>,
    guess1: Seq<char>,
    guess2: Seq<char>,
)
    requires
        secret1.len() == secret2.len(),
        guess1.len() == guess2.len(),
        forall|i: int|
            0 <= i < secret1.len() ==> upper_char_of(#[trigger] secret1[i]) == upper_char_of(
                secret2[i],
            ) && (upper_char_of(secret1[i]).len() != 1 ==> secret1[i] == secret2[i]),
        forall|i: int|
            0 <= i < guess1.len() ==> upper_char_of(#[trigger] guess1[i]) == upper_char_of(
                guess2[i],
            ) && (upper_char_of(guess1[i]).len() != 1 ==> guess1[i] == guess2[i]),
    ensures
        case_blind_feedback(secret1, guess1) == case_blind_feedback(secret2, guess2),
{
    assert(canonical_word(secret1) == canonical_word(secret2));
    assert(canonical_word(guess1) == canonical_word(guess2));
}

} // verus!
