use mdla::calendar::CalendarDate;
use mdla::game::{chars_of, contains_word, validate_guess};
use mdla::model::{AppError, AppState, GuessResponse, HintsResponse, ResponseOrError, Validation};
use mdla::secret::get_today_word;

fn words(list: &[&str]) -> Vec<String> {
    list.iter().map(|w| w.to_string()).collect()
}

fn date(year: i32, month: u32, day: u32) -> CalendarDate {
    CalendarDate::new(year, month, day).expect("a day of the calendar")
}

#[test]
fn calendar_rejects_missing_days() {
    assert!(CalendarDate::new(2023, 2, 29).is_none());
    assert!(CalendarDate::new(2023, 4, 31).is_none());
    assert!(CalendarDate::new(2023, 13, 1).is_none());
    assert!(CalendarDate::new(2023, 1, 0).is_none());
    assert!(CalendarDate::new(400000, 1, 1).is_none());
    assert!(CalendarDate::new(-4, 2, 29).is_some());
    assert_eq!(
        CalendarDate::new(2024, 2, 29),
        Some(CalendarDate { year: 2024, month: 2, day: 29 })
    );
}

#[test]
fn days_are_counted_from_year_one() {
    assert_eq!(date(1, 1, 1).days_since_epoch(), 0);
    assert_eq!(date(1970, 1, 1).days_since_epoch(), 719_162);
    assert_eq!(date(2000, 3, 1).days_since_epoch(), 730_179);
    assert_eq!(date(0, 12, 31).days_since_epoch(), -1);
    assert_eq!(date(-4, 3, 1).days_since_epoch(), -1767);
}

#[test]
fn today_word_is_deterministic() {
    let pool = words(&["MARMOT", "PLANTE", "TIGRE", "CHAISE", "LIVRE", "POMME"]);
    let day = date(2024, 3, 15);
    let first = get_today_word(&day, &pool).unwrap();
    let second = get_today_word(&day, &pool).unwrap();
    assert_eq!(first, second);
    assert!(pool.contains(&first));
}

#[test]
fn today_word_of_a_single_word_pool() {
    let pool = words(&["MARMOT"]);
    assert_eq!(get_today_word(&date(2022, 1, 10), &pool), Ok("MARMOT".to_string()));
    assert_eq!(get_today_word(&date(-20, 6, 1), &pool), Ok("MARMOT".to_string()));
}

#[test]
fn today_word_of_an_empty_pool_fails() {
    assert_eq!(get_today_word(&date(2024, 3, 15), &Vec::new()), Err(AppError::EmptyPool));
}

#[test]
fn today_word_changes_across_days() {
    let pool: Vec<String> = (0..1000).map(|i| format!("W{i}")).collect();
    let mut seen = Vec::new();
    for day in 1..=28 {
        let w = get_today_word(&date(2024, 2, day), &pool).unwrap();
        assert!(pool.contains(&w));
        if !seen.contains(&w) {
            seen.push(w);
        }
    }
    assert!(seen.len() > 1);
}

#[test]
fn chars_and_membership() {
    assert_eq!(chars_of("ÉTÉ"), vec!['É', 'T', 'É']);
    assert_eq!(chars_of(""), Vec::<char>::new());
    let dictionary = words(&["ABBA", "BABA"]);
    assert!(contains_word(&dictionary, &"BABA".to_string()));
    assert!(!contains_word(&dictionary, &"ABAB".to_string()));
}

#[test]
fn guess_not_in_dictionary_is_refused() {
    let dictionary = words(&["ABBA"]);
    let result = validate_guess(&vec!['A', 'B', 'B', 'A'], "ZZZZ".to_string(), &dictionary);
    assert_eq!(result, Err(AppError::WordNotInDictionary("ZZZZ".to_string())));
    let result = validate_guess(&vec!['A', 'B', 'B', 'A'], "ZZ".to_string(), &dictionary);
    assert_eq!(result, Err(AppError::WordNotInDictionary("ZZ".to_string())));
}

#[test]
fn guess_of_another_length_is_refused() {
    let dictionary = words(&["ABBA", "ABBAS"]);
    let result = validate_guess(&vec!['A', 'B', 'B', 'A'], "ABBAS".to_string(), &dictionary);
    assert_eq!(
        result,
        Err(AppError::BadWordLength {
            size_expected: 4,
            size_received: 5,
            word_sent: "ABBAS".to_string(),
        })
    );
}

#[test]
fn secret_is_accepted_outside_the_dictionary() {
    let result = validate_guess(&vec!['A', 'B', 'B', 'A'], "ABBA".to_string(), &Vec::new());
    assert_eq!(
        result,
        Ok(GuessResponse {
            validation_list: vec![
                Validation::Correct('A'),
                Validation::Correct('B'),
                Validation::Correct('B'),
                Validation::Correct('A'),
            ]
        })
    );
}

#[test]
fn dictionary_guess_gets_feedback() {
    let dictionary = words(&["BBAB"]);
    let result = validate_guess(&vec!['A', 'B', 'B', 'A'], "BBAB".to_string(), &dictionary);
    assert_eq!(
        result,
        Ok(GuessResponse {
            validation_list: vec![
                Validation::Present('B'),
                Validation::Correct('B'),
                Validation::Present('A'),
                Validation::NotInWord('B'),
            ]
        })
    );
}

#[test]
fn check_guess_puts_words_in_upper_case() {
    let state = AppState {
        all_word_list: words(&["PLANTE", "MARMOT"]),
        playable_word_list: words(&["marmot"]),
    };
    let day = date(2024, 3, 15);
    let result = state.check_guess(&day, "plante");
    assert_eq!(
        result,
        Ok(GuessResponse {
            validation_list: vec![
                Validation::NotInWord('P'),
                Validation::NotInWord('L'),
                Validation::Present('A'),
                Validation::NotInWord('N'),
                Validation::Present('T'),
                Validation::NotInWord('E'),
            ]
        })
    );
    assert_eq!(
        state.check_guess(&day, "Marmot").unwrap().validation_list,
        "MARMOT".chars().map(Validation::Correct).collect::<Vec<_>>()
    );
    assert_eq!(
        state.check_guess(&day, "chaise"),
        Err(AppError::WordNotInDictionary("CHAISE".to_string()))
    );
}

#[test]
fn check_guess_without_playable_words_fails() {
    let state = AppState { all_word_list: words(&["MARMOT"]), playable_word_list: Vec::new() };
    assert_eq!(state.check_guess(&date(2024, 3, 15), "MARMOT"), Err(AppError::EmptyPool));
}

#[test]
fn hints_give_length_and_first_letter() {
    let state = AppState {
        all_word_list: words(&["MARMOT"]),
        playable_word_list: words(&["MARMOT"]),
    };
    assert_eq!(
        state.hints(&date(2024, 3, 15)),
        Ok(HintsResponse { number_of_letters: 6, first_letter: 'M' })
    );
    let empty = AppState { all_word_list: Vec::new(), playable_word_list: Vec::new() };
    assert_eq!(empty.hints(&date(2024, 3, 15)), Err(AppError::EmptyPool));
}

#[test]
fn status_codes() {
    let ok: ResponseOrError<HintsResponse> =
        ResponseOrError::Response(HintsResponse { number_of_letters: 4, first_letter: 'A' });
    assert_eq!(ok.status_code(), 200);
    let refused: ResponseOrError<HintsResponse> =
        ResponseOrError::Error(AppError::WordNotInDictionary("ZZZZ".to_string()));
    assert_eq!(refused.status_code(), 400);
    let bad_length: ResponseOrError<HintsResponse> = ResponseOrError::Error(AppError::BadWordLength {
        size_expected: 4,
        size_received: 2,
        word_sent: "AB".to_string(),
    });
    assert_eq!(bad_length.status_code(), 400);
    let empty: ResponseOrError<HintsResponse> = ResponseOrError::Error(AppError::EmptyPool);
    assert_eq!(empty.status_code(), 500);
}

#[test]
fn hints_need_only_the_drawn_word() {
    let day = date(2024, 3, 15);
    let pool = words(&["MARMOT", ""]);
    let drawn = get_today_word(&day, &pool).unwrap();
    let state = AppState { all_word_list: Vec::new(), playable_word_list: pool };
    if drawn.is_empty() {
        assert_eq!(state.hints_if_any(&day), None);
    } else {
        assert_eq!(
            state.hints(&day),
            Ok(HintsResponse { number_of_letters: 6, first_letter: 'M' })
        );
        assert_eq!(
            state.hints_if_any(&day),
            Some(Ok(HintsResponse { number_of_letters: 6, first_letter: 'M' }))
        );
    }
}

#[test]
fn hints_if_any_reports_an_empty_secret() {
    let day = date(2024, 3, 15);
    let state = AppState { all_word_list: Vec::new(), playable_word_list: words(&[""]) };
    assert_eq!(state.hints_if_any(&day), None);
    let empty = AppState { all_word_list: Vec::new(), playable_word_list: Vec::new() };
    assert_eq!(empty.hints_if_any(&day), Some(Err(AppError::EmptyPool)));
}
