use wordle::check_guess_vec;
use wordle::GuessResult;
use wordle::LetterState::{Correct, Misplaced, Wrong};

#[test]
fn test_all_correct() {
    assert_eq!(
        check_guess_vec("guess", "guess"),
        [Correct, Correct, Correct, Correct, Correct]
    );
}

#[test]
fn test_all_wrong() {
    assert_eq!(
        check_guess_vec("gamer", "books"),
        [Wrong, Wrong, Wrong, Wrong, Wrong]
    );
}

#[test]
fn test_all_misplaced() {
    assert_eq!(
        check_guess_vec("books", "oncek"),
        [Misplaced, Wrong, Wrong, Wrong, Misplaced]
    );
}

#[test]
fn test_1() {
    assert_eq!(
        check_guess_vec("azzaz", "aaabb"),
        [Correct, Misplaced, Wrong, Wrong, Wrong]
    );
}

#[test]
fn test_2() {
    assert_eq!(
        check_guess_vec("baccc", "aaddd"),
        [Wrong, Correct, Wrong, Wrong, Wrong]
    );
}

#[test]
fn test_3() {
    assert_eq!(
        check_guess_vec("abcde", "aacde"),
        [Correct, Wrong, Correct, Correct, Correct]
    );
}

#[test]
fn test_4() {
    assert_eq!(
        check_guess_vec("acaca", "hhhch"),
        [Wrong, Wrong, Wrong, Correct, Wrong]
    );
}

#[test]
fn self_score_is_success() {
    for w in ["guess", "aaaaa", "abcab", "zzzzy"] {
        let r = check_guess_vec(w, w);
        assert_eq!(r, [Correct; 5]);
        assert!(r.is_success());
    }
}

#[test]
fn disjoint_words_all_wrong() {
    let r = check_guess_vec("abcde", "fghij");
    assert_eq!(r, [Wrong; 5]);
    assert!(!r.is_success());
}

#[test]
fn result_has_five_verdicts() {
    let r = check_guess_vec("crane", "nacre");
    assert_eq!(r.states().len(), 5);
    assert_eq!(r, [Misplaced, Misplaced, Misplaced, Misplaced, Correct]);
}

#[test]
fn repeated_letter_counted_once() {
    // secret has one 'e'; guess has three
    let r = check_guess_vec("crane", "eeeee");
    assert_eq!(r, [Wrong, Wrong, Wrong, Wrong, Correct]);
    let r = check_guess_vec("eabcd", "xeeex");
    assert_eq!(r, [Wrong, Misplaced, Wrong, Wrong, Wrong]);
    let guess = ['x', 'e', 'e', 'e', 'x'];
    let hits = r
        .states()
        .iter()
        .zip(guess.iter())
        .filter(|(s, c)| **c == 'e' && **s != Wrong)
        .count();
    assert!(hits <= 1);
}

#[test]
fn lowest_free_secret_position_is_taken() {
    assert_eq!(
        check_guess_vec("abaab", "bbbba"),
        [Misplaced, Correct, Wrong, Wrong, Misplaced]
    );
}

#[test]
fn case_is_not_folded() {
    assert_eq!(check_guess_vec("Guess", "guess"), [Wrong, Correct, Correct, Correct, Correct]);
}

#[test]
fn equality_both_directions() {
    let r = check_guess_vec("books", "oncek");
    let expected = [Misplaced, Wrong, Wrong, Wrong, Misplaced];
    assert!(r == expected);
    assert!(expected == r);
    assert!(r != [Wrong; 5]);
    assert!([Wrong; 5] != r);
    assert!(r == GuessResult::from_states(expected));
}

#[test]
fn indexed_read_and_write() {
    let mut r = GuessResult::new();
    assert_eq!(r, [Wrong; 5]);
    assert_eq!(GuessResult::default(), [Wrong; 5]);
    r.set(2, Misplaced);
    r.set(4, Correct);
    assert_eq!(r.get(2), Misplaced);
    assert_eq!(r.get(4), Correct);
    assert_eq!(r.get(0), Wrong);
    assert_eq!(r, [Wrong, Wrong, Misplaced, Wrong, Correct]);
}

#[test]
fn rendering_lists_verdicts_in_order() {
    let r = check_guess_vec("books", "oncek");
    assert_eq!(r.to_string(), "[Misplaced Wrong Wrong Wrong Misplaced]");
    assert_eq!(check_guess_vec("guess", "guess").to_string(), "[Correct Correct Correct Correct Correct]");
}

#[test]
fn letter_state_default_is_wrong() {
    assert_eq!(wordle::LetterState::default(), Wrong);
    assert_eq!(Misplaced.name(), "Misplaced");
}
