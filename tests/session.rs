use std::collections::HashSet;
use wordle::LetterState::{Correct, Misplaced, Wrong};
use wordle::{Game, TurnOutcome};

fn small_dictionary() -> HashSet<&'static str> {
    let mut d = HashSet::new();
    d.insert("guess");
    d.insert("books");
    d.insert("crane");
    d
}

#[test]
fn new_game_has_no_attempts() {
    let g = Game::new(small_dictionary());
    assert_eq!(g.attempts(), 0);
    assert_eq!(g.dictionary().len(), 3);
    assert!(g.has_attempts_left());
}

#[test]
fn draw_index_is_within_dictionary() {
    let g = Game::new(small_dictionary());
    for _ in 0..50 {
        let i = g.draw_index().unwrap();
        assert!(i < 3);
    }
    let mut one = HashSet::new();
    one.insert("guess");
    assert_eq!(Game::new(one).draw_index(), Some(0));
    assert_eq!(Game::new(HashSet::new()).draw_index(), None);
}

#[test]
fn invalid_guess_is_not_counted() {
    let mut g = Game::new(small_dictionary());
    assert!(matches!(g.play_turn("guess", "gues"), TurnOutcome::Invalid));
    assert!(matches!(g.play_turn("guess", "guesses"), TurnOutcome::Invalid));
    assert_eq!(g.attempts(), 0);
}

#[test]
fn correct_guess_solves() {
    let mut g = Game::new(small_dictionary());
    assert!(matches!(g.play_turn("guess", "guess"), TurnOutcome::Solved));
    assert_eq!(g.attempts(), 0);
}

#[test]
fn wrong_guess_counts_and_is_scored() {
    let mut g = Game::new(small_dictionary());
    match g.play_turn("books", "oncek") {
        TurnOutcome::Missed(r) => assert_eq!(r, [Misplaced, Wrong, Wrong, Wrong, Misplaced]),
        other => panic!("unexpected outcome {:?}", other),
    }
    assert_eq!(g.attempts(), 1);
}

#[test]
fn fifth_miss_ends_the_game() {
    let mut g = Game::new(small_dictionary());
    for k in 1..5 {
        assert!(matches!(g.play_turn("guess", "books"), TurnOutcome::Missed(_)));
        assert_eq!(g.attempts(), k);
    }
    match g.play_turn("guess", "gusse") {
        TurnOutcome::OutOfAttempts(r) => {
            assert_eq!(r, [Correct, Correct, Misplaced, Correct, Misplaced])
        }
        other => panic!("unexpected outcome {:?}", other),
    }
    assert_eq!(g.attempts(), 5);
    assert!(!g.has_attempts_left());
}
