use vstd::prelude::*;
use std::collections::HashSet;
use rand::Rng;
use crate::scoring::{check_guess_vec, lemma_all_correct_iff_equal, verdicts};
use crate::verdict::{GuessResult, WORD_LEN};

verus! {

/// Number of wrong guesses after which a game is lost.
pub const MAX_ATTEMPTS: usize = 5;

/// Relies on rand's `thread_rng` and `Rng::gen_range`: a value drawn from
/// `0..n`, which `gen_range` asserts to be non-empty.
#[verifier::external_body]
fn random_below(n: usize) -> (r: usize)
    requires
        n > 0,
    ensures
        r < n,
{
    rand::thread_rng().gen_range(0..n)
}

/// What one turn of a game came to.
#[derive(Debug)]
pub enum TurnOutcome {
    /// The guess does not have five letters; it was not scored or counted.
    Invalid,
    /// The guess is the answer; the game is won.
    Solved,
    /// The guess was scored and is not the answer; attempts remain.
    Missed(GuessResult),
    /// The guess was scored and is not the answer; no attempt remains.
    OutOfAttempts(GuessResult),
}

/// A game: the words an answer may be drawn from, and the wrong guesses made.
pub struct Game {
    dictionary: HashSet<&'static str>,
    num_attempts: usize,
}

impl Game {
    /// The words an answer may be drawn from.
    pub closed spec fn words(&self) -> HashSet<&'static str> {
        self.dictionary
    }

    /// How many scored guesses have missed so far.
    pub closed spec fn spec_attempts(&self) -> nat {
        self.num_attempts as nat
    }

    /// A game over `dictionary` with no attempt made.
    pub fn new(dictionary: HashSet<&'static str>) -> (r: Self)
        ensures
            r.words() == dictionary,
            r.spec_attempts() == 0,
    {
        Game { dictionary: dictionary, num_attempts: 0 }
    }

    /// The words an answer may be drawn from.
    pub fn dictionary(&self) -> (r: &HashSet<&'static str>)
        ensures
            *r == self.words(),
    {
        &self.dictionary
    }

    /// How many scored guesses have missed so far.
    pub fn attempts(&self) -> (r: usize)
        ensures
            r == self.spec_attempts(),
    {
        self.num_attempts
    }

    /// Whether the game can take another guess.
    pub fn has_attempts_left(&self) -> (r: bool)
        ensures
            r == (self.spec_attempts() < MAX_ATTEMPTS),
    {
        self.num_attempts < MAX_ATTEMPTS
    }

    /// A position in the dictionary's walk order, drawn at random, at which
    /// the answer is to be taken; `None` where the dictionary is empty.
    pub fn draw_index(&self) -> (r: Option<usize>)
        ensures
            r is None <==> self.words().len() == 0,
            r matches Some(i) ==> i < self.words().len(),
    {
        let n = self.dictionary.len();
        if n == 0 {
            None
        } else {
            Some(random_below(n))
        }
    }

    /// Plays `guess` against `answer`. A guess that does not have five
    /// letters is refused and not counted; one equal to the answer wins. Any
    /// other guess is scored and counts as one attempt; the fifth such
    /// attempt ends the game.
    pub fn play_turn(&mut self, answer: &str, guess: &str) -> (r: TurnOutcome)
        requires
            answer@.len() == WORD_LEN,
            old(self).spec_attempts() < MAX_ATTEMPTS,
        ensures
            final(self).words() == old(self).words(),
            guess@.len() != WORD_LEN ==> r is Invalid && final(self).spec_attempts()
                == old(self).spec_attempts(),
            r is Solved <==> guess@ == answer@,
            guess@ == answer@ ==> final(self).spec_attempts() == old(self).spec_attempts(),
            guess@.len() == WORD_LEN && guess@ != answer@ ==> {
                &&& final(self).spec_attempts() == old(self).spec_attempts() + 1
                &&& final(self).spec_attempts() < MAX_ATTEMPTS ==> (r matches TurnOutcome::Missed(
                    res,
                ) && res@ == verdicts(answer@, guess@))
                &&& final(self).spec_attempts() == MAX_ATTEMPTS ==> (
                r matches TurnOutcome::OutOfAttempts(res) && res@ == verdicts(answer@, guess@))
            },
    {
        if guess.unicode_len() != WORD_LEN {
            return TurnOutcome::Invalid;
        }
        let result = check_guess_vec(answer, guess);
        proof {
            lemma_all_correct_iff_equal(answer@, guess@);
        }
        if result.is_success() {
            TurnOutcome::Solved
        } else {
            self.num_attempts = self.num_attempts + 1;
            if self.num_attempts == MAX_ATTEMPTS {
                TurnOutcome::OutOfAttempts(result)
            } else {
                TurnOutcome::Missed(result)
            }
        }
    }
}

} // verus!
