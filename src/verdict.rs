use vstd::prelude::*;

verus! {

/// Number of letters in a word, and of verdicts in a result.
pub const WORD_LEN: usize = 5;

/// The verdict on one letter of a guess.
#[derive(Debug, Clone, Copy, PartialEq, Eq, Structural)]
pub enum LetterState {
    /// The letter does not occur among the secret's letters that are left.
    Wrong,
    /// The letter matches the secret at the same position.
    Correct,
    /// The letter occurs at another, not yet matched, position of the secret.
    Misplaced,
}

/// The name of a verdict, as it is shown to a player.
pub open spec fn state_name(s: LetterState) -> Seq<char> {
    match s {
        LetterState::Wrong => "Wrong"@,
        LetterState::Correct => "Correct"@,
        LetterState::Misplaced => "Misplaced"@,
    }
}

/// The names of the verdicts, separated by single spaces.
pub open spec fn joined_names(v: Seq<LetterState>) -> Seq<char>
    decreases v.len(),
{
    if v.len() == 0 {
        Seq::empty()
    } else if v.len() == 1 {
        state_name(v[0])
    } else {
        joined_names(v.drop_last()) + " "@ + state_name(v.last())
    }
}

/// The verdicts in order, between brackets: `[Correct Wrong ...]`.
pub open spec fn rendered(v: Seq<LetterState>) -> Seq<char> {
    "["@ + joined_names(v) + "]"@
}

impl LetterState {
    /// The name of this verdict.
    pub fn name(&self) -> (r: &'static str)
        ensures
            r@ == state_name(*self),
    {
        match self {
            LetterState::Wrong => "Wrong",
            LetterState::Correct => "Correct",
            LetterState::Misplaced => "Misplaced",
        }
    }
}

impl Default for LetterState {
    fn default() -> (r: Self)
        ensures
            r == LetterState::Wrong,
    {
        LetterState::Wrong
    }
}

/// One verdict per position of a guess, aligned with the guess's letters.
#[derive(Debug)]
pub struct GuessResult {
    result: [LetterState; 5],
}

/// Whether every verdict is `Correct`.
pub open spec fn all_correct(v: Seq<LetterState>) -> bool {
    forall|i: int| 0 <= i < v.len() ==> v[i] == LetterState::Correct
}

impl View for GuessResult {
    type V = Seq<LetterState>;

    closed spec fn view(&self) -> Seq<LetterState> {
        self.result@
    }
}

impl Default for GuessResult {
    fn default() -> (r: Self)
        ensures
            r@ == Seq::new(5, |i: int| LetterState::Wrong),
    {
        let r = GuessResult { result: [LetterState::Wrong; 5] };
        assert(r@ =~= Seq::new(5, |i: int| LetterState::Wrong));
        r
    }
}

impl GuessResult {
    /// A result of five `Wrong` verdicts.
    pub fn new() -> (r: Self)
        ensures
            r@ == Seq::new(5, |i: int| LetterState::Wrong),
    {
        Self::default()
    }

    /// The result holding the given verdicts in order.
    pub fn from_states(states: [LetterState; 5]) -> (r: Self)
        ensures
            r@ == states@,
    {
        GuessResult { result: states }
    }

    /// The verdicts in order.
    pub fn states(&self) -> (r: [LetterState; 5])
        ensures
            r@ == self@,
    {
        self.result
    }

    /// The verdict at position `index`.
    pub fn get(&self, index: usize) -> (r: LetterState)
        requires
            index < WORD_LEN,
        ensures
            r == self@[index as int],
    {
        self.result[index]
    }

    /// Sets the verdict at position `index`, leaving the others.
    pub fn set(&mut self, index: usize, state: LetterState)
        requires
            index < WORD_LEN,
        ensures
            final(self)@ == old(self)@.update(index as int, state),
    {
        self.result[index] = state;
    }

    /// The verdicts in order, between brackets and separated by spaces.
    pub fn to_string(&self) -> (r: String)
        ensures
            r@ == rendered(self@),
    {
        let mut s = String::from_str("[");
        let mut i: usize = 0;
        while i < WORD_LEN
            invariant
                i <= WORD_LEN,
                self@.len() == WORD_LEN,
                s@ == "["@ + joined_names(self@.subrange(0, i as int)),
            decreases WORD_LEN - i,
        {
            let ghost prev = s@;
            if i > 0 {
                s.append(" ");
            }
            s.append(self.result[i].name());
            proof {
                let w = self@.subrange(0, i + 1);
                assert(w.drop_last() =~= self@.subrange(0, i as int));
                if i == 0 {
                    assert(self@.subrange(0, 0) =~= Seq::<LetterState>::empty());
                    assert(joined_names(self@.subrange(0, 0)) =~= Seq::<char>::empty());
                    assert(s@ =~= "["@ + joined_names(w));
                } else {
                    assert(s@ =~= "["@ + joined_names(w));
                }
            }
            i = i + 1;
        }
        assert(self@.subrange(0, WORD_LEN as int) =~= self@);
        s.append("]");
        s
    }

    /// Whether every verdict is `Correct`.
    pub fn is_success(&self) -> (r: bool)
        ensures
            r == all_correct(self@),
    {
        let mut i: usize = 0;
        while i < WORD_LEN
            invariant
                i <= WORD_LEN,
                self@.len() == WORD_LEN,
                forall|k: int| 0 <= k < i ==> self@[k] == LetterState::Correct,
            decreases WORD_LEN - i,
        {
            if self.result[i] != LetterState::Correct {
                return false;
            }
            i = i + 1;
        }
        true
    }

    /// Whether the verdicts equal `other`, position by position.
    pub fn eq_states(&self, other: &[LetterState; 5]) -> (r: bool)
        ensures
            r == (self@ == other@),
    {
        let mut i: usize = 0;
        while i < WORD_LEN
            invariant
                i <= WORD_LEN,
                self@.len() == WORD_LEN,
                other@.len() == WORD_LEN,
                forall|k: int| 0 <= k < i ==> self@[k] == other@[k],
            decreases WORD_LEN - i,
        {
            if self.result[i] != other[i] {
                return false;
            }
            i = i + 1;
        }
        assert(self@ =~= other@);
        true
    }
}

impl PartialEq for GuessResult {
    fn eq(&self, other: &GuessResult) -> (r: bool) {
        self.eq_states(&other.result)
    }
}

impl vstd::std_specs::cmp::PartialEqSpecImpl for GuessResult {
    open spec fn obeys_eq_spec() -> bool {
        true
    }

    open spec fn eq_spec(&self, other: &GuessResult) -> bool {
        self@ == other@
    }
}

impl PartialEq<[LetterState; 5]> for GuessResult {
    fn eq(&self, other: &[LetterState; 5]) -> (r: bool) {
        self.eq_states(other)
    }
}

impl vstd::std_specs::cmp::PartialEqSpecImpl<[LetterState; 5]> for GuessResult {
    open spec fn obeys_eq_spec() -> bool {
        true
    }

    open spec fn eq_spec(&self, other: &[LetterState; 5]) -> bool {
        self@ == other@
    }
}

impl PartialEq<GuessResult> for [LetterState; 5] {
    fn eq(&self, other: &GuessResult) -> (r: bool) {
        other.eq_states(self)
    }
}

impl vstd::std_specs::cmp::PartialEqSpecImpl<GuessResult> for [LetterState; 5] {
    open spec fn obeys_eq_spec() -> bool {
        true
    }

    open spec fn eq_spec(&self, other: &GuessResult) -> bool {
        self@ == other@
    }
}

} // verus!
