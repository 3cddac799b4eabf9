use vstd::prelude::*;
use crate::verdict::{all_correct, GuessResult, LetterState, WORD_LEN};

verus! {

/// The verdicts before any misplaced letter is looked for: `Correct` where
/// the guess matches the secret, `Wrong` elsewhere.
pub open spec fn exact_verdicts(secret: Seq<char>, guess: Seq<char>) -> Seq<LetterState> {
    Seq::new(
        secret.len(),
        |i: int|
            if secret[i] == guess[i] {
                LetterState::Correct
            } else {
                LetterState::Wrong
            },
    )
}

/// The secret positions taken by exact matches.
pub open spec fn exact_used(secret: Seq<char>, guess: Seq<char>) -> Seq<bool> {
    Seq::new(secret.len(), |i: int| secret[i] == guess[i])
}

/// The lowest position at or after `from` that is not yet used and holds
/// `c`, or `secret.len()` where there is none.
pub open spec fn first_free(secret: Seq<char>, used: Seq<bool>, c: char, from: int) -> int
    decreases secret.len() - from,
{
    if from < 0 || from >= secret.len() {
        secret.len() as int
    } else if !used[from] && secret[from] == c {
        from
    } else {
        first_free(secret, used, c, from + 1)
    }
}

/// Verdicts and used secret positions once the misplaced search has gone
/// over the guess positions below `n`, in ascending order.
pub open spec fn scan(secret: Seq<char>, guess: Seq<char>, n: nat) -> (Seq<LetterState>, Seq<bool>)
    decreases n,
{
    if n == 0 {
        (exact_verdicts(secret, guess), exact_used(secret, guess))
    } else {
        let (v, u) = scan(secret, guess, (n - 1) as nat);
        let i = n - 1;
        if secret[i] == guess[i] {
            (v, u)
        } else {
            let j = first_free(secret, u, guess[i], 0);
            if j < secret.len() {
                (v.update(i, LetterState::Misplaced), u.update(j, true))
            } else {
                (v, u)
            }
        }
    }
}

/// The verdicts on `guess` against `secret`: exact matches first, then, by
/// ascending guess position, each other letter takes the lowest unused
/// secret position that holds it.
pub open spec fn verdicts(secret: Seq<char>, guess: Seq<char>) -> Seq<LetterState> {
    scan(secret, guess, guess.len()).0
}

/// Scores `guess` against `answer`, letter by letter.
pub fn check_guess_vec(answer: &str, guess: &str) -> (r: GuessResult)
    requires
        answer@.len() == WORD_LEN,
        guess@.len() == WORD_LEN,
    ensures
        r@ == verdicts(answer@, guess@),
        r@.len() == guess@.len(),
{
    let ghost s = answer@;
    let ghost g = guess@;
    let mut sc: [char; 5] = ['\0'; 5];
    let mut gc: [char; 5] = ['\0'; 5];
    let mut result: [LetterState; 5] = [LetterState::Wrong; 5];
    let mut used: [bool; 5] = [false; 5];
    let mut i: usize = 0;
    while i < WORD_LEN
        invariant
            i <= WORD_LEN,
            s == answer@,
            g == guess@,
            s.len() == WORD_LEN,
            g.len() == WORD_LEN,
            forall|k: int| 0 <= k < i ==> sc@[k] == s[k] && gc@[k] == g[k],
            forall|k: int| 0 <= k < i ==> result@[k] == exact_verdicts(s, g)[k],
            forall|k: int| 0 <= k < i ==> used@[k] == exact_used(s, g)[k],
        decreases WORD_LEN - i,
    {
        sc[i] = answer.get_char(i);
        gc[i] = guess.get_char(i);
        if sc[i] == gc[i] {
            result[i] = LetterState::Correct;
            used[i] = true;
        } else {
            result[i] = LetterState::Wrong;
            used[i] = false;
        }
        i = i + 1;
    }
    assert(sc@ =~= s);
    assert(gc@ =~= g);
    assert(result@ =~= scan(s, g, 0).0);
    assert(used@ =~= scan(s, g, 0).1);
    i = 0;
    while i < WORD_LEN
        invariant
            i <= WORD_LEN,
            sc@ == s,
            gc@ == g,
            s.len() == WORD_LEN,
            g.len() == WORD_LEN,
            result@ == scan(s, g, i as nat).0,
            used@ == scan(s, g, i as nat).1,
        decreases WORD_LEN - i,
    {
        if sc[i] != gc[i] {
            let c = gc[i];
            let mut j: usize = 0;
            while j < WORD_LEN && (used[j] || sc[j] != c)
                invariant
                    j <= WORD_LEN,
                    sc@ == s,
                    s.len() == WORD_LEN,
                    used@.len() == WORD_LEN,
                    first_free(s, used@, c, 0) == first_free(s, used@, c, j as int),
                decreases WORD_LEN - j,
            {
                j = j + 1;
            }
            if j < WORD_LEN {
                result[i] = LetterState::Misplaced;
                used[j] = true;
            }
        }
        i = i + 1;
    }
    proof {
        lemma_scan_invariant(s, g, WORD_LEN as nat);
    }
    GuessResult::from_states(result)
}

/// How many times `c` occurs in `letters`.
pub open spec fn occurrences(letters: Seq<char>, c: char) -> nat
    decreases letters.len(),
{
    if letters.len() == 0 {
        0
    } else {
        occurrences(letters.drop_last(), c) + if letters.last() == c {
            1nat
        } else {
            0nat
        }
    }
}

/// How many positions `i` hold `c` in `letters` and are marked in `marks`.
pub open spec fn count_marked(letters: Seq<char>, marks: Seq<bool>, c: char) -> nat
    decreases letters.len(),
{
    if letters.len() == 0 {
        0
    } else {
        count_marked(letters.drop_last(), marks.drop_last(), c) + if letters.last() == c
            && marks[letters.len() - 1] {
            1nat
        } else {
            0nat
        }
    }
}

/// Marks the positions whose verdict is `Correct` or `Misplaced`.
pub open spec fn hit_marks(v: Seq<LetterState>) -> Seq<bool> {
    Seq::new(v.len(), |i: int| v[i] != LetterState::Wrong)
}

/// How many letters `c` of `guess` are scored `Correct` or `Misplaced`.
pub open spec fn hits(secret: Seq<char>, guess: Seq<char>, c: char) -> nat {
    count_marked(guess, hit_marks(verdicts(secret, guess)), c)
}

proof fn lemma_count_marked_set(letters: Seq<char>, marks: Seq<bool>, c: char, k: int)
    requires
        letters.len() == marks.len(),
        0 <= k < letters.len(),
    ensures
        count_marked(letters, marks.update(k, true), c) == count_marked(letters, marks, c) + if
            letters[k] == c && !marks[k] {
            1nat
        } else {
            0nat
        },
    decreases letters.len(),
{
    let n = letters.len() - 1;
    if k == n {
        assert(marks.update(k, true).drop_last() =~= marks.drop_last());
    } else {
        assert(marks.update(k, true).drop_last() =~= marks.drop_last().update(k, true));
        lemma_count_marked_set(letters.drop_last(), marks.drop_last(), c, k);
    }
}

proof fn lemma_count_marked_agree(a: Seq<char>, b: Seq<char>, marks: Seq<bool>, c: char)
    requires
        a.len() == marks.len(),
        b.len() == marks.len(),
        forall|i: int| 0 <= i < marks.len() && marks[i] ==> a[i] == b[i],
    ensures
        count_marked(a, marks, c) == count_marked(b, marks, c),
    decreases marks.len(),
{
    if marks.len() > 0 {
        lemma_count_marked_agree(a.drop_last(), b.drop_last(), marks.drop_last(), c);
    }
}

proof fn lemma_count_marked_le(letters: Seq<char>, marks: Seq<bool>, c: char)
    requires
        letters.len() == marks.len(),
    ensures
        count_marked(letters, marks, c) <= occurrences(letters, c),
    decreases letters.len(),
{
    if letters.len() > 0 {
        lemma_count_marked_le(letters.drop_last(), marks.drop_last(), c);
    }
}

proof fn lemma_first_free_found(secret: Seq<char>, used: Seq<bool>, c: char, from: int)
    requires
        used.len() == secret.len(),
        0 <= from,
        first_free(secret, used, c, from) < secret.len(),
    ensures
        from <= first_free(secret, used, c, from),
        !used[first_free(secret, used, c, from)],
        secret[first_free(secret, used, c, from)] == c,
    decreases secret.len() - from,
{
    if from < secret.len() && !(!used[from] && secret[from] == c) {
        lemma_first_free_found(secret, used, c, from + 1);
    }
}

proof fn lemma_first_free_absent(secret: Seq<char>, used: Seq<bool>, c: char, from: int)
    requires
        forall|j: int| 0 <= j < secret.len() ==> secret[j] != c,
    ensures
        first_free(secret, used, c, from) == secret.len(),
    decreases secret.len() - from,
{
    if 0 <= from < secret.len() {
        lemma_first_free_absent(secret, used, c, from + 1);
    }
}

proof fn lemma_scan_invariant(secret: Seq<char>, guess: Seq<char>, n: nat)
    requires
        secret.len() == guess.len(),
        n <= guess.len(),
    ensures
        scan(secret, guess, n).0.len() == secret.len(),
        scan(secret, guess, n).1.len() == secret.len(),
        forall|i: int|
            n <= i < secret.len() ==> #[trigger] scan(secret, guess, n).0[i] == exact_verdicts(
                secret,
                guess,
            )[i],
        forall|i: int|
            0 <= i < secret.len() && secret[i] == guess[i] ==> #[trigger] scan(
                secret,
                guess,
                n,
            ).0[i] == LetterState::Correct,
        forall|i: int|
            0 <= i < secret.len() && #[trigger] scan(secret, guess, n).0[i] == LetterState::Correct
                ==> secret[i] == guess[i],
        forall|c: char|
            count_marked(secret, scan(secret, guess, n).1, c) == count_marked(
                guess,
                hit_marks(scan(secret, guess, n).0),
                c,
            ),
    decreases n,
{
    if n == 0 {
        let u = exact_used(secret, guess);
        assert(hit_marks(exact_verdicts(secret, guess)) =~= u);
        assert forall|c: char| count_marked(secret, u, c) == count_marked(guess, u, c) by {
            lemma_count_marked_agree(secret, guess, u, c);
        }
    } else {
        let m = (n - 1) as nat;
        lemma_scan_invariant(secret, guess, m);
        let (v, u) = scan(secret, guess, m);
        let i = m as int;
        if secret[i] != guess[i] {
            let j = first_free(secret, u, guess[i], 0);
            if j < secret.len() {
                lemma_first_free_found(secret, u, guess[i], 0);
                assert(v[i] == exact_verdicts(secret, guess)[i]);
                assert(!hit_marks(v)[i]);
                let v2 = v.update(i, LetterState::Misplaced);
                assert(hit_marks(v2) =~= hit_marks(v).update(i, true));
                assert forall|c: char|
                    count_marked(secret, u.update(j, true), c) == count_marked(
                        guess,
                        hit_marks(v2),
                        c,
                    ) by {
                    lemma_count_marked_set(secret, u, c, j);
                    lemma_count_marked_set(guess, hit_marks(v), c, i);
                }
            }
        }
    }
}

/// The result always holds one verdict per letter of the guess.
pub proof fn lemma_verdicts_len(secret: Seq<char>, guess: Seq<char>)
    requires
        secret.len() == WORD_LEN,
        guess.len() == WORD_LEN,
    ensures
        verdicts(secret, guess).len() == guess.len(),
        verdicts(secret, guess).len() == WORD_LEN,
{
    lemma_scan_invariant(secret, guess, guess.len());
}

/// A word scored against itself is `Correct` at every position.
pub proof fn lemma_self_all_correct(word: Seq<char>)
    requires
        word.len() == WORD_LEN,
    ensures
        verdicts(word, word) == Seq::new(WORD_LEN as nat, |i: int| LetterState::Correct),
        all_correct(verdicts(word, word)),
{
    lemma_scan_invariant(word, word, word.len());
    assert forall|i: int| 0 <= i < WORD_LEN implies verdicts(word, word)[i]
        == LetterState::Correct by {
        assert(word[i] == word[i]);
    }
    assert(verdicts(word, word) =~= Seq::new(WORD_LEN as nat, |i: int| LetterState::Correct));
}

/// A guess is scored all `Correct` exactly when it is the secret.
pub proof fn lemma_all_correct_iff_equal(secret: Seq<char>, guess: Seq<char>)
    requires
        secret.len() == WORD_LEN,
        guess.len() == WORD_LEN,
    ensures
        all_correct(verdicts(secret, guess)) <==> secret == guess,
{
    lemma_scan_invariant(secret, guess, guess.len());
    if secret == guess {
        lemma_self_all_correct(secret);
    }
    if all_correct(verdicts(secret, guess)) {
        assert forall|i: int| 0 <= i < WORD_LEN implies secret[i] == guess[i] by {
            assert(verdicts(secret, guess)[i] == LetterState::Correct);
        }
        assert(secret =~= guess);
    }
}

/// Where the secret and the guess share no letter, every verdict is `Wrong`.
pub proof fn lemma_disjoint_all_wrong(secret: Seq<char>, guess: Seq<char>)
    requires
        secret.len() == WORD_LEN,
        guess.len() == WORD_LEN,
        forall|i: int, j: int| 0 <= i < WORD_LEN && 0 <= j < WORD_LEN ==> secret[i] != guess[j],
    ensures
        verdicts(secret, guess) == Seq::new(WORD_LEN as nat, |i: int| LetterState::Wrong),
{
    lemma_disjoint_scan(secret, guess, guess.len());
    assert(verdicts(secret, guess) =~= Seq::new(WORD_LEN as nat, |i: int| LetterState::Wrong));
}

proof fn lemma_disjoint_scan(secret: Seq<char>, guess: Seq<char>, n: nat)
    requires
        secret.len() == WORD_LEN,
        guess.len() == WORD_LEN,
        n <= WORD_LEN,
        forall|i: int, j: int| 0 <= i < WORD_LEN && 0 <= j < WORD_LEN ==> secret[i] != guess[j],
    ensures
        scan(secret, guess, n).0 == exact_verdicts(secret, guess),
        exact_verdicts(secret, guess) =~= Seq::new(WORD_LEN as nat, |i: int| LetterState::Wrong),
    decreases n,
{
    if n > 0 {
        let m = (n - 1) as nat;
        lemma_disjoint_scan(secret, guess, m);
        let i = m as int;
        assert(secret[i] != guess[i]);
        lemma_first_free_absent(secret, scan(secret, guess, m).1, guess[i], 0);
    }
}

/// No letter is scored `Correct` or `Misplaced` more often than it occurs in
/// the secret: each secret position answers for at most one guess position.
pub proof fn lemma_hits_bounded(secret: Seq<char>, guess: Seq<char>, c: char)
    requires
        secret.len() == WORD_LEN,
        guess.len() == WORD_LEN,
    ensures
        hits(secret, guess, c) <= occurrences(secret, c),
{
    lemma_scan_invariant(secret, guess, guess.len());
    lemma_count_marked_le(secret, scan(secret, guess, guess.len()).1, c);
}

} // verus!
