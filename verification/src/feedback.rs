//! Feedback on a guess: how each of its letters stands to the secret word.

use vstd::prelude::*;

verus! {

/// How one letter of a guess stands to the secret word.
#[derive(Clone, Copy, Debug, PartialEq, Eq, Structural)]
pub enum LetterStatus {
    /// The secret word has this letter at this position.
    Exact,
    /// The secret word has this letter, but not at this position.
    Present,
    /// The secret word does not have this letter.
    Absent,
}

/// The status of the letter `c` when it is guessed at position `pos`.
///
/// A letter counts as present as soon as it occurs anywhere in the secret
/// word, however often it has been guessed: occurrences are not used up.
pub open spec fn classify(secret: Seq<char>, pos: int, c: char) -> LetterStatus {
    if 0 <= pos < secret.len() && secret[pos] == c {
        LetterStatus::Exact
    } else if secret.contains(c) {
        LetterStatus::Present
    } else {
        LetterStatus::Absent
    }
}

/// The status of every letter of `guess`, position by position.
pub open spec fn feedback(secret: Seq<char>, guess: Seq<char>) -> Seq<LetterStatus> {
    Seq::new(guess.len(), |i: int| classify(secret, i, guess[i]))
}

/// The letters of `guess` that the secret word does not have.
pub open spec fn absent_letters(secret: Seq<char>, guess: Seq<char>) -> Set<char> {
    Set::new(|c: char| guess.contains(c) && !secret.contains(c))
}

/// Tells whether the letter `c` occurs in `word`.
pub fn has_letter(word: &str, c: char) -> (r: bool)
    ensures
        r == word@.contains(c),
{
    let n = word.unicode_len();
    let mut i: usize = 0;
    while i < n
        invariant
            n == word@.len(),
            i <= n,
            forall|j: int| 0 <= j < i ==> word@[j] != c,
        decreases n - i,
    {
        if word.get_char(i) == c {
            return true;
        }
        i = i + 1;
    }
    false
}

/// Classifies the letter `c`, guessed at position `pos`, against `secret`.
pub fn classify_letter(secret: &str, pos: usize, c: char) -> (r: LetterStatus)
    ensures
        r == classify(secret@, pos as int, c),
{
    if pos < secret.unicode_len() && secret.get_char(pos) == c {
        LetterStatus::Exact
    } else if has_letter(secret, c) {
        LetterStatus::Present
    } else {
        LetterStatus::Absent
    }
}

/// Classifies every letter of `guess` against `secret`.
pub fn evaluate_guess(secret: &str, guess: &str) -> (r: Vec<LetterStatus>)
    ensures
        r@ == feedback(secret@, guess@),
{
    let n = guess.unicode_len();
    let mut statuses: Vec<LetterStatus> = Vec::new();
    let mut i: usize = 0;
    while i < n
        invariant
            n == guess@.len(),
            i <= n,
            statuses@ == feedback(secret@, guess@.take(i as int)),
        decreases n - i,
    {
        let status = classify_letter(secret, i, guess.get_char(i));
        statuses.push(status);
        i = i + 1;
    }
    assert(guess@.take(n as int) =~= guess@);
    statuses
}

/// Tells whether `c` is among `letters`.
pub fn has_char(letters: &Vec<char>, c: char) -> (r: bool)
    ensures
        r == letters@.contains(c),
{
    let mut i: usize = 0;
    while i < letters.len()
        invariant
            i <= letters.len(),
            forall|j: int| 0 <= j < i ==> letters@[j] != c,
        decreases letters.len() - i,
    {
        if letters[i] == c {
            return true;
        }
        i = i + 1;
    }
    false
}

/// Enters into `found` every letter of `guess` that is classified as
/// absent from `secret`. A letter that `found` has already is not entered
/// again, and what `found` held stays where it was.
pub fn record_absent_letters(found: &mut Vec<char>, secret: &str, guess: &str)
    requires
        old(found)@.no_duplicates(),
    ensures
        final(found)@.no_duplicates(),
        old(found)@.is_prefix_of(final(found)@),
        final(found)@.to_set() == old(found)@.to_set().union(absent_letters(secret@, guess@)),
{
    let n = guess.unicode_len();
    let mut j: usize = 0;
    assert(found@.to_set() =~= old(found)@.to_set().union(
        absent_letters(secret@, guess@.take(0)),
    ));
    while j < n
        invariant
            n == guess@.len(),
            j <= n,
            found@.no_duplicates(),
            old(found)@.is_prefix_of(found@),
            found@.to_set() == old(found)@.to_set().union(
                absent_letters(secret@, guess@.take(j as int)),
            ),
        decreases n - j,
    {
        let c = guess.get_char(j);
        let ghost before = found@;
        let ghost seen = guess@.take(j as int);
        let ghost next = guess@.take(j + 1);
        let status = classify_letter(secret, j, c);
        let missing = match status {
            LetterStatus::Absent => true,
            _ => false,
        };
        if missing && !has_char(found, c) {
            found.push(c);
        }
        proof {
            assert(next =~= seen.push(c));
            assert forall|x: char| next.contains(x) <==> seen.contains(x) || x == c by {
                if next.contains(x) {
                    let k = choose|k: int| 0 <= k < next.len() && next[k] == x;
                    if k < seen.len() {
                        assert(seen[k] == x);
                    }
                }
                if seen.contains(x) {
                    let k = choose|k: int| 0 <= k < seen.len() && seen[k] == x;
                    assert(next[k] == x);
                }
                assert(next[j as int] == c);
            }
            assert forall|x: char| found@.contains(x) <==> before.contains(x) || (x == c
                && missing) by {
                if found@.contains(x) {
                    let k = choose|k: int| 0 <= k < found@.len() && found@[k] == x;
                    if k < before.len() {
                        assert(before[k] == x);
                    }
                }
                if before.contains(x) {
                    let k = choose|k: int| 0 <= k < before.len() && before[k] == x;
                    assert(found@[k] == x);
                }
                if missing && !before.contains(c) {
                    assert(found@[before.len() as int] == c);
                }
            }
            assert(missing <==> !secret@.contains(c)) by {
                if status == LetterStatus::Exact {
                    assert(secret@[j as int] == c);
                }
            }
            let goal = old(found)@.to_set().union(absent_letters(secret@, next));
            assert forall|x: char| found@.to_set().contains(x) <==> goal.contains(x) by {
                assert(before.to_set().contains(x) <==> before.contains(x));
                assert(absent_letters(secret@, seen).contains(x) <==> seen.contains(x)
                    && !secret@.contains(x));
                assert(absent_letters(secret@, next).contains(x) <==> next.contains(x)
                    && !secret@.contains(x));
            }
            assert(found@.to_set() =~= goal);
        }
        j = j + 1;
    }
    assert(guess@.take(n as int) =~= guess@);
}

/// Every position of a guess that equals the secret word is exact.
pub proof fn lemma_feedback_of_secret(secret: Seq<char>)
    ensures
        feedback(secret, secret).len() == secret.len(),
        forall|i: int|
            0 <= i < secret.len() ==> #[trigger] feedback(secret, secret)[i] == LetterStatus::Exact,
{
}

/// A guess is the secret word exactly when it is as long as the secret
/// word and every one of its positions is exact.
pub proof fn lemma_all_exact_is_secret(secret: Seq<char>, guess: Seq<char>)
    ensures
        guess == secret <==> guess.len() == secret.len() && forall|i: int|
            0 <= i < guess.len() ==> #[trigger] feedback(secret, guess)[i] == LetterStatus::Exact,
{
    if guess.len() == secret.len() && forall|i: int|
        0 <= i < guess.len() ==> #[trigger] feedback(secret, guess)[i] == LetterStatus::Exact {
        assert forall|i: int| 0 <= i < guess.len() implies guess[i] == secret[i] by {
            assert(feedback(secret, guess)[i] == LetterStatus::Exact);
        }
        assert(guess =~= secret);
    }
}

/// A letter is absent from the secret word exactly when some position of
/// the guess that holds it is classified as absent.
pub proof fn lemma_absent_letters(secret: Seq<char>, guess: Seq<char>, c: char)
    ensures
        absent_letters(secret, guess).contains(c) <==> exists|i: int|
            0 <= i < guess.len() && guess[i] == c && #[trigger] feedback(secret, guess)[i]
                == LetterStatus::Absent,
{
    if absent_letters(secret, guess).contains(c) {
        let i = choose|i: int| 0 <= i < guess.len() && guess[i] == c;
        assert(feedback(secret, guess)[i] == LetterStatus::Absent);
    }
}

} // verus!
