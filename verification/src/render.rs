//! The text of the game: numbers, guess lines in colour, and the messages
//! shown to the player.

use vstd::prelude::*;
use vstd::string::StringExecFns;
use crate::dictionary::WORD_LENGTH;
use crate::feedback::{classify, classify_letter, LetterStatus};
use crate::paint::{escape_char, is_painting, is_plain_text, paint, Tint};
use crate::text::{is_normal, is_upper_letter};

verus! {

/// The character of the decimal digit `d`.
pub open spec fn digit(d: nat) -> char {
    (48 + d) as char
}

/// The decimal numeral of `n`, without sign or leading zeros.
pub open spec fn decimal(n: nat) -> Seq<char>
    decreases n,
{
    if n < 10 {
        seq![digit(n)]
    } else {
        decimal(n / 10).push(digit(n % 10))
    }
}

/// Appends the decimal numeral of `n` to `out`.
pub fn push_decimal(out: &mut String, n: usize)
    ensures
        final(out)@ == old(out)@ + decimal(n as nat),
    decreases n,
{
    if n >= 10 {
        push_decimal(out, n / 10);
    }
    let d: u8 = (n % 10) as u8;
    out.push((48u8 + d) as char);
    proof {
        if n < 10 {
            assert(old(out)@.push(digit(n as nat)) =~= old(out)@ + decimal(n as nat));
        } else {
            assert((old(out)@ + decimal((n / 10) as nat)).push(digit((n % 10) as nat)) =~= old(
                out,
            )@ + decimal(n as nat));
        }
    }
}

/// The colour in which a letter of the given status is shown.
pub open spec fn tint_of(status: LetterStatus) -> Tint {
    match status {
        LetterStatus::Exact => Tint::BrightGreen,
        LetterStatus::Present => Tint::BrightYellow,
        LetterStatus::Absent => Tint::Red,
    }
}

/// Gives the colour in which a letter of the given status is shown.
pub fn status_tint(status: LetterStatus) -> (tint: Tint)
    ensures
        tint == tint_of(status),
{
    match status {
        LetterStatus::Exact => Tint::BrightGreen,
        LetterStatus::Present => Tint::BrightYellow,
        LetterStatus::Absent => Tint::Red,
    }
}

/// Whether `cells` shows `guess` letter by letter, each letter in the
/// colour of its status against `secret`.
pub open spec fn is_feedback_cells(cells: Seq<Seq<char>>, secret: Seq<char>, guess: Seq<char>) -> bool {
    &&& cells.len() == guess.len()
    &&& forall|j: int|
        0 <= j < cells.len() ==> is_painting(
            #[trigger] cells[j],
            tint_of(classify(secret, j, guess[j])),
            seq![guess[j]],
        )
}

/// Whether `line` is the line shown for the guess with the given number:
/// the number, a colon and a space, then the letters of the guess, each
/// in the colour of its status against `secret`.
pub open spec fn is_guess_line(line: Seq<char>, number: nat, secret: Seq<char>, guess: Seq<char>) -> bool {
    exists|cells: Seq<Seq<char>>| #[trigger]
        is_feedback_cells(cells, secret, guess) && line == decimal(number) + seq![':', ' ']
            + cells.flatten()
}

/// Writes the line shown for `guess` as the guess with the given number.
pub fn render_guess(number: usize, secret: &str, guess: &str) -> (line: String)
    ensures
        is_plain_text(guess@) ==> is_guess_line(line@, number as nat, secret@, guess@),
{
    let mut line = String::new();
    push_decimal(&mut line, number);
    line.push(':');
    line.push(' ');
    let ghost head = decimal(number as nat) + seq![':', ' '];
    let ghost mut cells: Seq<Seq<char>> = Seq::empty();
    let n = guess.unicode_len();
    let mut j: usize = 0;
    assert(line@ =~= head + cells.flatten());
    while j < n
        invariant
            n == guess@.len(),
            j <= n,
            cells.len() == j,
            line@ == head + cells.flatten(),
            is_plain_text(guess@) ==> is_feedback_cells(cells, secret@, guess@.take(j as int)),
        decreases n - j,
    {
        let c = guess.get_char(j);
        let mut letter = String::new();
        letter.push(c);
        assert(letter@ =~= seq![c]);
        let cell = paint(letter.as_str(), status_tint(classify_letter(secret, j, c)));
        line.append(cell.as_str());
        proof {
            cells.lemma_flatten_push(cell@);
            assert(head + cells.flatten() + cell@ =~= head + cells.push(cell@).flatten());
            if is_plain_text(guess@) {
                // The letter occurs in the guess, so it is no escape character.
                assert(guess@[j as int] == c);
                assert(is_plain_text(seq![c]));
            }
            cells = cells.push(cell@);
        }
        j = j + 1;
    }
    assert(guess@.take(n as int) =~= guess@);
    line
}

/// Text in normal form holds no escape character.
pub proof fn lemma_normal_is_plain(s: Seq<char>)
    requires
        is_normal(s),
    ensures
        is_plain_text(s),
{
    if s.contains(escape_char()) {
        let k = choose|k: int| 0 <= k < s.len() && s[k] == escape_char();
        assert(is_upper_letter(s[k]));
    }
}

/// Joining two texts without escape characters gives such a text.
pub proof fn lemma_plain_text_concat(a: Seq<char>, b: Seq<char>)
    requires
        is_plain_text(a),
        is_plain_text(b),
    ensures
        is_plain_text(a + b),
{
    if (a + b).contains(escape_char()) {
        let k = choose|k: int| 0 <= k < (a + b).len() && (a + b)[k] == escape_char();
        if k < a.len() {
            assert(a[k] == escape_char());
        } else {
            assert(b[k - a.len()] == escape_char());
        }
    }
}

/// A decimal numeral holds no escape character.
pub proof fn lemma_decimal_plain(n: nat)
    ensures
        is_plain_text(decimal(n)),
    decreases n,
{
    if n < 10 {
        assert forall|k: int| 0 <= k < decimal(n).len() implies decimal(n)[k]
            != escape_char() by {}
    } else {
        lemma_decimal_plain(n / 10);
        lemma_plain_text_concat(decimal(n / 10), seq![digit(n % 10)]);
        assert(decimal(n / 10) + seq![digit(n % 10)] =~= decimal(n));
    }
}

/// The line that asks for a guess.
pub open spec fn prompt_text() -> Seq<char> {
    "Enter your word guess ("@ + decimal(WORD_LENGTH as nat)
        + " letters) and press ENTER"@
}

/// Writes the line that asks for a guess, in cyan.
pub fn prompt() -> (line: String)
    ensures
        is_painting(line@, Tint::Cyan, prompt_text()),
{
    let mut text = String::from_str("Enter your word guess (");
    push_decimal(&mut text, WORD_LENGTH);
    text.append(" letters) and press ENTER");
    proof {
        reveal_strlit("Enter your word guess (");
        reveal_strlit(" letters) and press ENTER");
        lemma_decimal_plain(WORD_LENGTH as nat);
        lemma_plain_text_concat(
            "Enter your word guess ("@,
            decimal(WORD_LENGTH as nat),
        );
        lemma_plain_text_concat(
            "Enter your word guess ("@ + decimal(WORD_LENGTH as nat),
            " letters) and press ENTER"@,
        );
    }
    paint(text.as_str(), Tint::Cyan)
}

/// What a player is told whose line is not five letters long.
pub open spec fn wrong_length_text() -> Seq<char> {
    "Your guess must be "@ + decimal(WORD_LENGTH as nat) + " letters."@
}

/// What a player is told whose line is no word of the dictionary. The
/// braces are part of the text: no guess is filled in.
pub open spec fn unknown_word_text() -> Seq<char> {
    "{guess} isn't in the Rustle dictionary."@
}

/// What a player is told who has found the secret word.
pub open spec fn won_text(tries: nat) -> Seq<char> {
    "Correct! You guessed the word in "@ + decimal(tries) + " tries."@
}

/// What a player is told who has run out of tries.
pub open spec fn lost_text(word: Seq<char>) -> Seq<char> {
    "You ran out of tries! The word was "@ + word
}

/// The letters of `letters`, each followed by a space.
pub open spec fn spaced(letters: Seq<char>) -> Seq<char>
    decreases letters.len(),
{
    if letters.len() == 0 {
        Seq::empty()
    } else {
        spaced(letters.drop_last()).push(letters.last()).push(' ')
    }
}

/// The line that lists the letters found missing from the secret word;
/// nothing at all where there is no such letter.
pub open spec fn absent_text(letters: Seq<char>) -> Seq<char> {
    if letters.len() == 0 {
        Seq::empty()
    } else {
        "Letters not in the word: "@ + spaced(letters)
    }
}

/// Writes, in red, what a player is told whose line is not five letters
/// long.
pub fn wrong_length_message() -> (line: String)
    ensures
        is_painting(line@, Tint::Red, wrong_length_text()),
{
    let mut text = String::from_str("Your guess must be ");
    push_decimal(&mut text, WORD_LENGTH);
    text.append(" letters.");
    proof {
        reveal_strlit("Your guess must be ");
        reveal_strlit(" letters.");
        lemma_decimal_plain(WORD_LENGTH as nat);
        lemma_plain_text_concat(
            "Your guess must be "@,
            decimal(WORD_LENGTH as nat),
        );
        lemma_plain_text_concat(
            "Your guess must be "@ + decimal(WORD_LENGTH as nat),
            " letters."@,
        );
    }
    paint(text.as_str(), Tint::Red)
}

/// Writes, in red, what a player is told whose line is no word of the
/// dictionary.
pub fn unknown_word_message() -> (line: String)
    ensures
        is_painting(line@, Tint::Red, unknown_word_text()),
{
    proof {
        reveal_strlit("{guess} isn't in the Rustle dictionary.");
    }
    paint("{guess} isn't in the Rustle dictionary.", Tint::Red)
}

/// Writes what a player is told who has found the secret word with the
/// given number of tries.
pub fn won_message(tries: usize) -> (line: String)
    ensures
        line@ == won_text(tries as nat),
{
    let mut text = String::from_str("Correct! You guessed the word in ");
    push_decimal(&mut text, tries);
    text.append(" tries.");
    text
}

/// Writes, in bright red, what a player is told who has run out of tries:
/// the message gives the secret word away.
pub fn lost_message(word: &str) -> (line: String)
    ensures
        is_plain_text(word@) ==> is_painting(line@, Tint::BrightRed, lost_text(word@)),
{
    let mut text = String::from_str("You ran out of tries! The word was ");
    text.append(word);
    proof {
        reveal_strlit("You ran out of tries! The word was ");
        if is_plain_text(word@) {
            lemma_plain_text_concat("You ran out of tries! The word was "@, word@);
        }
    }
    paint(text.as_str(), Tint::BrightRed)
}

/// Writes the line that lists the letters found missing from the secret
/// word: nothing where there is none, else a heading and the letters in
/// the order given, each followed by a space.
pub fn absent_letters_message(letters: &Vec<char>) -> (line: String)
    ensures
        line@ == absent_text(letters@),
{
    if letters.len() == 0 {
        return String::new();
    }
    let mut line = String::from_str("Letters not in the word: ");
    let ghost head = "Letters not in the word: "@;
    let mut i: usize = 0;
    assert(line@ =~= head + spaced(letters@.take(0)));
    while i < letters.len()
        invariant
            i <= letters.len(),
            head == "Letters not in the word: "@,
            line@ == head + spaced(letters@.take(i as int)),
        decreases letters.len() - i,
    {
        line.push(letters[i]);
        line.push(' ');
        proof {
            let next = letters@.take(i + 1);
            assert(next.drop_last() =~= letters@.take(i as int));
            assert(next.last() == letters@[i as int]);
            assert(head + spaced(next) =~= (head + spaced(letters@.take(i as int))).push(
                letters@[i as int],
            ).push(' '));
        }
        i = i + 1;
    }
    assert(letters@.take(letters@.len() as int) =~= letters@);
    line
}

} // verus!
