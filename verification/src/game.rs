//! One session of the game: the dictionary, the secret word, the guesses
//! accepted so far and the letters known to be missing from the secret word.

use vstd::prelude::*;
use bracket_random::prelude::RandomNumberGenerator;
use crate::dictionary::{
    check_dictionary, dictionary_of, has_word, is_dictionary, is_word, texts, words_list,
    WORD_LENGTH,
};
use crate::feedback::{absent_letters, record_absent_letters};
use crate::paint::{is_painting, Tint};
use crate::render::{
    absent_letters_message, absent_text, is_guess_line, lemma_normal_is_plain, lost_message,
    lost_text, render_guess, unknown_word_message, unknown_word_text, won_message, won_text,
    wrong_length_message, wrong_length_text,
};
use crate::random::{can_draw_from, select_word};
use crate::text::{normalized, sanitize_word};

verus! {

/// Number of accepted guesses after which an unsolved session is lost.
pub const MAX_TRIES: usize = 6;

/// How a session stands.
#[derive(Clone, Copy, Debug, PartialEq, Eq, Structural)]
pub enum GameOutcome {
    /// Neither solved nor out of tries.
    Ongoing,
    /// The secret word was guessed.
    Won,
    /// The tries ran out before the secret word was guessed.
    Lost,
}

/// Why a line of input was not accepted as a guess.
#[derive(Clone, Copy, Debug, PartialEq, Eq, Structural)]
pub enum GuessError {
    /// What is left of the line in normal form is not five letters long.
    WrongLength,
    /// The line is five letters long, and no word of the dictionary.
    NotInDictionary,
}

impl GuessError {
    /// What the player is told of this error.
    pub open spec fn text(self) -> Seq<char> {
        match self {
            GuessError::WrongLength => wrong_length_text(),
            GuessError::NotInDictionary => unknown_word_text(),
        }
    }

    /// Writes, in red, what the player is told of this error.
    pub fn message(&self) -> (line: String)
        ensures
            is_painting(line@, Tint::Red, self.text()),
    {
        match self {
            GuessError::WrongLength => wrong_length_message(),
            GuessError::NotInDictionary => unknown_word_message(),
        }
    }
}

/// What a session holds, as plain mathematical values.
#[verifier::ext_equal]
pub struct GameView {
    /// The words that may be guessed, in the order of the word list.
    pub dictionary: Seq<Seq<char>>,
    /// The secret word.
    pub word: Seq<char>,
    /// The accepted guesses, in the order in which they were made.
    pub guesses: Seq<Seq<char>>,
    /// The letters found missing from the secret word, in the order in
    /// which they were found.
    pub guessed_letters: Seq<char>,
}

impl GameView {
    /// How the session stands once `guess` has been accepted as its
    /// latest guess.
    pub open spec fn outcome_after(self, guess: Seq<char>) -> GameOutcome {
        if guess == self.word {
            GameOutcome::Won
        } else if self.guesses.len() >= MAX_TRIES {
            GameOutcome::Lost
        } else {
            GameOutcome::Ongoing
        }
    }

    /// How the session stands.
    pub open spec fn outcome(self) -> GameOutcome {
        if self.guesses.len() == 0 {
            GameOutcome::Ongoing
        } else {
            self.outcome_after(self.guesses.last())
        }
    }

    /// The letters found missing from the secret word, as a set.
    pub open spec fn absent(self) -> Set<char> {
        self.guessed_letters.to_set()
    }

    /// The letters that occur in some accepted guess and not in the secret
    /// word.
    pub open spec fn absent_in_guesses(self) -> Set<char> {
        Set::new(
            |c: char|
                exists|i: int|
                    0 <= i < self.guesses.len() && #[trigger] absent_letters(
                        self.word,
                        self.guesses[i],
                    ).contains(c),
        )
    }

    /// The letters that occur in one of the first `n` accepted guesses and
    /// not in the secret word.
    pub open spec fn absent_in_first(self, n: int) -> Set<char> {
        Set::new(
            |c: char|
                exists|i: int|
                    0 <= i < n && i < self.guesses.len() && #[trigger] absent_letters(
                        self.word,
                        self.guesses[i],
                    ).contains(c),
        )
    }

    /// What holds of every session:
    /// the dictionary is made of words and has the secret word; every
    /// guess is a word of the dictionary; there are at most six guesses,
    /// and none but the last can be the secret word; the letters found
    /// missing are each listed once, occur in a guess, and do not occur in
    /// the secret word.
    pub open spec fn wf(self) -> bool {
        &&& is_dictionary(self.dictionary)
        &&& self.dictionary.contains(self.word)
        &&& forall|i: int|
            0 <= i < self.guesses.len() ==> self.dictionary.contains(#[trigger] self.guesses[i])
        &&& self.guesses.len() <= MAX_TRIES
        &&& forall|i: int| 0 <= i < self.guesses.len() - 1 ==> #[trigger] self.guesses[i] != self.word
        &&& self.guessed_letters.no_duplicates()
        &&& self.absent().subset_of(self.absent_in_guesses())
    }

    /// The session as it starts: no guess made, no letter found missing.
    pub open spec fn fresh(dictionary: Seq<Seq<char>>, word: Seq<char>) -> GameView {
        GameView { dictionary, word, guesses: Seq::empty(), guessed_letters: Seq::empty() }
    }

    /// The session with one more accepted guess.
    pub open spec fn with_guess(self, guess: Seq<char>) -> GameView {
        GameView { guesses: self.guesses.push(guess), ..self }
    }
}

/// Every accepted guess is a word of the dictionary, five letters long.
pub proof fn lemma_guesses_are_words(game: GameView, i: int)
    requires
        game.wf(),
        0 <= i < game.guesses.len(),
    ensures
        game.dictionary.contains(game.guesses[i]),
        is_word(game.guesses[i]),
        game.guesses[i].len() == WORD_LENGTH,
{
    let guess = game.guesses[i];
    let k = choose|k: int| 0 <= k < game.dictionary.len() && game.dictionary[k] == guess;
    assert(is_word(game.dictionary[k]));
}

/// A letter found missing occurs in an accepted guess and nowhere in the
/// secret word.
pub proof fn lemma_absent_letters_are_absent(game: GameView, c: char)
    requires
        game.wf(),
        game.absent().contains(c),
    ensures
        !game.word.contains(c),
        exists|i: int| 0 <= i < game.guesses.len() && #[trigger] game.guesses[i].contains(c),
{
    assert(game.absent_in_guesses().contains(c));
    let i = choose|i: int|
        0 <= i < game.guesses.len() && #[trigger] absent_letters(game.word, game.guesses[i]).contains(
            c,
        );
    assert(game.guesses[i].contains(c));
}

/// A session is won exactly when its latest guess is the secret word, and
/// lost exactly when six guesses have been accepted and the latest is not
/// the secret word. So it goes on exactly while fewer than six guesses
/// have been accepted and none of them is the secret word.
pub proof fn lemma_outcome(game: GameView)
    requires
        game.wf(),
    ensures
        game.outcome() == GameOutcome::Won <==> game.guesses.len() > 0 && game.guesses.last()
            == game.word,
        game.outcome() == GameOutcome::Lost <==> game.guesses.len() == MAX_TRIES
            && game.guesses.last() != game.word,
        game.outcome() == GameOutcome::Ongoing <==> game.guesses.len() < MAX_TRIES && forall|i: int|
            0 <= i < game.guesses.len() ==> #[trigger] game.guesses[i] != game.word,
{
    if game.guesses.len() > 0 {
        let n = game.guesses.len() - 1;
        assert(game.guesses.last() == game.guesses[n]);
        if game.guesses.last() != game.word {
            assert forall|i: int| 0 <= i < game.guesses.len() implies #[trigger] game.guesses[i]
                != game.word by {
                if i < n {
                } else {
                    assert(game.guesses[i] == game.guesses.last());
                }
            }
        }
    }
}

/// Accepting a guess in a session that goes on keeps the session well
/// formed, counts as one try, and leaves the session as the guess decides:
/// won where it is the secret word, lost where it is the sixth and wrong.
pub proof fn lemma_with_guess(game: GameView, guess: Seq<char>)
    requires
        game.wf(),
        game.outcome() == GameOutcome::Ongoing,
        game.dictionary.contains(guess),
    ensures
        game.with_guess(guess).wf(),
        game.with_guess(guess).guesses.len() == game.guesses.len() + 1,
        game.with_guess(guess).outcome() == game.with_guess(guess).outcome_after(guess),
        game.with_guess(guess).outcome() == GameOutcome::Won <==> guess == game.word,
        game.with_guess(guess).outcome() == GameOutcome::Lost <==> guess != game.word
            && game.guesses.len() + 1 == MAX_TRIES,
{
    lemma_outcome(game);
    let after = game.with_guess(guess);
    assert(after.guesses.last() == guess);
    assert forall|i: int| 0 <= i < after.guesses.len() implies after.dictionary.contains(
        #[trigger] after.guesses[i],
    ) by {
        if i < game.guesses.len() {
            assert(after.guesses[i] == game.guesses[i]);
        }
    }
    assert forall|i: int| 0 <= i < after.guesses.len() - 1 implies #[trigger] after.guesses[i]
        != after.word by {
        assert(after.guesses[i] == game.guesses[i]);
    }
    assert forall|c: char| after.absent().contains(c) implies after.absent_in_guesses().contains(
        c,
    ) by {
        assert(game.absent().contains(c));
        assert(game.absent_in_guesses().contains(c));
        let i = choose|i: int|
            0 <= i < game.guesses.len() && #[trigger] absent_letters(game.word, game.guesses[i]).contains(
                c,
            );
        assert(after.guesses[i] == game.guesses[i]);
        assert(absent_letters(after.word, after.guesses[i]).contains(c));
    }
}

/// A session of the game.
pub struct WordlerGame {
    dictionary: Vec<String>,
    word: String,
    guessed_letters: Vec<char>,
    guesses: Vec<String>,
}

impl View for WordlerGame {
    type V = GameView;

    closed spec fn view(&self) -> GameView {
        GameView {
            dictionary: texts(self.dictionary@),
            word: self.word@,
            guesses: texts(self.guesses@),
            guessed_letters: self.guessed_letters@,
        }
    }
}

impl WordlerGame {
    /// Starts a session on `dictionary` with the secret word `word`.
    /// There is a session exactly when every entry of `dictionary` is a
    /// word and `word` is one of them.
    pub fn with_word(dictionary: Vec<String>, word: String) -> (game: Option<WordlerGame>)
        ensures
            game is Some <==> is_dictionary(texts(dictionary@)) && texts(dictionary@).contains(
                word@,
            ),
            game matches Some(g) ==> g@ == GameView::fresh(texts(dictionary@), word@) && g@.wf(),
    {
        if check_dictionary(&dictionary) && has_word(&dictionary, word.as_str()) {
            let game = WordlerGame {
                dictionary,
                word,
                guessed_letters: Vec::new(),
                guesses: Vec::new(),
            };
            assert(game@ =~= GameView::fresh(texts(dictionary@), word@));
            Some(game)
        } else {
            None
        }
    }

    /// Starts a session on `dictionary` with a secret word drawn from it at
    /// random.
    pub fn new(dictionary: Vec<String>) -> (game: WordlerGame)
        requires
            is_dictionary(texts(dictionary@)),
            can_draw_from(dictionary@.len()),
        ensures
            game@.dictionary.contains(game@.word),
            game@ == GameView::fresh(texts(dictionary@), game@.word),
            game@.wf(),
    {
        let mut rng = RandomNumberGenerator::new();
        let word = select_word(&mut rng, &dictionary);
        let game = WordlerGame {
            dictionary,
            word,
            guessed_letters: Vec::new(),
            guesses: Vec::new(),
        };
        assert(game@ =~= GameView::fresh(texts(dictionary@), word@));
        game
    }

    /// Loads the dictionary from the word list `all_words` and starts a
    /// session on it with a secret word drawn at random. There is no
    /// session where the word list holds no word, or more words than a
    /// word can be drawn from.
    pub fn start(all_words: &str) -> (game: Option<WordlerGame>)
        ensures
            game is Some <==> can_draw_from(dictionary_of(all_words@).len()),
            game matches Some(g) ==> g@ == GameView::fresh(dictionary_of(all_words@), g@.word)
                && g@.wf(),
    {
        let dictionary = words_list(all_words);
        if 0 < dictionary.len() && dictionary.len() < 0x7fff_ffff {
            Some(Self::new(dictionary))
        } else {
            None
        }
    }
    /// Takes one line of input as the next guess. The line is normalised.
    /// It is refused, and the session left as it was, where what remains
    /// is not five letters long, or is no word of the dictionary; else it
    /// is entered as the latest guess and returned. Only an accepted guess
    /// counts as a try.
    pub fn ask_for_guess(&mut self, line: &str) -> (r: Result<String, GuessError>)
        requires
            old(self)@.wf(),
            old(self)@.outcome() == GameOutcome::Ongoing,
        ensures
            final(self)@.wf(),
            match r {
                Ok(guess) => {
                    &&& guess@ == normalized(line@)
                    &&& is_word(guess@)
                    &&& old(self)@.dictionary.contains(guess@)
                    &&& final(self)@ == old(self)@.with_guess(guess@)
                },
                Err(GuessError::WrongLength) => {
                    &&& normalized(line@).len() != WORD_LENGTH
                    &&& final(self)@ == old(self)@
                },
                Err(GuessError::NotInDictionary) => {
                    &&& normalized(line@).len() == WORD_LENGTH
                    &&& !old(self)@.dictionary.contains(normalized(line@))
                    &&& final(self)@ == old(self)@
                },
            },
    {
        let guess = sanitize_word(line);
        if guess.as_str().unicode_len() != WORD_LENGTH {
            Err(GuessError::WrongLength)
        } else if !has_word(&self.dictionary, guess.as_str()) {
            Err(GuessError::NotInDictionary)
        } else {
            let ghost before = self@;
            self.guesses.push(guess.clone());
            proof {
                assert(self@ =~= before.with_guess(guess@));
                lemma_with_guess(before, guess@);
            }
            Ok(guess)
        }
    }

    /// Shows the guesses made so far, one line for each in the order in
    /// which they were made, each letter in the colour of its status.
    /// Showing them enters every letter that is classified as absent
    /// among the letters found missing: after the call these are exactly
    /// the letters that occur in a guess and not in the secret word.
    pub fn display_guesses(&mut self) -> (lines: Vec<String>)
        requires
            old(self)@.wf(),
        ensures
            final(self)@.wf(),
            final(self)@.dictionary == old(self)@.dictionary,
            final(self)@.word == old(self)@.word,
            final(self)@.guesses == old(self)@.guesses,
            old(self)@.guessed_letters.is_prefix_of(final(self)@.guessed_letters),
            final(self)@.absent() == old(self)@.absent_in_guesses(),
            lines@.len() == old(self)@.guesses.len(),
            forall|i: int|
                0 <= i < lines@.len() ==> is_guess_line(
                    #[trigger] lines@[i]@,
                    (i + 1) as nat,
                    old(self)@.word,
                    old(self)@.guesses[i],
                ),
    {
        let ghost start = self@;
        let mut lines: Vec<String> = Vec::new();
        let mut i: usize = 0;
        while i < self.guesses.len()
            invariant
                start.wf(),
                i <= self.guesses.len(),
                self@.dictionary == start.dictionary,
                self@.word == start.word,
                self@.guesses == start.guesses,
                self.guessed_letters@.no_duplicates(),
                start.guessed_letters.is_prefix_of(self.guessed_letters@),
                self.guessed_letters@.to_set() == start.absent().union(
                    start.absent_in_first(i as int),
                ),
                lines@.len() == i,
                forall|k: int|
                    0 <= k < i ==> is_guess_line(
                        #[trigger] lines@[k]@,
                        (k + 1) as nat,
                        start.word,
                        start.guesses[k],
                    ),
            decreases self.guesses.len() - i,
        {
            let ghost found = self.guessed_letters@;
            proof {
                assert(texts(self.guesses@)[i as int] == self.guesses@[i as int]@);
                assert(start.dictionary.contains(start.guesses[i as int]));
                lemma_normal_is_plain(start.guesses[i as int]);
            }
            let line = render_guess(i + 1, self.word.as_str(), self.guesses[i].as_str());
            lines.push(line);
            record_absent_letters(
                &mut self.guessed_letters,
                self.word.as_str(),
                self.guesses[i].as_str(),
            );
            proof {
                let here = absent_letters(start.word, start.guesses[i as int]);
                assert forall|c: char| start.absent_in_first(i + 1).contains(c)
                    <==> start.absent_in_first(i as int).contains(c) || here.contains(c) by {
                    if start.absent_in_first(i + 1).contains(c) {
                        let k = choose|k: int|
                            0 <= k < i + 1 && k < start.guesses.len() && #[trigger] absent_letters(
                                start.word,
                                start.guesses[k],
                            ).contains(c);
                        if k < i {
                            assert(start.absent_in_first(i as int).contains(c));
                        }
                    }
                    if here.contains(c) {
                        assert(absent_letters(start.word, start.guesses[i as int]).contains(c));
                    }
                }
                assert(self.guessed_letters@.to_set() =~= start.absent().union(
                    start.absent_in_first(i + 1),
                ));
            }
            i = i + 1;
        }
        proof {
            let end = self@;
            assert forall|c: char| start.absent_in_first(i as int).contains(c)
                <==> start.absent_in_guesses().contains(c) by {
                if start.absent_in_guesses().contains(c) {
                    let k = choose|k: int|
                        0 <= k < start.guesses.len() && #[trigger] absent_letters(
                            start.word,
                            start.guesses[k],
                        ).contains(c);
                    assert(start.absent_in_first(i as int).contains(c));
                }
            }
            assert(end.absent() =~= start.absent_in_guesses());
            assert(end.absent_in_guesses() =~= start.absent_in_guesses());
        }
        lines
    }

    /// Writes the line that lists the letters found missing from the
    /// secret word, in the order in which they were found; nothing at all
    /// while no letter has been found missing.
    pub fn display_invalid_letters(&self) -> (line: String)
        ensures
            line@ == absent_text(self@.guessed_letters),
    {
        absent_letters_message(&self.guessed_letters)
    }

    /// Writes what the player is told once `guess` has been accepted:
    /// nothing while the session goes on; where it is won, in how many
    /// tries; where it is lost, in bright red, what the secret word was.
    pub fn end_message(&self, guess: &str) -> (line: Option<String>)
        requires
            self@.wf(),
        ensures
            match self@.outcome_after(guess@) {
                GameOutcome::Ongoing => line is None,
                GameOutcome::Won => line matches Some(text) && text@ == won_text(
                    self@.guesses.len(),
                ),
                GameOutcome::Lost => line matches Some(text) && is_painting(
                    text@,
                    Tint::BrightRed,
                    lost_text(self@.word),
                ),
            },
    {
        match self.outcome_after(guess) {
            GameOutcome::Ongoing => None,
            GameOutcome::Won => Some(won_message(self.guesses.len())),
            GameOutcome::Lost => {
                proof {
                    let i = choose|i: int|
                        0 <= i < self@.dictionary.len() && self@.dictionary[i] == self@.word;
                    assert(is_word(self@.dictionary[i]));
                    lemma_normal_is_plain(self@.word);
                }
                Some(lost_message(self.word.as_str()))
            },
        }
    }

    /// How the session stands once `guess` has been accepted: won where
    /// `guess` is the secret word, else lost where six guesses have been
    /// accepted, else ongoing.
    pub fn outcome_after(&self, guess: &str) -> (r: GameOutcome)
        ensures
            r == self@.outcome_after(guess@),
    {
        if guess.to_owned() == self.word {
            GameOutcome::Won
        } else if self.guesses.len() >= MAX_TRIES {
            GameOutcome::Lost
        } else {
            GameOutcome::Ongoing
        }
    }

    /// Tells whether the session is at its end once `guess` has been
    /// accepted: whether it is won or lost.
    pub fn is_game_over(&self, guess: &str) -> (r: bool)
        ensures
            r == (self@.outcome_after(guess@) != GameOutcome::Ongoing),
            r == (guess@ == self@.word || self@.guesses.len() >= MAX_TRIES),
    {
        match self.outcome_after(guess) {
            GameOutcome::Ongoing => false,
            _ => true,
        }
    }

    /// How the session stands: ongoing before the first guess, and after
    /// that as its latest guess leaves it.
    pub fn outcome(&self) -> (r: GameOutcome)
        ensures
            r == self@.outcome(),
    {
        let n = self.guesses.len();
        if n == 0 {
            GameOutcome::Ongoing
        } else {
            assert(texts(self.guesses@).last() == self.guesses@[n - 1]@);
            self.outcome_after(self.guesses[n - 1].as_str())
        }
    }

    /// The number of guesses accepted so far.
    pub fn tries(&self) -> (n: usize)
        ensures
            n == self@.guesses.len(),
    {
        self.guesses.len()
    }

    /// The secret word.
    pub fn word(&self) -> (w: &String)
        ensures
            w@ == self@.word,
    {
        &self.word
    }

    /// The words that may be guessed.
    pub fn dictionary(&self) -> (d: &Vec<String>)
        ensures
            texts(d@) == self@.dictionary,
    {
        &self.dictionary
    }

    /// The accepted guesses, in the order in which they were made.
    pub fn guesses(&self) -> (g: &Vec<String>)
        ensures
            texts(g@) == self@.guesses,
    {
        &self.guesses
    }

    /// The letters found missing from the secret word so far, in the order
    /// in which they were found.
    pub fn guessed_letters(&self) -> (letters: &Vec<char>)
        ensures
            letters@ == self@.guessed_letters,
    {
        &self.guessed_letters
    }
}

} // verus!
