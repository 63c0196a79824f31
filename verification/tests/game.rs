use bracket_random::prelude::RandomNumberGenerator;
use wordler::game::{GameOutcome, GuessError, WordlerGame, MAX_TRIES};
use wordler::random::select_word;
use wordler::WORD_LENGTH;

fn strings(words: &[&str]) -> Vec<String> {
    words.iter().map(|w| w.to_string()).collect()
}

fn dictionary() -> Vec<String> {
    strings(&["APPLE", "GRAPE", "CRANE", "SLATE", "MOIST", "ROBOT", "PUPPY", "TRACE"])
}

fn game_on(word: &str) -> WordlerGame {
    WordlerGame::with_word(dictionary(), word.to_string()).unwrap()
}

#[test]
fn constants() {
    assert_eq!(WORD_LENGTH, 5);
    assert_eq!(MAX_TRIES, 6);
}

#[test]
fn with_word_starts_fresh() {
    let game = game_on("APPLE");
    assert_eq!(game.word(), "APPLE");
    assert_eq!(game.dictionary(), &dictionary());
    assert!(game.guesses().is_empty());
    assert!(game.guessed_letters().is_empty());
    assert_eq!(game.tries(), 0);
    assert_eq!(game.outcome(), GameOutcome::Ongoing);
}

#[test]
fn with_word_wants_a_word_of_the_dictionary() {
    assert!(WordlerGame::with_word(dictionary(), "LEMON".to_string()).is_none());
    assert!(WordlerGame::with_word(Vec::new(), "APPLE".to_string()).is_none());
    assert!(WordlerGame::with_word(strings(&["APPLE", "pear"]), "APPLE".to_string()).is_none());
    assert!(WordlerGame::with_word(strings(&["apple"]), "apple".to_string()).is_none());
    assert!(WordlerGame::with_word(strings(&["APPLE"]), "APPLE".to_string()).is_some());
}

#[test]
fn win_scenario() {
    let mut game = game_on("APPLE");
    let first = game.ask_for_guess("GRAPE").unwrap();
    assert_eq!(first, "GRAPE");
    assert!(!game.is_game_over(&first));
    assert_eq!(game.outcome_after(&first), GameOutcome::Ongoing);
    assert_eq!(game.outcome(), GameOutcome::Ongoing);
    let second = game.ask_for_guess("APPLE").unwrap();
    assert_eq!(second, "APPLE");
    assert!(game.is_game_over(&second));
    assert_eq!(game.outcome_after(&second), GameOutcome::Won);
    assert_eq!(game.outcome(), GameOutcome::Won);
    assert_eq!(game.tries(), 2);
    assert_eq!(game.guesses(), &strings(&["GRAPE", "APPLE"]));
    assert_eq!(
        game.end_message(&second),
        Some("Correct! You guessed the word in 2 tries.".to_string())
    );
}

#[test]
fn loss_scenario() {
    colored::control::set_override(false);
    let mut game = game_on("APPLE");
    let wrong = ["GRAPE", "CRANE", "SLATE", "MOIST", "ROBOT", "PUPPY"];
    for (n, line) in wrong.iter().enumerate() {
        assert_eq!(game.outcome(), GameOutcome::Ongoing);
        let guess = game.ask_for_guess(line).unwrap();
        assert_eq!(game.tries(), n + 1);
        if n + 1 < MAX_TRIES {
            assert!(!game.is_game_over(&guess));
            assert_eq!(game.end_message(&guess), None);
        } else {
            assert!(game.is_game_over(&guess));
            assert_eq!(game.outcome_after(&guess), GameOutcome::Lost);
            assert_eq!(
                game.end_message(&guess),
                Some("You ran out of tries! The word was APPLE".to_string())
            );
        }
    }
    assert_eq!(game.outcome(), GameOutcome::Lost);
    assert_eq!(game.tries(), 6);
    assert_eq!(game.word(), "APPLE");
}

#[test]
fn win_on_the_last_try() {
    let mut game = game_on("APPLE");
    for line in ["GRAPE", "CRANE", "SLATE", "MOIST", "ROBOT"] {
        game.ask_for_guess(line).unwrap();
    }
    let last = game.ask_for_guess("APPLE").unwrap();
    assert_eq!(game.tries(), 6);
    assert_eq!(game.outcome_after(&last), GameOutcome::Won);
    assert_eq!(game.outcome(), GameOutcome::Won);
    assert_eq!(
        game.end_message(&last),
        Some("Correct! You guessed the word in 6 tries.".to_string())
    );
}

#[test]
fn guesses_are_normalised() {
    let mut game = game_on("APPLE");
    assert_eq!(game.ask_for_guess("  grape\n"), Ok("GRAPE".to_string()));
    assert_eq!(game.ask_for_guess("c r-a!n3e\r\n"), Ok("CRANE".to_string()));
    assert_eq!(game.guesses(), &strings(&["GRAPE", "CRANE"]));
}

#[test]
fn rejected_lines_are_no_tries() {
    let mut game = game_on("APPLE");
    assert_eq!(game.ask_for_guess("pear"), Err(GuessError::WrongLength));
    assert_eq!(game.ask_for_guess(""), Err(GuessError::WrongLength));
    assert_eq!(game.ask_for_guess("apples"), Err(GuessError::WrongLength));
    assert_eq!(game.ask_for_guess("12345"), Err(GuessError::WrongLength));
    assert_eq!(game.ask_for_guess("lemon"), Err(GuessError::NotInDictionary));
    assert_eq!(game.ask_for_guess("ZZZZZ"), Err(GuessError::NotInDictionary));
    assert_eq!(game.tries(), 0);
    assert!(game.guesses().is_empty());
    assert!(game.guessed_letters().is_empty());
    assert_eq!(game.outcome(), GameOutcome::Ongoing);
    // Six rejections have been made, and the game still takes six guesses.
    for line in ["GRAPE", "CRANE", "SLATE", "MOIST", "ROBOT"] {
        assert!(game.ask_for_guess("nope").is_err());
        assert!(game.ask_for_guess(line).is_ok());
        assert_eq!(game.outcome(), GameOutcome::Ongoing);
    }
    assert_eq!(game.tries(), 5);
    assert!(game.ask_for_guess("PUPPY").is_ok());
    assert_eq!(game.outcome(), GameOutcome::Lost);
}

#[test]
fn accepted_guesses_are_words_of_the_dictionary() {
    let mut game = game_on("SLATE");
    for line in ["grape", "xx", "lemon", "crane!", "  moist  "] {
        if let Ok(guess) = game.ask_for_guess(line) {
            assert_eq!(guess.len(), 5);
            assert!(game.dictionary().contains(&guess));
        }
    }
    assert_eq!(game.guesses(), &strings(&["GRAPE", "CRANE", "MOIST"]));
}

#[test]
fn absent_letters_build_up_when_guesses_are_shown() {
    let mut game = game_on("APPLE");
    game.ask_for_guess("GRAPE").unwrap();
    // Nothing is entered before the guesses are shown.
    assert!(game.guessed_letters().is_empty());
    assert_eq!(game.display_invalid_letters(), "");
    game.display_guesses();
    assert_eq!(game.guessed_letters(), &vec!['G', 'R']);
    game.ask_for_guess("ROBOT").unwrap();
    game.display_guesses();
    assert_eq!(game.guessed_letters(), &vec!['G', 'R', 'O', 'B', 'T']);
    game.display_guesses();
    assert_eq!(game.guessed_letters(), &vec!['G', 'R', 'O', 'B', 'T']);
    assert_eq!(game.display_invalid_letters(), "Letters not in the word: G R O B T ");
    for c in game.guessed_letters() {
        assert!(!game.word().contains(*c));
    }
}

#[test]
fn absent_letters_leave_out_the_letters_of_the_secret() {
    let mut game = game_on("APPLE");
    for line in ["APPLE"] {
        game.ask_for_guess(line).unwrap();
    }
    game.display_guesses();
    assert!(game.guessed_letters().is_empty());
    let mut game = game_on("CRANE");
    for line in ["TRACE", "SLATE", "PUPPY"] {
        game.ask_for_guess(line).unwrap();
    }
    game.display_guesses();
    assert_eq!(game.guessed_letters(), &vec!['T', 'S', 'L', 'P', 'U', 'Y']);
}

#[test]
fn start_loads_the_dictionary_and_draws_a_word() {
    let text = "Rustle words\n------------\napple\ngrape\nab\ncrane\n";
    let game = WordlerGame::start(text).unwrap();
    assert_eq!(game.dictionary(), &strings(&["APPLE", "GRAPE", "CRANE"]));
    assert!(game.dictionary().contains(game.word()));
    assert_eq!(game.tries(), 0);
    assert!(game.guessed_letters().is_empty());
    assert_eq!(game.outcome(), GameOutcome::Ongoing);
}

#[test]
fn start_wants_a_word() {
    assert!(WordlerGame::start("").is_none());
    assert!(WordlerGame::start("apple\ngrape\n").is_none());
    assert!(WordlerGame::start("h\nh\nab\ntoolong\n").is_none());
    assert!(WordlerGame::start("h\nh\napple").is_some());
}

#[test]
fn new_draws_from_the_dictionary() {
    for _ in 0..20 {
        let game = WordlerGame::new(dictionary());
        assert!(dictionary().contains(game.word()));
        assert_eq!(game.dictionary(), &dictionary());
        assert_eq!(game.tries(), 0);
    }
    let game = WordlerGame::new(strings(&["APPLE"]));
    assert_eq!(game.word(), "APPLE");
}

#[test]
fn select_word_draws_every_word_in_time() {
    let words = dictionary();
    let mut rng = RandomNumberGenerator::seeded(7);
    let mut drawn = Vec::new();
    for _ in 0..400 {
        let word = select_word(&mut rng, &words);
        assert!(words.contains(&word));
        if !drawn.contains(&word) {
            drawn.push(word);
        }
    }
    assert_eq!(drawn.len(), words.len());
}

#[test]
fn select_word_repeats_with_the_seed() {
    let words = dictionary();
    let mut a = RandomNumberGenerator::seeded(42);
    let mut b = RandomNumberGenerator::seeded(42);
    for _ in 0..20 {
        assert_eq!(select_word(&mut a, &words), select_word(&mut b, &words));
    }
}
