use colored::control::set_override;
use wordler::game::{GuessError, WordlerGame};
use wordler::render::{
    absent_letters_message, lost_message, prompt, push_decimal, render_guess, status_tint,
    unknown_word_message, won_message, wrong_length_message,
};
use wordler::paint::Tint;
use wordler::LetterStatus;

fn decimal(n: usize) -> String {
    let mut out = String::new();
    push_decimal(&mut out, n);
    out
}

#[test]
fn decimal_numerals() {
    assert_eq!(decimal(0), "0");
    assert_eq!(decimal(6), "6");
    assert_eq!(decimal(10), "10");
    assert_eq!(decimal(1905), "1905");
    assert_eq!(decimal(usize::MAX), usize::MAX.to_string());
    let mut out = String::from("n=");
    push_decimal(&mut out, 42);
    assert_eq!(out, "n=42");
}

#[test]
fn status_tints() {
    assert_eq!(status_tint(LetterStatus::Exact), Tint::BrightGreen);
    assert_eq!(status_tint(LetterStatus::Present), Tint::BrightYellow);
    assert_eq!(status_tint(LetterStatus::Absent), Tint::Red);
}

#[test]
fn guess_line_in_colour() {
    set_override(true);
    assert_eq!(
        render_guess(1, "CRANE", "TRACE"),
        "1: \x1b[31mT\x1b[0m\x1b[92mR\x1b[0m\x1b[92mA\x1b[0m\x1b[93mC\x1b[0m\x1b[92mE\x1b[0m"
    );
    assert_eq!(render_guess(12, "CRANE", ""), "12: ");
}

#[test]
fn guess_line_without_colour() {
    set_override(false);
    assert_eq!(render_guess(3, "CRANE", "TRACE"), "3: TRACE");
}

#[test]
fn history_in_colour() {
    set_override(true);
    let words = vec!["APPLE".to_string(), "GRAPE".to_string(), "ROBOT".to_string()];
    let mut game = WordlerGame::with_word(words, "APPLE".to_string()).unwrap();
    assert_eq!(game.display_guesses(), Vec::<String>::new());
    game.ask_for_guess("grape").unwrap();
    game.ask_for_guess("apple").unwrap();
    assert_eq!(
        game.display_guesses(),
        vec![
            "1: \x1b[31mG\x1b[0m\x1b[31mR\x1b[0m\x1b[93mA\x1b[0m\x1b[93mP\x1b[0m\x1b[92mE\x1b[0m"
                .to_string(),
            "2: \x1b[92mA\x1b[0m\x1b[92mP\x1b[0m\x1b[92mP\x1b[0m\x1b[92mL\x1b[0m\x1b[92mE\x1b[0m"
                .to_string(),
        ]
    );
}

#[test]
fn history_without_colour() {
    set_override(false);
    let words = vec!["APPLE".to_string(), "GRAPE".to_string(), "ROBOT".to_string()];
    let mut game = WordlerGame::with_word(words, "APPLE".to_string()).unwrap();
    game.ask_for_guess("grape").unwrap();
    game.ask_for_guess("robot").unwrap();
    assert_eq!(game.display_guesses(), vec!["1: GRAPE".to_string(), "2: ROBOT".to_string()]);
    assert_eq!(game.display_invalid_letters(), "Letters not in the word: G R O B T ");
}

#[test]
fn prompt_in_colour() {
    set_override(true);
    assert_eq!(prompt(), "\x1b[36mEnter your word guess (5 letters) and press ENTER\x1b[0m");
}

#[test]
fn prompt_without_colour() {
    set_override(false);
    assert_eq!(prompt(), "Enter your word guess (5 letters) and press ENTER");
}

#[test]
fn error_messages_in_colour() {
    set_override(true);
    assert_eq!(wrong_length_message(), "\x1b[31mYour guess must be 5 letters.\x1b[0m");
    assert_eq!(
        unknown_word_message(),
        "\x1b[31m{guess} isn't in the Rustle dictionary.\x1b[0m"
    );
    assert_eq!(GuessError::WrongLength.message(), wrong_length_message());
    assert_eq!(GuessError::NotInDictionary.message(), unknown_word_message());
}

#[test]
fn error_messages_without_colour() {
    set_override(false);
    assert_eq!(GuessError::WrongLength.message(), "Your guess must be 5 letters.");
    assert_eq!(
        GuessError::NotInDictionary.message(),
        "{guess} isn't in the Rustle dictionary."
    );
}

#[test]
fn end_messages() {
    set_override(true);
    assert_eq!(won_message(1), "Correct! You guessed the word in 1 tries.");
    assert_eq!(won_message(4), "Correct! You guessed the word in 4 tries.");
    assert_eq!(
        lost_message("APPLE"),
        "\x1b[91mYou ran out of tries! The word was APPLE\x1b[0m"
    );
}

#[test]
fn absent_letters_line() {
    assert_eq!(absent_letters_message(&Vec::new()), "");
    assert_eq!(absent_letters_message(&vec!['Q']), "Letters not in the word: Q ");
    assert_eq!(absent_letters_message(&vec!['T', 'S', 'L']), "Letters not in the word: T S L ");
}
