//! Colour for the terminal: text wrapped in the escape sequences that
//! `colored` writes.

use vstd::prelude::*;
use colored::{Color, Colorize};

verus! {

/// The foreground colours that the game prints in.
#[derive(Clone, Copy, Debug, PartialEq, Eq, Structural)]
pub enum Tint {
    BrightGreen,
    BrightYellow,
    Red,
    Cyan,
    BrightRed,
}

/// The character that opens an escape sequence.
pub open spec fn escape_char() -> char {
    '\x1B'
}

/// The number by which an escape sequence selects a foreground colour.
pub open spec fn tint_code(tint: Tint) -> Seq<char> {
    match tint {
        Tint::BrightGreen => seq!['9', '2'],
        Tint::BrightYellow => seq!['9', '3'],
        Tint::Red => seq!['3', '1'],
        Tint::Cyan => seq!['3', '6'],
        Tint::BrightRed => seq!['9', '1'],
    }
}

/// The escape sequence that switches the foreground colour to `tint`.
pub open spec fn tint_on(tint: Tint) -> Seq<char> {
    seq![escape_char(), '['] + tint_code(tint) + seq!['m']
}

/// The escape sequence that switches all colour off.
pub open spec fn tint_off() -> Seq<char> {
    seq![escape_char(), '[', '0', 'm']
}

/// Whether `out` is `text` as it may come out when it is printed in
/// `tint`: bare where colour is switched off, else between the sequence
/// that switches the colour on and the one that switches it off. Colour
/// is a setting of the process that another thread may change while the
/// text is written, and then the opening sequence alone can be missing.
pub open spec fn is_painting(out: Seq<char>, tint: Tint, text: Seq<char>) -> bool {
    ||| out == text
    ||| out == tint_on(tint) + text + tint_off()
    ||| out == text + tint_off()
}

/// Whether `text` is free of escape characters.
pub open spec fn is_plain_text(text: Seq<char>) -> bool {
    !text.contains(escape_char())
}

/// `Colorize::color` on a `&str`, written out through `Display`: the text
/// in the given foreground colour. Whether any escape sequence is written
/// depends on the terminal, on the environment and on the override of
/// `colored::control`, so the contract admits each outcome. It speaks of
/// text without escape characters only: in other text `colored` rewrites
/// the reset sequences.
#[verifier::external_body]
pub(crate) fn paint(text: &str, tint: Tint) -> (out: String)
    ensures
        is_plain_text(text@) ==> is_painting(out@, tint, text@),
{
    let color = match tint {
        Tint::BrightGreen => Color::BrightGreen,
        Tint::BrightYellow => Color::BrightYellow,
        Tint::Red => Color::Red,
        Tint::Cyan => Color::Cyan,
        Tint::BrightRed => Color::BrightRed,
    };
    text.color(color).to_string()
}

} // verus!
