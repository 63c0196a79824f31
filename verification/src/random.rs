//! Drawing the secret word: the one place where chance enters a session.

use vstd::prelude::*;
use bracket_random::prelude::RandomNumberGenerator;
use crate::dictionary::texts;

verus! {

/// The random number generator of `bracket_random`. Nothing of its state
/// is visible here: it is made, handed on and drawn from.
#[verifier::external_type_specification]
#[verifier::external_body]
pub struct ExRandomNumberGenerator(RandomNumberGenerator);

/// `RandomNumberGenerator::new` makes a generator from a seed that the
/// machine supplies. Nothing is claimed of it.
pub assume_specification[ RandomNumberGenerator::new ]() -> (rng: RandomNumberGenerator)
;

/// `RandomNumberGenerator::random_slice_entry` draws one entry of a slice:
/// none from an empty slice, else a reference to one of its entries, which
/// one being left to chance. It rolls a die with as many sides as the slice
/// has entries, counted in an `i32`, so the slice must be shorter than
/// `i32::MAX`.
pub assume_specification<'a, T>[ RandomNumberGenerator::random_slice_entry::<T> ](
    rng: &mut RandomNumberGenerator,
    slice: &'a [T],
) -> (entry: Option<&'a T>)
    requires
        slice@.len() < i32::MAX,
    ensures
        slice@.len() == 0 ==> entry is None,
        slice@.len() > 0 ==> entry is Some && slice@.contains(*entry->0),
;

/// Whether a word can be drawn from a dictionary with `len` entries.
pub open spec fn can_draw_from(len: nat) -> bool {
    0 < len < i32::MAX
}

/// Draws one word of `dictionary` at random.
pub fn select_word(rng: &mut RandomNumberGenerator, dictionary: &Vec<String>) -> (word: String)
    requires
        can_draw_from(dictionary@.len()),
    ensures
        texts(dictionary@).contains(word@),
{
    let entry = rng.random_slice_entry(dictionary.as_slice());
    let word = entry.unwrap().clone();
    proof {
        let i = choose|i: int| 0 <= i < dictionary@.len() && dictionary@[i] == word;
        assert(texts(dictionary@)[i] == word@);
    }
    word
}

} // verus!
