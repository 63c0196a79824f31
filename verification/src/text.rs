//! Word normalisation: what a line of text is reduced to before it is looked
//! up in, or entered into, the dictionary.

use vstd::prelude::*;

verus! {

/// Whether `c` is one of the letters `A` to `Z`.
pub open spec fn is_upper_letter(c: char) -> bool {
    'A' <= c && c <= 'Z'
}

/// Whether `c` is one of the letters `A` to `Z` or `a` to `z`.
pub open spec fn is_ascii_letter(c: char) -> bool {
    ('A' <= c && c <= 'Z') || ('a' <= c && c <= 'z')
}

/// Whether `s` is in normal form: nothing but the letters `A` to `Z`.
pub open spec fn is_normal(s: Seq<char>) -> bool {
    forall|i: int| 0 <= i < s.len() ==> is_upper_letter(#[trigger] s[i])
}

/// The letters of `s`, in order, everything else dropped.
pub open spec fn letters_of(s: Seq<char>) -> Seq<char> {
    s.filter(|c: char| is_ascii_letter(c))
}

/// What `str::trim` returns for a string with the characters `s`.
pub uninterp spec fn trimmed(s: Seq<char>) -> Seq<char>;

/// What `str::to_uppercase` returns for a string with the characters `s`.
pub uninterp spec fn uppercased(s: Seq<char>) -> Seq<char>;

/// The normal form of `s`: trimmed, put in upper case, and reduced to its
/// letters.
pub open spec fn normalized(s: Seq<char>) -> Seq<char> {
    letters_of(uppercased(trimmed(s)))
}

/// `str::trim` removes leading and trailing white space. Its result is
/// named [`trimmed`]; the one fact claimed of it is that a string which is
/// empty, or which begins and ends with a letter, comes back whole.
pub assume_specification[ str::trim ](s: &str) -> (r: &str)
    ensures
        r@ == trimmed(s@),
        s@.len() == 0 || (is_ascii_letter(s@.first()) && is_ascii_letter(s@.last())) ==> r@ == s@,
;

/// `str::to_uppercase` maps each character to its upper-case equivalent.
/// Its result is named [`uppercased`]; two facts are claimed of it: no
/// letter `a` to `z` is left in it, and a string made of the letters `A`
/// to `Z` alone comes back unchanged.
pub assume_specification[ str::to_uppercase ](s: &str) -> (r: String)
    ensures
        r@ == uppercased(s@),
        forall|i: int| 0 <= i < r@.len() ==> !('a' <= #[trigger] r@[i] && r@[i] <= 'z'),
        is_normal(s@) ==> r@ == s@,
;

/// `char::is_ascii_alphabetic`: true exactly for `A` to `Z` and `a` to `z`.
pub assume_specification[ char::is_ascii_alphabetic ](c: &char) -> (r: bool)
    ensures
        r == is_ascii_letter(*c),
;

/// `String::push`: appends one character.
pub assume_specification[ String::push ](s: &mut String, c: char)
    ensures
        final(s)@ == old(s)@.push(c),
;

/// A sequence of letters is its own letter content.
proof fn lemma_letters_of_letters(s: Seq<char>)
    requires
        forall|i: int| 0 <= i < s.len() ==> is_ascii_letter(#[trigger] s[i]),
    ensures
        letters_of(s) == s,
    decreases s.len(),
{
    reveal(Seq::filter);
    if s.len() > 0 {
        lemma_letters_of_letters(s.drop_last());
        assert(s.drop_last().push(s.last()) =~= s);
    }
}

/// Every character of `letters_of(s)` is a letter that occurs in `s`.
proof fn lemma_letters_of_members(s: Seq<char>, i: int)
    requires
        0 <= i < letters_of(s).len(),
    ensures
        is_ascii_letter(letters_of(s)[i]),
        s.contains(letters_of(s)[i]),
{
    let pred = |c: char| is_ascii_letter(c);
    s.lemma_filter_pred(pred, i);
    assert(letters_of(s).contains(letters_of(s)[i]));
    s.lemma_filter_contains_rev(pred, letters_of(s)[i]);
}

/// Copies the letters of `s`, in order, and drops every other character.
pub fn keep_letters(s: &str) -> (r: String)
    ensures
        r@ == letters_of(s@),
{
    broadcast use vstd::string::axiom_spec_iter;

    let mut out = String::new();
    let chars = s.chars();
    assert(s@.take(0) =~= Seq::<char>::empty());
    for c in it: chars
        invariant
            it.seq() == s@,
            out@ == letters_of(s@.take(it.index())),
    {
        proof {
            let seen = s@.take(it.index());
            assert(s@.take(it.index() + 1) =~= seen.push(c));
            seen.lemma_filter_push(c, |c: char| is_ascii_letter(c));
        }
        if c.is_ascii_alphabetic() {
            out.push(c);
        }
    }
    assert(s@.take(s@.len() as int) =~= s@);
    out
}

/// Normalises one line of text: white space at both ends is trimmed, the
/// rest is put in upper case, and only the letters are kept.
///
/// The result is always in normal form, and text that is in normal form
/// already is returned as it is, so normalising twice changes nothing more.
pub fn sanitize_word(word: &str) -> (r: String)
    ensures
        r@ == normalized(word@),
        is_normal(r@),
        is_normal(word@) ==> r@ == word@,
{
    let upper = word.trim().to_uppercase();
    let r = keep_letters(upper.as_str());
    proof {
        assert forall|i: int| 0 <= i < r@.len() implies is_upper_letter(#[trigger] r@[i]) by {
            lemma_letters_of_members(upper@, i);
        }
        if is_normal(word@) {
            lemma_letters_of_letters(word@);
        }
    }
    r
}

} // verus!
