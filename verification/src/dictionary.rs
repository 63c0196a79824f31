//! Loading the dictionary from a word list: a block of text with two
//! header lines, then one candidate word per line.

use vstd::prelude::*;
use crate::text::{is_normal, normalized, sanitize_word};

verus! {

/// Number of letters in every dictionary word and every accepted guess.
pub const WORD_LENGTH: usize = 5;

/// Number of lines at the head of a word list that hold no word.
pub const HEADER_LINES: usize = 2;

/// The character contents of a sequence of strings.
pub open spec fn texts(v: Seq<String>) -> Seq<Seq<char>> {
    Seq::new(v.len(), |i: int| v[i]@)
}

/// Whether `w` is a word: exactly five letters, each `A` to `Z`.
pub open spec fn is_word(w: Seq<char>) -> bool {
    w.len() == WORD_LENGTH && is_normal(w)
}

/// Whether every entry of `d` is a word.
pub open spec fn is_dictionary(d: Seq<Seq<char>>) -> bool {
    forall|i: int| 0 <= i < d.len() ==> is_word(#[trigger] d[i])
}

/// The lines of `s`: the pieces that its line feeds separate. There is
/// always at least one, and a text that ends in a line feed has an empty
/// last line.
pub open spec fn lines_of(s: Seq<char>) -> Seq<Seq<char>>
    decreases s.len(),
{
    if s.len() == 0 {
        seq![Seq::empty()]
    } else {
        let before = lines_of(s.drop_last());
        if s.last() == '\n' {
            before.push(Seq::empty())
        } else {
            before.drop_last().push(before.last().push(s.last()))
        }
    }
}

/// The lines of a word list that may hold a word: all but the header.
pub open spec fn candidate_lines(text: Seq<char>) -> Seq<Seq<char>> {
    let lines = lines_of(text);
    if lines.len() <= HEADER_LINES {
        Seq::empty()
    } else {
        lines.skip(HEADER_LINES as int)
    }
}

/// The dictionary that a word list holds: each candidate line in normal
/// form, in order, those that are not five letters long left out.
pub open spec fn dictionary_of(text: Seq<char>) -> Seq<Seq<char>> {
    candidate_lines(text).map_values(|line: Seq<char>| normalized(line)).filter(
        |w: Seq<char>| w.len() == WORD_LENGTH,
    )
}

/// Tells whether `s` is a word: five letters, each `A` to `Z`.
pub fn check_word(s: &str) -> (r: bool)
    ensures
        r == is_word(s@),
{
    let n = s.unicode_len();
    if n != WORD_LENGTH {
        return false;
    }
    let mut i: usize = 0;
    while i < n
        invariant
            n == s@.len(),
            i <= n,
            forall|j: int| 0 <= j < i ==> crate::text::is_upper_letter(#[trigger] s@[j]),
        decreases n - i,
    {
        let c = s.get_char(i);
        if !('A' <= c && c <= 'Z') {
            return false;
        }
        i = i + 1;
    }
    true
}

/// Tells whether every entry of `words` is a word.
pub fn check_dictionary(words: &Vec<String>) -> (r: bool)
    ensures
        r == is_dictionary(texts(words@)),
{
    let mut i: usize = 0;
    while i < words.len()
        invariant
            i <= words.len(),
            forall|j: int| 0 <= j < i ==> is_word(#[trigger] texts(words@)[j]),
        decreases words.len() - i,
    {
        if !check_word(words[i].as_str()) {
            assert(!is_word(texts(words@)[i as int]));
            return false;
        }
        i = i + 1;
    }
    true
}

/// Tells whether `word` is an entry of `words`.
pub fn has_word(words: &Vec<String>, word: &str) -> (r: bool)
    ensures
        r == texts(words@).contains(word@),
{
    let wanted = word.to_owned();
    let mut i: usize = 0;
    while i < words.len()
        invariant
            i <= words.len(),
            wanted@ == word@,
            forall|j: int| 0 <= j < i ==> #[trigger] texts(words@)[j] != word@,
        decreases words.len() - i,
    {
        if words[i] == wanted {
            assert(texts(words@)[i as int] == word@);
            return true;
        }
        i = i + 1;
    }
    false
}

/// The lines put together again, with a line feed between each two.
pub open spec fn joined(lines: Seq<Seq<char>>) -> Seq<char>
    decreases lines.len(),
{
    if lines.len() == 0 {
        Seq::empty()
    } else if lines.len() == 1 {
        lines[0]
    } else {
        joined(lines.drop_last()).push('\n') + lines.last()
    }
}

/// A text always has a line.
pub proof fn lemma_lines_of_nonempty(s: Seq<char>)
    ensures
        lines_of(s).len() >= 1,
    decreases s.len(),
{
    if s.len() > 0 {
        lemma_lines_of_nonempty(s.drop_last());
    }
}

/// The lines of a text hold no line feed, and put together again with a
/// line feed between each two they are the text.
pub proof fn lemma_lines_of_partition(s: Seq<char>)
    ensures
        forall|i: int| 0 <= i < lines_of(s).len() ==> !(#[trigger] lines_of(s)[i]).contains('\n'),
        joined(lines_of(s)) == s,
    decreases s.len(),
{
    let lines = lines_of(s);
    if s.len() == 0 {
        assert(joined(lines) =~= s);
    } else {
        let before = lines_of(s.drop_last());
        let c = s.last();
        lemma_lines_of_nonempty(s.drop_last());
        lemma_lines_of_partition(s.drop_last());
        assert(s.drop_last().push(c) =~= s);
        if c == '\n' {
            assert(lines.drop_last() =~= before);
            assert(joined(lines) =~= joined(before).push('\n'));
        } else {
            let grown = before.last().push(c);
            assert(!grown.contains('\n')) by {
                if grown.contains('\n') {
                    let k = choose|k: int| 0 <= k < grown.len() && grown[k] == '\n';
                    assert(before.last()[k] == '\n');
                }
            }
            assert(lines.last() == grown);
            assert(lines.drop_last() =~= before.drop_last());
            if before.len() == 1 {
                assert(joined(lines) =~= joined(before).push(c));
            } else {
                assert(joined(lines) =~= joined(before).push(c));
            }
        }
        assert forall|i: int| 0 <= i < lines.len() implies !(#[trigger] lines[i]).contains(
            '\n',
        ) by {
            if i < lines.len() - 1 {
                assert(lines[i] == before[i]);
            }
        }
    }
}

/// Splits `text` at its line feeds.
pub fn split_lines(text: &str) -> (lines: Vec<String>)
    ensures
        texts(lines@) == lines_of(text@),
{
    broadcast use vstd::string::axiom_spec_iter;

    let mut lines: Vec<String> = Vec::new();
    let mut current = String::new();
    let chars = text.chars();
    assert(text@.take(0) =~= Seq::<char>::empty());
    assert(texts(lines@).push(current@) =~= seq![Seq::<char>::empty()]);
    for c in it: chars
        invariant
            it.seq() == text@,
            texts(lines@).push(current@) == lines_of(text@.take(it.index())),
    {
        let ghost seen = text@.take(it.index());
        let ghost before = texts(lines@).push(current@);
        proof {
            let next = text@.take(it.index() + 1);
            assert(next.drop_last() =~= seen);
            assert(next.last() == c);
        }
        if c == '\n' {
            lines.push(current);
            current = String::new();
            assert(texts(lines@).push(current@) =~= before.push(Seq::empty()));
        } else {
            current.push(c);
            assert(texts(lines@).push(current@) =~= before.drop_last().push(
                before.last().push(c),
            ));
        }
    }
    assert(text@.take(text@.len() as int) =~= text@);
    let ghost done = texts(lines@).push(current@);
    lines.push(current);
    assert(texts(lines@) =~= done);
    lines
}

/// Reads the dictionary out of a word list. The first two lines are
/// skipped; every other line is normalised, and kept if what is left of it
/// has exactly five letters.
pub fn words_list(text: &str) -> (words: Vec<String>)
    ensures
        texts(words@) == dictionary_of(text@),
        is_dictionary(texts(words@)),
{
    let lines = split_lines(text);
    let mut words: Vec<String> = Vec::new();
    let ghost normal = |line: Seq<char>| normalized(line);
    let ghost fits = |w: Seq<char>| w.len() == WORD_LENGTH;
    let ghost candidates = candidate_lines(text@);
    proof {
        reveal(Seq::filter);
        assert(candidates.take(0).map_values(normal) =~= Seq::<Seq<char>>::empty());
        assert(texts(words@) =~= Seq::<Seq<char>>::empty());
    }
    if lines.len() <= HEADER_LINES {
        assert(candidates.map_values(normal) =~= Seq::<Seq<char>>::empty());
        return words;
    }
    let mut i: usize = HEADER_LINES;
    while i < lines.len()
        invariant
            HEADER_LINES <= i <= lines.len(),
            texts(lines@) == lines_of(text@),
            candidates == candidate_lines(text@),
            normal == |line: Seq<char>| normalized(line),
            fits == |w: Seq<char>| w.len() == WORD_LENGTH,
            texts(words@) == candidates.take(i - HEADER_LINES).map_values(normal).filter(fits),
            is_dictionary(texts(words@)),
        decreases lines.len() - i,
    {
        let word = sanitize_word(lines[i].as_str());
        proof {
            let k = i - HEADER_LINES;
            let seen = candidates.take(k);
            assert(candidates[k] == texts(lines@)[i as int]);
            assert(candidates.take(k + 1) =~= seen.push(candidates[k]));
            seen.lemma_push_map_commute(normal, candidates[k]);
            seen.map_values(normal).lemma_filter_push(normal(candidates[k]), fits);
        }
        let ghost kept = texts(words@);
        if word.as_str().unicode_len() == WORD_LENGTH {
            words.push(word);
            assert(texts(words@) =~= kept.push(word@));
        }
        i = i + 1;
    }
    assert(candidates.take(candidates.len() as int) =~= candidates);
    words
}

} // verus!
