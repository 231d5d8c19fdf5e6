//! Words of a reference text: maximal runs of characters that are not
//! whitespace.

use vstd::prelude::*;

verus! {

/// Whether `c` has the Unicode White_Space property: the controls from tab
/// to carriage return, the space, next line, no-break space, Ogham space
/// mark, the spaces from en quad to hair space, the line and paragraph
/// separators, narrow no-break space, medium mathematical space and the
/// ideographic space.
pub open spec fn is_white(c: char) -> bool {
    ('\u{9}' <= c && c <= '\u{d}') || c == '\u{20}' || c == '\u{85}' || c == '\u{a0}' || c
        == '\u{1680}' || ('\u{2000}' <= c && c <= '\u{200a}') || c == '\u{2028}' || c
        == '\u{2029}' || c == '\u{202f}' || c == '\u{205f}' || c == '\u{3000}'
}

/// Relies on `char::is_whitespace`, which is documented to answer whether
/// the character has the Unicode White_Space property.
#[verifier::external_body]
pub(crate) fn char_is_whitespace(c: char) -> (r: bool)
    ensures
        r == is_white(c),
{
    c.is_whitespace()
}

/// A word begins at `i`.
pub open spec fn is_word_start(s: Seq<char>, i: int) -> bool {
    !is_white(s[i]) && (i == 0 || is_white(s[i - 1]))
}

/// The number of words that begin among the first `n` characters.
pub open spec fn word_starts(s: Seq<char>, n: int) -> nat
    decreases n,
{
    if n <= 0 {
        0
    } else {
        word_starts(s, n - 1) + if is_word_start(s, n - 1) {
            1nat
        } else {
            0nat
        }
    }
}

/// The number of words of `s`.
pub open spec fn word_count(s: Seq<char>) -> nat {
    word_starts(s, s.len() as int)
}

/// The number of characters of `s` that are not whitespace among its first
/// `n`.
pub open spec fn letters_upto(s: Seq<char>, n: int) -> nat
    decreases n,
{
    if n <= 0 {
        0
    } else {
        letters_upto(s, n - 1) + if !is_white(s[n - 1]) {
            1nat
        } else {
            0nat
        }
    }
}

/// The total length of the words of `s`.
pub open spec fn letter_count(s: Seq<char>) -> nat {
    letters_upto(s, s.len() as int)
}

pub proof fn lemma_word_starts_bound(s: Seq<char>, n: int)
    requires
        0 <= n <= s.len(),
    ensures
        word_starts(s, n) <= letters_upto(s, n),
        letters_upto(s, n) <= n,
    decreases n,
{
    if n > 0 {
        lemma_word_starts_bound(s, n - 1);
    }
}

/// Counts the words of `text`, as `split_whitespace().count()` does.
pub fn count_words(text: &Vec<char>) -> (n: usize)
    ensures
        n == word_count(text@),
{
    let mut n: usize = 0;
    let mut prev_white = true;
    let mut i: usize = 0;
    while i < text.len()
        invariant
            i <= text@.len(),
            n == word_starts(text@, i as int),
            i > 0 ==> prev_white == is_white(text@[i - 1]),
            i == 0 ==> prev_white,
        decreases text@.len() - i,
    {
        proof {
            lemma_word_starts_bound(text@, i as int);
        }
        let w = char_is_whitespace(text[i]);
        if !w && prev_white {
            n = n + 1;
        }
        prev_white = w;
        i = i + 1;
    }
    n
}

/// Counts the characters of `text` that are not whitespace.
pub fn count_letters(text: &Vec<char>) -> (n: usize)
    ensures
        n == letter_count(text@),
{
    let mut n: usize = 0;
    let mut i: usize = 0;
    while i < text.len()
        invariant
            i <= text@.len(),
            n == letters_upto(text@, i as int),
        decreases text@.len() - i,
    {
        proof {
            lemma_word_starts_bound(text@, i as int);
        }
        if !char_is_whitespace(text[i]) {
            n = n + 1;
        }
        i = i + 1;
    }
    n
}

} // verus!
