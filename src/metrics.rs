//! Speed and accuracy figures, in fixed point: words per minute in
//! hundredths, accuracy in hundredths of a percent (basis points), word
//! lengths in hundredths of a character, and elapsed time in milliseconds.

use vstd::prelude::*;

use crate::engine::Verdict;
use crate::text::{char_is_whitespace, is_white, letter_count, word_count, count_letters, count_words};

verus! {

/// A verdict that counts towards a correct word.
pub open spec fn is_good(v: Verdict) -> bool {
    v == Verdict::Correct || v == Verdict::Corrected
}

/// Every character from the start of the word that holds index `i` up to
/// `i` has a good verdict.
pub open spec fn good_run(s: Seq<char>, v: Seq<Verdict>, i: int) -> bool
    decreases i,
{
    if i < 0 {
        true
    } else {
        is_good(v[i]) && (i == 0 || is_white(s[i - 1]) || good_run(s, v, i - 1))
    }
}

/// A word ends at `i`.
pub open spec fn is_word_end(s: Seq<char>, i: int) -> bool {
    !is_white(s[i]) && (i + 1 == s.len() || is_white(s[i + 1]))
}

/// The number of words ending among the first `n` characters whose every
/// character has a good verdict.
pub open spec fn correct_words_upto(s: Seq<char>, v: Seq<Verdict>, n: int) -> nat
    decreases n,
{
    if n <= 0 {
        0
    } else {
        correct_words_upto(s, v, n - 1) + if is_word_end(s, n - 1) && good_run(s, v, n - 1) {
            1nat
        } else {
            0nat
        }
    }
}

/// The words of the reference whose characters are all `Correct` or
/// `Corrected`.
pub open spec fn correct_words(s: Seq<char>, v: Seq<Verdict>) -> nat {
    correct_words_upto(s, v, s.len() as int)
}

proof fn lemma_correct_words_bound(s: Seq<char>, v: Seq<Verdict>, n: int)
    ensures
        correct_words_upto(s, v, n) <= if n < 0 {
            0
        } else {
            n
        },
    decreases n,
{
    if n > 0 {
        lemma_correct_words_bound(s, v, n - 1);
    }
}

/// Counts the words of `reference` that were typed entirely right.
pub fn count_correct_words(reference: &Vec<char>, verdicts: &Vec<Verdict>) -> (n: usize)
    requires
        verdicts@.len() == reference@.len(),
    ensures
        n == correct_words(reference@, verdicts@),
{
    let len = reference.len();
    let mut n: usize = 0;
    let mut ok = true;
    let mut prev_white = true;
    let mut i: usize = 0;
    while i < len
        invariant
            len == reference@.len(),
            verdicts@.len() == len,
            i <= len,
            n == correct_words_upto(reference@, verdicts@, i as int),
            i > 0 ==> prev_white == is_white(reference@[i - 1]),
            i == 0 ==> prev_white,
            i > 0 && !prev_white ==> ok == good_run(reference@, verdicts@, i - 1),
        decreases len - i,
    {
        proof {
            lemma_correct_words_bound(reference@, verdicts@, i as int);
        }
        let w = char_is_whitespace(reference[i]);
        if !w {
            let g = verdicts[i] == Verdict::Correct || verdicts[i] == Verdict::Corrected;
            ok = g && (prev_white || ok);
            let ends = if i + 1 == len {
                true
            } else {
                char_is_whitespace(reference[i + 1])
            };
            if ends && ok {
                n = n + 1;
            }
        }
        prev_white = w;
        i = i + 1;
    }
    n
}

/// Accuracy in basis points: `correct / total` of 10000, and 0 when nothing
/// was typed.
pub open spec fn accuracy_spec(correct: nat, total: nat) -> nat {
    if total == 0 {
        0
    } else {
        correct * 10000 / total
    }
}

/// With no keystrokes the accuracy is exactly zero.
pub proof fn lemma_accuracy_without_keystrokes(correct: nat)
    ensures
        accuracy_spec(correct, 0) == 0,
{
}

pub fn accuracy_basis_points(correct: usize, total: usize) -> (r: u64)
    requires
        correct <= total,
    ensures
        r == accuracy_spec(correct as nat, total as nat),
        total == 0 ==> r == 0,
        r <= 10000,
{
    if total == 0 {
        return 0;
    }
    let c = correct as u128;
    let t = total as u128;
    proof {
        let ci = c as int;
        let ti = t as int;
        assert(ci * 10000 / ti <= 10000) by (nonlinear_arith)
            requires
                ci <= ti,
                ti > 0,
        ;
    }
    ((c * 10000) / t) as u64
}

/// Words per minute in hundredths: `correct_words / seconds * 60`, with the
/// time given in milliseconds; 0 when no time has passed, and capped at the
/// largest `u64`.
pub open spec fn wpm_spec(correct_words: nat, elapsed_ms: nat) -> nat {
    if elapsed_ms == 0 {
        0
    } else if correct_words * 6_000_000 / elapsed_ms > u64::MAX {
        u64::MAX as nat
    } else {
        correct_words * 6_000_000 / elapsed_ms
    }
}

pub fn wpm_centi(correct_words: usize, elapsed_ms: u64) -> (r: u64)
    ensures
        r == wpm_spec(correct_words as nat, elapsed_ms as nat),
{
    if elapsed_ms == 0 {
        return 0;
    }
    let w = correct_words as u128;
    proof {
        assert(w * 6_000_000 <= 0xffff_ffff_ffff_ffffu128 * 6_000_000) by (nonlinear_arith)
            requires
                w <= 0xffff_ffff_ffff_ffffu128,
        ;
    }
    let q = (w * 6_000_000) / (elapsed_ms as u128);
    if q > u64::MAX as u128 {
        u64::MAX
    } else {
        q as u64
    }
}

/// Characters per minute over one second: the keystrokes logged since the
/// last sample, times 60, capped at the largest `usize`.
pub open spec fn cpm_spec(total_typed: nat, at_last_tick: nat) -> nat {
    let d = if total_typed >= at_last_tick {
        (total_typed - at_last_tick) as nat
    } else {
        0
    };
    if d * 60 > usize::MAX {
        usize::MAX as nat
    } else {
        d * 60
    }
}

pub fn cpm_sample(total_typed: usize, at_last_tick: usize) -> (r: usize)
    ensures
        r == cpm_spec(total_typed as nat, at_last_tick as nat),
{
    let d = total_typed.saturating_sub(at_last_tick);
    if d > usize::MAX / 60 {
        usize::MAX
    } else {
        d * 60
    }
}

/// The mean length of the words of a text plus one (for the space after
/// each), in hundredths of a character; 500 for a text without words.
pub open spec fn average_word_length_spec(s: Seq<char>) -> nat {
    if word_count(s) == 0 {
        500
    } else {
        letter_count(s) * 100 / word_count(s) + 100
    }
}

pub fn average_word_length_centi(text: &Vec<char>) -> (r: u128)
    ensures
        r == average_word_length_spec(text@),
{
    let words = count_words(text);
    if words == 0 {
        return 500;
    }
    let letters = count_letters(text);
    proof {
        crate::text::lemma_word_starts_bound(text@, text@.len() as int);
    }
    let l = letters as u128;
    let w = words as u128;
    proof {
        let li = l as int;
        let wi = w as int;
        assert(li * 100 / wi <= li * 100) by (nonlinear_arith)
            requires
                wi > 0,
                li >= 0,
        ;
    }
    (l * 100) / w + 100
}

} // verus!
