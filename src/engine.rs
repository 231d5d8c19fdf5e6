//! Per-character matching of keystrokes against a reference text.
//!
//! The engine owns the reference, one verdict per reference character, the
//! typing position, the log of accepted keystrokes and the count of words
//! done. Backspace moves the position back but leaves verdicts in place: a
//! verdict is overwritten by the next keystroke at its index, never cleared.

use vstd::prelude::*;

verus! {

/// The state of one reference character.
#[derive(Debug, Clone, Copy, PartialEq, Eq, Structural)]
pub enum Verdict {
    Untouched,
    Correct,
    Corrected,
    Incorrect,
}

/// One accepted keystroke and the verdict it produced.
#[derive(Debug, Clone, Copy, PartialEq, Eq, Structural)]
pub struct Keystroke {
    pub ch: char,
    pub verdict: Verdict,
}

/// The verdict for typing `typed` where `expected` stands and the index
/// currently holds `current`: a match is `Correct` on a clean index and
/// `Corrected` on one that was ever wrong; a mismatch is `Incorrect`.
pub open spec fn classify(expected: char, typed: char, current: Verdict) -> Verdict {
    if expected == typed {
        if current == Verdict::Incorrect || current == Verdict::Corrected {
            Verdict::Corrected
        } else {
            Verdict::Correct
        }
    } else {
        Verdict::Incorrect
    }
}

/// Whether a keystroke that left the cursor at `pos` completes a word: the
/// cursor reached the end of the text, or it stands on a space (in practice
/// mode, a space that is not marked wrong).
pub open spec fn word_credit(
    reference: Seq<char>,
    verdicts: Seq<Verdict>,
    pos: int,
    practice: bool,
) -> bool {
    pos == reference.len() || (pos < reference.len() && reference[pos] == ' ' && (!practice
        || verdicts[pos] != Verdict::Incorrect))
}

/// `n + 1`, saturating at the largest `usize`.
pub open spec fn sat_inc(n: usize) -> usize {
    if n < usize::MAX {
        (n + 1) as usize
    } else {
        n
    }
}

/// `a + b`, saturating at the largest `usize`.
pub open spec fn sat_add(a: nat, b: nat) -> usize {
    if a + b <= usize::MAX {
        (a + b) as usize
    } else {
        usize::MAX
    }
}

/// `n - 1`, saturating at zero.
pub open spec fn sat_dec(n: usize) -> usize {
    if n > 0 {
        (n - 1) as usize
    } else {
        0
    }
}

/// How many keystrokes of `log` produced verdict `v`.
pub open spec fn count_verdict(log: Seq<Keystroke>, v: Verdict) -> nat
    decreases log.len(),
{
    if log.len() == 0 {
        0
    } else {
        count_verdict(log.drop_last(), v) + if log.last().verdict == v {
            1nat
        } else {
            0nat
        }
    }
}

pub proof fn lemma_count_verdict_bound(log: Seq<Keystroke>, v: Verdict)
    ensures
        count_verdict(log, v) <= log.len(),
    decreases log.len(),
{
    if log.len() > 0 {
        lemma_count_verdict_bound(log.drop_last(), v);
    }
}

/// The matching state of one reference text.
pub struct MatchEngine {
    pub reference: Vec<char>,
    pub verdicts: Vec<Verdict>,
    pub pos: usize,
    pub log: Vec<Keystroke>,
    pub words_done: usize,
    pub practice: bool,
    /// Wrong keystrokes that held the cursor in practice mode: they count
    /// as keystrokes and errors but are not in the log.
    pub held_errors: usize,
}

impl MatchEngine {
    /// One verdict per reference character, the cursor inside the text, and
    /// never ahead of the number of logged keystrokes.
    pub open spec fn wf(&self) -> bool {
        &&& self.verdicts@.len() == self.reference@.len()
        &&& self.pos <= self.reference@.len()
        &&& self.pos <= self.log@.len()
    }

    /// `after` is `before` after the character `c` was typed, and `r` is
    /// what the call returned.
    pub open spec fn typed(before: MatchEngine, after: MatchEngine, c: char, r: Option<Verdict>) -> bool {
        &&& after.reference@ == before.reference@
        &&& after.practice == before.practice
        &&& before.pos == before.reference@.len() ==> r is None && after == before
        &&& before.pos < before.reference@.len() ==> {
            let p = before.pos as int;
            let v = classify(before.reference@[p], c, before.verdicts@[p]);
            &&& r == Some(v)
            &&& after.verdicts@ == before.verdicts@.update(p, v)
            &&& if before.practice && v == Verdict::Incorrect {
                &&& after.pos == before.pos
                &&& after.log@ == before.log@
                &&& after.words_done == before.words_done
                &&& after.held_errors == sat_inc(before.held_errors)
            } else {
                &&& after.pos == p + 1
                &&& after.log@ == before.log@.push(Keystroke { ch: c, verdict: v })
                &&& after.words_done == if word_credit(
                    after.reference@,
                    after.verdicts@,
                    after.pos as int,
                    after.practice,
                ) {
                    sat_inc(before.words_done)
                } else {
                    before.words_done
                }
                &&& after.held_errors == before.held_errors
            }
        }
    }

    /// `after` is `before` after a backspace.
    pub open spec fn backspaced(before: MatchEngine, after: MatchEngine) -> bool {
        &&& after.reference@ == before.reference@
        &&& after.verdicts@ == before.verdicts@
        &&& after.practice == before.practice
        &&& after.held_errors == before.held_errors
        &&& before.log@.len() == 0 ==> after == before
        &&& before.log@.len() > 0 ==> {
            &&& after.log@ == before.log@.drop_last()
            &&& after.pos == sat_dec(before.pos)
            &&& after.words_done == if before.pos < before.reference@.len()
                && before.reference@[before.pos as int] == ' ' {
                sat_dec(before.words_done)
            } else {
                before.words_done
            }
        }
    }

    pub fn new(reference: Vec<char>, practice: bool) -> (e: MatchEngine)
        ensures
            e.wf(),
            e.reference@ == reference@,
            e.verdicts@ == Seq::new(reference@.len(), |_i: int| Verdict::Untouched),
            e.pos == 0,
            e.log@.len() == 0,
            e.words_done == 0,
            e.practice == practice,
            e.held_errors == 0,
    {
        let verdicts = untouched_verdicts(reference.len());
        MatchEngine {
            reference,
            verdicts,
            pos: 0,
            log: Vec::new(),
            words_done: 0,
            practice,
            held_errors: 0,
        }
    }

    /// Applies a typed character. At the end of the text nothing changes and
    /// `None` comes back; otherwise the verdict set at the cursor is returned.
    /// The keystroke is logged and the cursor advances, except for a wrong
    /// key in practice mode, which holds the cursor and is only counted.
    pub fn type_char(&mut self, c: char) -> (r: Option<Verdict>)
        requires
            old(self).wf(),
        ensures
            final(self).wf(),
            MatchEngine::typed(*old(self), *final(self), c, r),
    {
        let p = self.pos;
        if p >= self.reference.len() {
            return None;
        }
        let expected = self.reference[p];
        let current = self.verdicts[p];
        let v = if expected == c {
            if current == Verdict::Incorrect || current == Verdict::Corrected {
                Verdict::Corrected
            } else {
                Verdict::Correct
            }
        } else {
            Verdict::Incorrect
        };
        self.verdicts.set(p, v);
        if self.practice && v == Verdict::Incorrect {
            self.held_errors = self.held_errors.saturating_add(1);
            return Some(v);
        }
        self.pos = p + 1;
        self.log.push(Keystroke { ch: c, verdict: v });
        let q = self.pos;
        let credit = if q == self.reference.len() {
            true
        } else {
            self.reference[q] == ' ' && (!self.practice || self.verdicts[q] != Verdict::Incorrect)
        };
        if credit {
            self.words_done = self.words_done.saturating_add(1);
        }
        Some(v)
    }

    /// Undoes the last keystroke: pops it from the log and moves the cursor
    /// back by one (never below zero). Leaving a space takes back the credit
    /// for the word before it. With an empty log nothing changes.
    pub fn backspace(&mut self)
        requires
            old(self).wf(),
        ensures
            final(self).wf(),
            MatchEngine::backspaced(*old(self), *final(self)),
            old(self).log@.len() == 0 ==> *final(self) == *old(self) && final(self).pos == 0,
    {
        if self.log.len() == 0 {
            return;
        }
        if self.pos < self.reference.len() && self.reference[self.pos] == ' ' {
            self.words_done = self.words_done.saturating_sub(1);
        }
        self.log.pop();
        if self.pos > 0 {
            self.pos = self.pos - 1;
        }
    }

    /// Swaps in a new reference text: every verdict is reset to `Untouched`
    /// and the cursor goes back to the start, while the keystroke log and the
    /// words done carry over.
    pub fn replace_reference(&mut self, reference: Vec<char>)
        requires
            old(self).wf(),
        ensures
            final(self).wf(),
            final(self).reference@ == reference@,
            final(self).verdicts@ == Seq::new(reference@.len(), |_i: int| Verdict::Untouched),
            final(self).pos == 0,
            final(self).log@ == old(self).log@,
            final(self).words_done == old(self).words_done,
            final(self).practice == old(self).practice,
            final(self).held_errors == old(self).held_errors,
    {
        self.verdicts = untouched_verdicts(reference.len());
        self.reference = reference;
        self.pos = 0;
    }

    /// The number of logged keystrokes with verdict `v`.
    pub fn count_keystrokes(&self, v: Verdict) -> (n: usize)
        ensures
            n == count_verdict(self.log@, v),
    {
        let mut n: usize = 0;
        let mut i: usize = 0;
        while i < self.log.len()
            invariant
                i <= self.log@.len(),
                n == count_verdict(self.log@.take(i as int), v),
            decreases self.log@.len() - i,
        {
            proof {
                assert(self.log@.take(i + 1).drop_last() =~= self.log@.take(i as int));
                lemma_count_verdict_bound(self.log@.take(i as int), v);
            }
            if self.log[i].verdict == v {
                n = n + 1;
            }
            i = i + 1;
        }
        assert(self.log@.take(i as int) =~= self.log@);
        n
    }

    /// Keystrokes that were right on the first try.
    pub fn correct_count(&self) -> (n: usize)
        ensures
            n == count_verdict(self.log@, Verdict::Correct),
    {
        self.count_keystrokes(Verdict::Correct)
    }

    /// Keystrokes that were wrong: the logged ones and those that held the
    /// cursor, capped at the largest `usize`.
    pub fn error_count(&self) -> (n: usize)
        ensures
            n == sat_add(count_verdict(self.log@, Verdict::Incorrect), self.held_errors as nat),
    {
        let logged = self.count_keystrokes(Verdict::Incorrect);
        logged.saturating_add(self.held_errors)
    }

    /// Every keystroke that landed on the text: the logged ones and those
    /// that held the cursor, capped at the largest `usize`.
    pub fn total_keystrokes(&self) -> (n: usize)
        ensures
            n == sat_add(self.log@.len(), self.held_errors as nat),
    {
        self.log.len().saturating_add(self.held_errors)
    }
}

/// While the keystroke log is empty the cursor is at the start, and a
/// backspace there changes nothing.
pub proof fn lemma_empty_log_at_start(e: MatchEngine)
    requires
        e.wf(),
        e.log@.len() == 0,
    ensures
        e.pos == 0,
{
}

/// `n` verdicts, all `Untouched`.
pub fn untouched_verdicts(n: usize) -> (v: Vec<Verdict>)
    ensures
        v@ == Seq::new(n as nat, |_i: int| Verdict::Untouched),
{
    let mut v: Vec<Verdict> = Vec::new();
    let mut i: usize = 0;
    while i < n
        invariant
            i <= n,
            v@ == Seq::new(i as nat, |_i: int| Verdict::Untouched),
        decreases n - i,
    {
        v.push(Verdict::Untouched);
        i = i + 1;
        assert(v@ =~= Seq::new(i as nat, |_i: int| Verdict::Untouched));
    }
    v
}

} // verus!
