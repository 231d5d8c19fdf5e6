//! The life cycle of one typing session: start on the first accepted
//! keystroke, one speed and error sample per elapsed second, completion by a
//! rule of the session's mode, and fresh text for the continuous modes.
//!
//! The session never reads a clock: every call that depends on time takes
//! the current instant in milliseconds, and any driver loop may call it at
//! its own pace.

use vstd::prelude::*;

use crate::engine::{
    classify, count_verdict, lemma_count_verdict_bound, sat_add, sat_inc, Keystroke, MatchEngine,
    Verdict,
};
use crate::metrics::{
    accuracy_basis_points, accuracy_spec, correct_words, count_correct_words, cpm_sample, cpm_spec,
    wpm_centi, wpm_spec,
};
use crate::leaderboard::{Language, LeaderboardEntry, TestType};
use crate::text::{count_words, word_count};

verus! {

/// How a session ends.
#[derive(Debug, Clone, Copy, PartialEq, Eq, Structural)]
pub enum Mode {
    /// Ends when the given number of seconds has passed.
    Timed(u64),
    /// Ends when the given number of words is done.
    WordCount(usize),
    /// Ends when the quote has been typed through.
    Quote,
    /// Ends when the article summary has been typed through.
    Wiki,
    /// A lesson of the given level: ends after 50 words or at the end of the
    /// text, and a wrong keystroke holds the cursor in place.
    Practice(usize),
}

/// The words after which a practice lesson ends.
pub const PRACTICE_WORDS: usize = 50;

/// Where a session stands.
#[derive(Debug, Clone, Copy, PartialEq, Eq, Structural)]
pub enum GameState {
    NotStarted,
    Started,
    Results,
}

/// One input event of the typing area.
#[derive(Debug, Clone, Copy, PartialEq, Eq, Structural)]
pub enum KeyInput {
    Char(char),
    Backspace,
}

/// What the driver is to do after a call.
#[derive(Debug, Clone, Copy, PartialEq, Eq, Structural)]
pub enum Step {
    /// Nothing.
    Continue,
    /// The text is used up: hand a fresh one to `supply_reference`.
    NeedReference,
    /// The session just finished: its summary is final.
    Finished,
}

/// The figures of a session.
#[derive(Debug, Clone, Copy, PartialEq, Eq, Structural)]
pub struct Summary {
    pub correct_words: usize,
    pub wpm_centi: u64,
    pub accuracy_bp: u64,
    pub words_done: usize,
    pub keystrokes: usize,
    pub elapsed_ms: u64,
}

pub open spec fn is_practice(mode: Mode) -> bool {
    mode is Practice
}

/// Timed and word-count sessions run on fresh text when the text runs out.
pub open spec fn is_continuous(mode: Mode) -> bool {
    mode is Timed || mode is WordCount
}

/// Milliseconds from `start` to `now`; zero if `now` is earlier.
pub open spec fn elapsed_spec(start: u64, now: u64) -> nat {
    if now >= start {
        (now - start) as nat
    } else {
        0
    }
}

/// The completion rule of each mode.
pub open spec fn is_complete(
    mode: Mode,
    elapsed_ms: nat,
    words_done: nat,
    pos: nat,
    len: nat,
    total_words: nat,
) -> bool {
    match mode {
        Mode::Timed(secs) => elapsed_ms >= secs * 1000,
        Mode::WordCount(target) => words_done >= target,
        Mode::Quote => pos >= len || words_done >= total_words,
        Mode::Wiki => pos >= len || words_done >= total_words,
        Mode::Practice(_) => words_done >= PRACTICE_WORDS || pos >= len,
    }
}

/// `base`, then `first`, then `k - 1` zeros; just `base` when `k` is 0.
pub open spec fn with_samples(base: Seq<usize>, first: usize, k: nat) -> Seq<usize> {
    if k == 0 {
        base
    } else {
        base.push(first) + Seq::new((k - 1) as nat, |_i: int| 0usize)
    }
}

/// A typing session over one mode.
pub struct Session {
    pub engine: MatchEngine,
    pub mode: Mode,
    pub state: GameState,
    pub start_ms: u64,
    pub last_tick_ms: u64,
    pub chars_at_last_tick: usize,
    pub errors_this_second: usize,
    pub speed_per_second: Vec<usize>,
    pub errors_per_second: Vec<usize>,
    pub elapsed_ms: u64,
    pub total_words: usize,
}

impl Session {
    /// The engine is well formed, holds the mode's practice flag and the
    /// word count of its text, and both series have one entry per sample.
    pub open spec fn wf(&self) -> bool {
        &&& self.engine.wf()
        &&& self.engine.practice == is_practice(self.mode)
        &&& self.total_words == word_count(self.engine.reference@)
        &&& self.speed_per_second@.len() == self.errors_per_second@.len()
    }

    /// The completion rule applied to this session at instant `now`.
    pub open spec fn complete_at(&self, now: u64) -> bool {
        is_complete(
            self.mode,
            elapsed_spec(self.start_ms, now),
            self.engine.words_done as nat,
            self.engine.pos as nat,
            self.engine.reference@.len(),
            self.total_words as nat,
        )
    }

    /// `after` is `before` with one sample in each series for every whole
    /// second since the last sample, up to `now`: the first holds the
    /// keystrokes and errors of that second, any later one zero.
    pub open spec fn sampled_to(before: Session, after: Session, now: u64) -> bool {
        let k = elapsed_spec(before.last_tick_ms, now) / 1000;
        &&& after.state == before.state
        &&& after.engine == before.engine
        &&& after.mode == before.mode
        &&& after.elapsed_ms == before.elapsed_ms
        &&& after.start_ms == before.start_ms
        &&& after.total_words == before.total_words
        &&& after.last_tick_ms == before.last_tick_ms + 1000 * k
        &&& after.speed_per_second@ == with_samples(
            before.speed_per_second@,
            cpm_spec(before.engine.log@.len(), before.chars_at_last_tick as nat) as usize,
            k,
        )
        &&& after.errors_per_second@ == with_samples(
            before.errors_per_second@,
            before.errors_this_second,
            k,
        )
        &&& after.chars_at_last_tick == if k > 0 {
            before.engine.log@.len() as usize
        } else {
            before.chars_at_last_tick
        }
        &&& after.errors_this_second == if k > 0 {
            0
        } else {
            before.errors_this_second
        }
    }

    /// `after` is `before` finished at `now`: the whole seconds not yet
    /// sampled are sampled, then the open second is flushed into both series,
    /// and the elapsed time is fixed.
    pub open spec fn finished_from(before: Session, after: Session, now: u64) -> bool {
        exists|mid: Session|
            #[trigger] Session::sampled_to(before, mid, now) && {
                &&& after.state == GameState::Results
                &&& after.engine == mid.engine
                &&& after.mode == mid.mode
                &&& after.start_ms == mid.start_ms
                &&& after.last_tick_ms == mid.last_tick_ms
                &&& after.chars_at_last_tick == mid.chars_at_last_tick
                &&& after.errors_this_second == mid.errors_this_second
                &&& after.total_words == mid.total_words
                &&& after.speed_per_second@ == mid.speed_per_second@.push(
                    cpm_spec(mid.engine.log@.len(), mid.chars_at_last_tick as nat) as usize,
                )
                &&& after.errors_per_second@ == mid.errors_per_second@.push(
                    mid.errors_this_second,
                )
                &&& after.elapsed_ms == elapsed_spec(before.start_ms, now)
            }
    }

    /// Everything but the engine is the same in `a` and `b`.
    pub open spec fn same_clock(a: Session, b: Session) -> bool {
        &&& b.mode == a.mode
        &&& b.state == a.state
        &&& b.start_ms == a.start_ms
        &&& b.last_tick_ms == a.last_tick_ms
        &&& b.chars_at_last_tick == a.chars_at_last_tick
        &&& b.errors_this_second == a.errors_this_second
        &&& b.speed_per_second@ == a.speed_per_second@
        &&& b.errors_per_second@ == a.errors_per_second@
        &&& b.elapsed_ms == a.elapsed_ms
        &&& b.total_words == a.total_words
    }

    /// `mid` is `before` after the character `c` landed at instant `now`:
    /// the first character on the text starts the clock, the engine takes
    /// the character, and a wrong one counts towards this second's errors.
    pub open spec fn char_applied(before: Session, mid: Session, c: char, now: u64) -> bool {
        &&& mid.mode == before.mode
        &&& mid.total_words == before.total_words
        &&& mid.elapsed_ms == before.elapsed_ms
        &&& mid.chars_at_last_tick == before.chars_at_last_tick
        &&& mid.speed_per_second@ == before.speed_per_second@
        &&& mid.errors_per_second@ == before.errors_per_second@
        &&& if before.engine.pos < before.engine.reference@.len() {
            let r = Some(
                classify(
                    before.engine.reference@[before.engine.pos as int],
                    c,
                    before.engine.verdicts@[before.engine.pos as int],
                ),
            );
            &&& MatchEngine::typed(before.engine, mid.engine, c, r)
            &&& mid.state == GameState::Started
            &&& before.state == GameState::NotStarted ==> mid.start_ms == now && mid.last_tick_ms
                == now
            &&& before.state != GameState::NotStarted ==> mid.start_ms == before.start_ms
                && mid.last_tick_ms == before.last_tick_ms
            &&& mid.errors_this_second == if r == Some(Verdict::Incorrect) {
                sat_inc(before.errors_this_second)
            } else {
                before.errors_this_second
            }
        } else {
            &&& mid.engine == before.engine
            &&& mid.state == before.state
            &&& mid.start_ms == before.start_ms
            &&& mid.last_tick_ms == before.last_tick_ms
            &&& mid.errors_this_second == before.errors_this_second
        }
    }

    /// What follows an input: a started session whose rule holds at `now`
    /// finishes; otherwise nothing changes, and a continuous session that
    /// ran out of text asks for more.
    pub open spec fn input_outcome(mid: Session, after: Session, step: Step, now: u64) -> bool {
        if mid.state == GameState::Started && mid.complete_at(now) {
            &&& step == Step::Finished
            &&& Session::finished_from(mid, after, now)
        } else {
            &&& after == mid
            &&& step == if is_continuous(mid.mode) && mid.engine.pos >= mid.engine.reference@.len() {
                Step::NeedReference
            } else {
                Step::Continue
            }
        }
    }

    /// A session that has not started, over `reference`.
    pub fn new(reference: Vec<char>, mode: Mode) -> (s: Session)
        ensures
            s.wf(),
            s.mode == mode,
            s.state == GameState::NotStarted,
            s.engine.reference@ == reference@,
            s.engine.verdicts@ == Seq::new(reference@.len(), |_i: int| Verdict::Untouched),
            s.engine.pos == 0,
            s.engine.log@.len() == 0,
            s.engine.words_done == 0,
            s.engine.held_errors == 0,
            s.engine.practice == is_practice(mode),
            s.total_words == word_count(reference@),
            s.start_ms == 0,
            s.last_tick_ms == 0,
            s.speed_per_second@.len() == 0,
            s.errors_per_second@.len() == 0,
            s.errors_this_second == 0,
            s.chars_at_last_tick == 0,
            s.elapsed_ms == 0,
    {
        let practice = match mode {
            Mode::Practice(_) => true,
            _ => false,
        };
        let total_words = count_words(&reference);
        Session {
            engine: MatchEngine::new(reference, practice),
            mode,
            state: GameState::NotStarted,
            start_ms: 0,
            last_tick_ms: 0,
            chars_at_last_tick: 0,
            errors_this_second: 0,
            speed_per_second: Vec::new(),
            errors_per_second: Vec::new(),
            elapsed_ms: 0,
            total_words,
        }
    }

    /// Whether the completion rule holds at `now`.
    pub fn check_complete(&self, now_ms: u64) -> (r: bool)
        requires
            self.wf(),
        ensures
            r == self.complete_at(now_ms),
    {
        let elapsed = if now_ms >= self.start_ms {
            now_ms - self.start_ms
        } else {
            0
        };
        let len = self.engine.reference.len();
        let pos = self.engine.pos;
        let words = self.engine.words_done;
        match self.mode {
            Mode::Timed(secs) => (elapsed as u128) >= (secs as u128) * 1000,
            Mode::WordCount(target) => words >= target,
            Mode::Quote => pos >= len || words >= self.total_words,
            Mode::Wiki => pos >= len || words >= self.total_words,
            Mode::Practice(_) => words >= PRACTICE_WORDS || pos >= len,
        }
    }

    /// Ends the session at `now`.
    fn finish(&mut self, now_ms: u64)
        requires
            old(self).wf(),
        ensures
            final(self).wf(),
            Session::finished_from(*old(self), *final(self), now_ms),
    {
        self.sample_through(now_ms);
        let ghost mid = *self;
        let sample = cpm_sample(self.engine.log.len(), self.chars_at_last_tick);
        self.speed_per_second.push(sample);
        self.errors_per_second.push(self.errors_this_second);
        self.state = GameState::Results;
        self.elapsed_ms = if now_ms >= self.start_ms {
            now_ms - self.start_ms
        } else {
            0
        };
        assert(Session::sampled_to(*old(self), mid, now_ms));
    }

    /// Decides what follows an input: finish if the mode's rule holds, ask
    /// for fresh text if a continuous session ran out of it, else nothing.
    fn after_input(&mut self, now_ms: u64) -> (step: Step)
        requires
            old(self).wf(),
        ensures
            final(self).wf(),
            Session::input_outcome(*old(self), *final(self), step, now_ms),
    {
        if self.state == GameState::Started && self.check_complete(now_ms) {
            self.finish(now_ms);
            return Step::Finished;
        }
        let continuous = match self.mode {
            Mode::Timed(_) => true,
            Mode::WordCount(_) => true,
            _ => false,
        };
        if continuous && self.engine.pos >= self.engine.reference.len() {
            Step::NeedReference
        } else {
            Step::Continue
        }
    }

    /// Applies one input event at instant `now`. A finished session ignores
    /// input. The first character that lands on the text starts the session
    /// and its clock; a wrong one counts towards the current second's
    /// errors.
    pub fn on_key(&mut self, key: KeyInput, now_ms: u64) -> (step: Step)
        requires
            old(self).wf(),
        ensures
            final(self).wf(),
            final(self).mode == old(self).mode,
            old(self).state == GameState::Results ==> *final(self) == *old(self) && step
                == Step::Continue,
            old(self).state != GameState::Results ==> match key {
                KeyInput::Backspace => {
                    &&& step == Step::Continue
                    &&& MatchEngine::backspaced(old(self).engine, final(self).engine)
                    &&& Session::same_clock(*old(self), *final(self))
                },
                KeyInput::Char(c) => exists|mid: Session|
                    #[trigger] Session::char_applied(*old(self), mid, c, now_ms)
                        && Session::input_outcome(mid, *final(self), step, now_ms),
            },
    {
        if self.state == GameState::Results {
            return Step::Continue;
        }
        match key {
            KeyInput::Backspace => {
                self.engine.backspace();
                Step::Continue
            },
            KeyInput::Char(c) => {
                if self.engine.pos < self.engine.reference.len() {
                    if self.state == GameState::NotStarted {
                        self.state = GameState::Started;
                        self.start_ms = now_ms;
                        self.last_tick_ms = now_ms;
                    }
                    let v = self.engine.type_char(c);
                    if v == Some(Verdict::Incorrect) {
                        self.errors_this_second = self.errors_this_second.saturating_add(1);
                    }
                }
                let ghost mid = *self;
                let step = self.after_input(now_ms);
                assert(Session::char_applied(*old(self), mid, c, now_ms));
                step
            },
        }
    }

    /// Swaps in fresh text for a continuous session: every verdict goes back
    /// to `Untouched` and the cursor to the start, while the words done, the
    /// keystroke log, the series and the state carry over.
    pub fn supply_reference(&mut self, reference: Vec<char>)
        requires
            old(self).wf(),
        ensures
            final(self).wf(),
            final(self).engine.reference@ == reference@,
            final(self).engine.verdicts@ == Seq::new(reference@.len(), |_i: int| Verdict::Untouched),
            final(self).engine.pos == 0,
            final(self).engine.words_done == old(self).engine.words_done,
            final(self).engine.log@ == old(self).engine.log@,
            final(self).state == old(self).state,
            final(self).mode == old(self).mode,
            final(self).speed_per_second@ == old(self).speed_per_second@,
            final(self).errors_per_second@ == old(self).errors_per_second@,
            final(self).start_ms == old(self).start_ms,
            final(self).last_tick_ms == old(self).last_tick_ms,
            final(self).chars_at_last_tick == old(self).chars_at_last_tick,
            final(self).errors_this_second == old(self).errors_this_second,
            final(self).elapsed_ms == old(self).elapsed_ms,
            final(self).engine.held_errors == old(self).engine.held_errors,
            final(self).total_words == word_count(reference@),
    {
        self.total_words = count_words(&reference);
        self.engine.replace_reference(reference);
    }

    /// Advances the clock of a started session to `now`: finishes it if the
    /// mode's rule holds, else appends one sample to each series for every
    /// whole second since the last sample. The first such sample holds the
    /// keystrokes and errors of that second, any later one zero.
    pub fn on_tick(&mut self, now_ms: u64) -> (step: Step)
        requires
            old(self).wf(),
        ensures
            final(self).wf(),
            old(self).state != GameState::Started ==> *final(self) == *old(self) && step
                == Step::Continue,
            old(self).state == GameState::Started && old(self).complete_at(now_ms) ==> {
                &&& step == Step::Finished
                &&& Session::finished_from(*old(self), *final(self), now_ms)
            },
            old(self).state == GameState::Started && !old(self).complete_at(now_ms) ==> {
                &&& step == Step::Continue
                &&& Session::sampled_to(*old(self), *final(self), now_ms)
            },
    {
        if self.state != GameState::Started {
            return Step::Continue;
        }
        if self.check_complete(now_ms) {
            self.finish(now_ms);
            return Step::Finished;
        }
        self.sample_through(now_ms);
        Step::Continue
    }

    /// Appends one sample to each series for every whole second since the
    /// last sample.
    fn sample_through(&mut self, now_ms: u64)
        requires
            old(self).wf(),
        ensures
            final(self).wf(),
            Session::sampled_to(*old(self), *final(self), now_ms),
    {
        let ghost first = cpm_spec(self.engine.log@.len(), self.chars_at_last_tick as nat) as usize;
        let ghost s0 = *self;
        let mut j: u64 = 0;
        while now_ms >= self.last_tick_ms && now_ms - self.last_tick_ms >= 1000
            invariant
                self.wf(),
                self.state == s0.state,
                self.engine == s0.engine,
                self.start_ms == s0.start_ms,
                self.total_words == s0.total_words,
                self.mode == s0.mode,
                self.elapsed_ms == s0.elapsed_ms,
                self.last_tick_ms == s0.last_tick_ms + 1000 * j,
                s0.last_tick_ms + 1000 * j <= u64::MAX,
                s0.last_tick_ms <= now_ms ==> s0.last_tick_ms + 1000 * j <= now_ms,
                j > 0 ==> s0.last_tick_ms <= now_ms,
                self.speed_per_second@ == with_samples(s0.speed_per_second@, first, j as nat),
                self.errors_per_second@ == with_samples(
                    s0.errors_per_second@,
                    s0.errors_this_second,
                    j as nat,
                ),
                self.chars_at_last_tick == if j > 0 {
                    s0.engine.log@.len() as usize
                } else {
                    s0.chars_at_last_tick
                },
                self.errors_this_second == if j > 0 {
                    0
                } else {
                    s0.errors_this_second
                },
                first == cpm_spec(s0.engine.log@.len(), s0.chars_at_last_tick as nat) as usize,
            decreases now_ms - self.last_tick_ms,
        {
            let sample = cpm_sample(self.engine.log.len(), self.chars_at_last_tick);
            proof {
                if j > 0 {
                    assert(sample == 0);
                }
            }
            self.speed_per_second.push(sample);
            self.errors_per_second.push(self.errors_this_second);
            self.chars_at_last_tick = self.engine.log.len();
            self.errors_this_second = 0;
            self.last_tick_ms = self.last_tick_ms + 1000;
            proof {
                let jn = (j + 1) as nat;
                assert(self.speed_per_second@ =~= with_samples(s0.speed_per_second@, first, jn));
                assert(self.errors_per_second@ =~= with_samples(
                    s0.errors_per_second@,
                    s0.errors_this_second,
                    jn,
                ));
            }
            j = j + 1;
        }
        proof {
            let d = elapsed_spec(s0.last_tick_ms, now_ms);
            assert(j as nat == d / 1000) by (nonlinear_arith)
                requires
                    d >= 1000 * j,
                    d - 1000 * j < 1000,
            ;
        }
    }

    /// The figures of the session as it stands: words typed entirely right
    /// in the current text, words per minute over the elapsed time fixed at
    /// the finish, and the share of keystrokes right on the first try.
    pub fn summary(&self) -> (r: Summary)
        requires
            self.wf(),
        ensures
            r.correct_words == correct_words(self.engine.reference@, self.engine.verdicts@),
            r.wpm_centi == wpm_spec(r.correct_words as nat, self.elapsed_ms as nat),
            r.accuracy_bp == accuracy_spec(
                count_verdict(self.engine.log@, Verdict::Correct),
                sat_add(self.engine.log@.len(), self.engine.held_errors as nat) as nat,
            ),
            r.words_done == self.engine.words_done,
            r.keystrokes == sat_add(self.engine.log@.len(), self.engine.held_errors as nat),
            r.elapsed_ms == self.elapsed_ms,
    {
        let cw = count_correct_words(&self.engine.reference, &self.engine.verdicts);
        let correct = self.engine.correct_count();
        proof {
            lemma_count_verdict_bound(self.engine.log@, Verdict::Correct);
        }
        let total = self.engine.total_keystrokes();
        Summary {
            correct_words: cw,
            wpm_centi: wpm_centi(cw, self.elapsed_ms),
            accuracy_bp: accuracy_basis_points(correct, total),
            words_done: self.engine.words_done,
            keystrokes: total,
            elapsed_ms: self.elapsed_ms,
        }
    }
}

/// In every well-formed session, and so after every operation, there is
/// one verdict per character of the current text and the cursor lies
/// within that text.
pub proof fn lemma_session_shape(s: Session)
    requires
        s.wf(),
    ensures
        s.engine.verdicts@.len() == s.engine.reference@.len(),
        0 <= s.engine.pos <= s.engine.reference@.len(),
{
}

/// The input event a raw character stands for: backspace, a character to
/// type, or nothing for the control keys (escape, tab, line breaks, delete
/// and the arrow-key codes of the private use area).
pub open spec fn key_of(ch: char) -> Option<KeyInput> {
    if ch == '\u{8}' {
        Some(KeyInput::Backspace)
    } else if ch == '\u{1b}' || ch == '\t' || ch == '\n' || ch == '\r' || ch == '\u{7f}' || ('\u{f700}'
        <= ch && ch <= '\u{f705}') {
        None
    } else {
        Some(KeyInput::Char(ch))
    }
}

pub fn key_from_char(ch: char) -> (r: Option<KeyInput>)
    ensures
        r == key_of(ch),
{
    if ch == '\u{8}' {
        Some(KeyInput::Backspace)
    } else if ch == '\u{1b}' || ch == '\t' || ch == '\n' || ch == '\r' || ch == '\u{7f}' || ('\u{f700}'
        <= ch && ch <= '\u{f705}') {
        None
    } else {
        Some(KeyInput::Char(ch))
    }
}

/// The mode that a set of configuration switches selects: quote first, then
/// practice, time and wiki, and word count when none is on.
pub open spec fn mode_of(
    time_mode: bool,
    quote: bool,
    wiki_mode: bool,
    practice_mode: bool,
    test_secs: u64,
    word_number: usize,
    level: usize,
) -> Mode {
    if quote {
        Mode::Quote
    } else if practice_mode {
        Mode::Practice(level)
    } else if time_mode {
        Mode::Timed(test_secs)
    } else if wiki_mode {
        Mode::Wiki
    } else {
        Mode::WordCount(word_number)
    }
}

pub fn select_mode(
    time_mode: bool,
    quote: bool,
    wiki_mode: bool,
    practice_mode: bool,
    test_secs: u64,
    word_number: usize,
    level: usize,
) -> (m: Mode)
    ensures
        m == mode_of(time_mode, quote, wiki_mode, practice_mode, test_secs, word_number, level),
{
    if quote {
        Mode::Quote
    } else if practice_mode {
        Mode::Practice(level)
    } else if time_mode {
        Mode::Timed(test_secs)
    } else if wiki_mode {
        Mode::Wiki
    } else {
        Mode::WordCount(word_number)
    }
}

/// The test type a leaderboard entry records for a mode; practice levels
/// are counted from one.
pub open spec fn test_type_of(mode: Mode) -> TestType {
    match mode {
        Mode::Timed(secs) => TestType::Time(secs),
        Mode::WordCount(n) => TestType::Word(n as u64),
        Mode::Quote => TestType::Quote,
        Mode::Wiki => TestType::Wiki,
        Mode::Practice(level) => TestType::Practice(
            if (level as u64) < u64::MAX {
                (level + 1) as u64
            } else {
                u64::MAX
            },
        ),
    }
}

/// The name a leaderboard entry gives a mode.
pub open spec fn mode_name(mode: Mode) -> Seq<char> {
    match mode {
        Mode::Timed(_) => seq!['t', 'i', 'm', 'e'],
        Mode::WordCount(_) => seq!['w', 'o', 'r', 'd'],
        Mode::Quote => seq!['q', 'u', 'o', 't', 'e'],
        Mode::Wiki => seq!['w', 'i', 'k', 'i'],
        Mode::Practice(_) => seq!['p', 'r', 'a', 'c', 't', 'i', 'c', 'e'],
    }
}

pub fn mode_name_chars(mode: Mode) -> (r: Vec<char>)
    ensures
        r@ == mode_name(mode),
{
    let r = match mode {
        Mode::Timed(_) => vec!['t', 'i', 'm', 'e'],
        Mode::WordCount(_) => vec!['w', 'o', 'r', 'd'],
        Mode::Quote => vec!['q', 'u', 'o', 't', 'e'],
        Mode::Wiki => vec!['w', 'i', 'k', 'i'],
        Mode::Practice(_) => vec!['p', 'r', 'a', 'c', 't', 'i', 'c', 'e'],
    };
    assert(r@ =~= mode_name(mode));
    r
}

impl Session {
    /// The leaderboard record of a finished session, stamped with
    /// `timestamp`; a session that has not finished has none, so a session
    /// left half way is never recorded.
    pub fn leaderboard_entry(&self, language: Language, timestamp: Vec<char>) -> (r: Option<
        LeaderboardEntry,
    >)
        requires
            self.wf(),
        ensures
            self.state != GameState::Results ==> r is None,
            self.state == GameState::Results ==> (r matches Some(e) && {
                &&& e.wpm_centi == wpm_spec(
                    correct_words(self.engine.reference@, self.engine.verdicts@),
                    self.elapsed_ms as nat,
                )
                &&& e.accuracy_bp == accuracy_spec(
                    count_verdict(self.engine.log@, Verdict::Correct),
                    sat_add(self.engine.log@.len(), self.engine.held_errors as nat) as nat,
                )
                &&& e.test_type == test_type_of(self.mode)
                &&& e.test_mode@ == mode_name(self.mode)
                &&& e.word_count == self.engine.words_done as u64
                &&& e.duration_ms == self.elapsed_ms
                &&& e.timestamp@ == timestamp@
                &&& e.language == language
            }),
    {
        if self.state != GameState::Results {
            return None;
        }
        let sum = self.summary();
        let test_type = match self.mode {
            Mode::Timed(secs) => TestType::Time(secs),
            Mode::WordCount(n) => TestType::Word(n as u64),
            Mode::Quote => TestType::Quote,
            Mode::Wiki => TestType::Wiki,
            Mode::Practice(level) => TestType::Practice(
                if (level as u64) < u64::MAX {
                    level as u64 + 1
                } else {
                    u64::MAX
                },
            ),
        };
        Some(
            LeaderboardEntry {
                wpm_centi: sum.wpm_centi,
                accuracy_bp: sum.accuracy_bp,
                test_type,
                test_mode: mode_name_chars(self.mode),
                word_count: sum.words_done as u64,
                duration_ms: self.elapsed_ms,
                timestamp,
                language,
            },
        )
    }
}

/// In a timed session whose time is not up, the keystroke that reaches the
/// end of the text leaves the session running and asks for fresh text: the
/// keystroke is logged, the words done do not go down, and nothing is reset
/// until `supply_reference` swaps the text in.
pub proof fn lemma_timed_rollover(
    before: Session,
    mid: Session,
    after: Session,
    c: char,
    now: u64,
    step: Step,
)
    requires
        before.wf(),
        before.mode is Timed,
        before.state == GameState::Started,
        elapsed_spec(before.start_ms, now) < before.mode->Timed_0 * 1000,
        before.engine.pos + 1 == before.engine.reference@.len(),
        Session::char_applied(before, mid, c, now),
        Session::input_outcome(mid, after, step, now),
    ensures
        step == Step::NeedReference,
        after.state == GameState::Started,
        after.start_ms == before.start_ms,
        after.engine.pos == after.engine.reference@.len(),
        after.engine.reference@ == before.engine.reference@,
        after.engine.words_done >= before.engine.words_done,
        after.engine.log@ == before.engine.log@.push(
            Keystroke {
                ch: c,
                verdict: classify(
                    before.engine.reference@[before.engine.pos as int],
                    c,
                    before.engine.verdicts@[before.engine.pos as int],
                ),
            },
        ),
{
}

/// The window within which a second press of the restart key counts.
pub const RESTART_WINDOW_MS: u64 = 1000;

/// Whether `now` lies less than one window after `armed`.
pub open spec fn in_window(armed: u64, now: u64) -> bool {
    now >= armed && now - armed < RESTART_WINDOW_MS
}

/// Debounce of the restart key: a press arms it, a second press within one
/// second fires it, and further presses before that second is over are
/// ignored.
#[derive(Debug, Clone, Copy, PartialEq, Eq, Structural)]
pub struct RestartGuard {
    pub armed_at: Option<u64>,
    pub fired: bool,
}

impl RestartGuard {
    pub fn new() -> (g: RestartGuard)
        ensures
            g.armed_at is None,
            !g.fired,
    {
        RestartGuard { armed_at: None, fired: false }
    }

    /// Records a press at `now` and says whether the session is to restart.
    pub fn press(&mut self, now_ms: u64) -> (restart: bool)
        ensures
            match old(self).armed_at {
                Some(t) if in_window(t, now_ms) => {
                    &&& restart == !old(self).fired
                    &&& final(self).armed_at == old(self).armed_at
                    &&& final(self).fired
                },
                _ => {
                    &&& !restart
                    &&& final(self).armed_at == Some(now_ms)
                    &&& !final(self).fired
                },
            },
    {
        match self.armed_at {
            Some(t) => {
                if now_ms >= t && now_ms - t < RESTART_WINDOW_MS {
                    let restart = !self.fired;
                    self.fired = true;
                    return restart;
                }
            },
            None => {},
        }
        self.armed_at = Some(now_ms);
        self.fired = false;
        false
    }
}

} // verus!
