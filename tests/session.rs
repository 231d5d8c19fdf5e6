use typeman::engine::Verdict;
use typeman::leaderboard::{Language, TestType};
use typeman::session::{
    key_from_char, select_mode, GameState, KeyInput, Mode, RestartGuard, Session, Step,
};

fn chars(s: &str) -> Vec<char> {
    s.chars().collect()
}

fn type_all(s: &mut Session, text: &str, now: u64) -> Step {
    let mut step = Step::Continue;
    for c in text.chars() {
        step = s.on_key(KeyInput::Char(c), now);
    }
    step
}

#[test]
fn quote_typed_exactly_scores_full_accuracy() {
    let mut s = Session::new(chars("cat dog"), Mode::Quote);
    let step = type_all(&mut s, "cat dog", 1_000);
    assert_eq!(step, Step::Finished);
    assert_eq!(s.state, GameState::Results);
    assert_eq!(s.engine.verdicts, vec![Verdict::Correct; 7]);
    let sum = s.summary();
    assert_eq!(sum.words_done, 2);
    assert_eq!(sum.accuracy_bp, 10000);
    assert_eq!(sum.correct_words, 2);
}

#[test]
fn first_keystroke_starts_the_clock() {
    let mut s = Session::new(chars("abc"), Mode::Timed(15));
    assert_eq!(s.state, GameState::NotStarted);
    s.on_key(KeyInput::Char('a'), 5_000);
    assert_eq!(s.state, GameState::Started);
    assert_eq!(s.start_ms, 5_000);
    s.on_key(KeyInput::Char('b'), 6_000);
    assert_eq!(s.start_ms, 5_000);
}

#[test]
fn wrong_keystroke_counts_in_the_current_second() {
    let mut s = Session::new(chars("cat"), Mode::Timed(30));
    type_all(&mut s, "cxt", 0);
    assert_eq!(s.engine.pos, 3);
    assert_eq!(s.engine.verdicts, vec![Verdict::Correct, Verdict::Incorrect, Verdict::Correct]);
    assert_eq!(s.engine.error_count(), 1);
    assert_eq!(s.errors_this_second, 1);
}

#[test]
fn practice_session_holds_on_mistake() {
    let mut s = Session::new(chars("cat"), Mode::Practice(0));
    type_all(&mut s, "cx", 0);
    assert_eq!(s.engine.pos, 1);
    s.on_key(KeyInput::Char('a'), 10);
    assert_eq!(s.engine.verdicts[1], Verdict::Corrected);
    assert_eq!(s.engine.pos, 2);
}

#[test]
fn timed_session_rolls_over_to_fresh_text() {
    let mut s = Session::new(chars("ab"), Mode::Timed(15));
    s.on_key(KeyInput::Char('a'), 1_000);
    let step = s.on_key(KeyInput::Char('b'), 2_000);
    assert_eq!(step, Step::NeedReference);
    let words = s.engine.words_done;
    assert_eq!(words, 1);
    s.supply_reference(chars("xyz w"));
    assert_eq!(s.engine.verdicts, vec![Verdict::Untouched; 5]);
    assert_eq!(s.engine.pos, 0);
    assert_eq!(s.engine.words_done, words);
    assert_eq!(s.engine.log.len(), 2);
    assert_eq!(s.state, GameState::Started);
    assert_eq!(s.total_words, 2);
}

#[test]
fn timed_session_finishes_when_time_is_up() {
    let mut s = Session::new(chars("abc def"), Mode::Timed(15));
    s.on_key(KeyInput::Char('a'), 0);
    assert_eq!(s.on_tick(14_999), Step::Continue);
    assert_eq!(s.state, GameState::Started);
    assert_eq!(s.on_tick(15_000), Step::Finished);
    assert_eq!(s.state, GameState::Results);
    assert_eq!(s.elapsed_ms, 15_000);
    assert_eq!(s.speed_per_second.len(), s.errors_per_second.len());
    assert_eq!(s.on_key(KeyInput::Char('b'), 15_001), Step::Continue);
    assert_eq!(s.engine.pos, 1);
}

#[test]
fn ticks_sample_each_elapsed_second() {
    let mut s = Session::new(chars("abcdef"), Mode::Timed(60));
    type_all(&mut s, "abx", 0);
    s.on_tick(999);
    assert_eq!(s.speed_per_second.len(), 0);
    s.on_tick(3_500);
    assert_eq!(s.speed_per_second, vec![180, 0, 0]);
    assert_eq!(s.errors_per_second, vec![1, 0, 0]);
    assert_eq!(s.last_tick_ms, 3_000);
    assert_eq!(s.chars_at_last_tick, 3);
    assert_eq!(s.errors_this_second, 0);
}

#[test]
fn finishing_flushes_the_open_second() {
    let mut s = Session::new(chars("ab"), Mode::Quote);
    s.on_key(KeyInput::Char('a'), 100);
    let step = s.on_key(KeyInput::Char('x'), 400);
    assert_eq!(step, Step::Finished);
    assert_eq!(s.speed_per_second, vec![120]);
    assert_eq!(s.errors_per_second, vec![1]);
    assert_eq!(s.elapsed_ms, 300);
}

#[test]
fn practice_accuracy_counts_held_mistakes() {
    let mut s = Session::new(chars("cat"), Mode::Practice(0));
    type_all(&mut s, "cxat", 0);
    assert_eq!(s.state, GameState::Results);
    let sum = s.summary();
    assert_eq!(sum.keystrokes, 4);
    assert_eq!(sum.accuracy_bp, 5000);
    assert_eq!(s.errors_per_second, vec![1]);
}

#[test]
fn quote_with_one_wrong_key_ends_at_the_end() {
    let mut s = Session::new(chars("cat"), Mode::Quote);
    assert_eq!(s.on_key(KeyInput::Char('c'), 0), Step::Continue);
    assert_eq!(s.on_key(KeyInput::Char('x'), 1), Step::Continue);
    assert_eq!(s.on_key(KeyInput::Char('t'), 2), Step::Finished);
    assert_eq!(s.engine.pos, 3);
    assert_eq!(s.engine.error_count(), 1);
}

#[test]
fn finishing_after_a_gap_samples_every_second() {
    let mut s = Session::new(chars("abcdef"), Mode::Timed(3));
    type_all(&mut s, "ab", 0);
    assert_eq!(s.on_tick(3_200), Step::Finished);
    assert_eq!(s.speed_per_second, vec![120, 0, 0, 0]);
    assert_eq!(s.errors_per_second, vec![0, 0, 0, 0]);
    assert_eq!(s.elapsed_ms, 3_200);
}

#[test]
fn supplying_text_keeps_the_clock() {
    let mut s = Session::new(chars("a"), Mode::Timed(15));
    let step = s.on_key(KeyInput::Char('a'), 700);
    assert_eq!(step, Step::NeedReference);
    s.on_tick(1_800);
    let (start, tick, errs) = (s.start_ms, s.last_tick_ms, s.errors_this_second);
    s.supply_reference(chars("bc"));
    assert_eq!((s.start_ms, s.last_tick_ms, s.errors_this_second), (start, tick, errs));
    assert_eq!(s.start_ms, 700);
}

#[test]
fn word_count_session_ends_at_target() {
    let mut s = Session::new(chars("a b c d"), Mode::WordCount(2));
    type_all(&mut s, "a ", 0);
    assert_eq!(s.state, GameState::Started);
    let step = s.on_key(KeyInput::Char('b'), 10);
    assert_eq!(step, Step::Finished);
    assert_eq!(s.engine.words_done, 2);
}

#[test]
fn backspace_in_session_moves_back() {
    let mut s = Session::new(chars("ab"), Mode::Quote);
    assert_eq!(s.on_key(KeyInput::Backspace, 0), Step::Continue);
    assert_eq!(s.engine.pos, 0);
    s.on_key(KeyInput::Char('a'), 0);
    s.on_key(KeyInput::Backspace, 1);
    assert_eq!(s.engine.pos, 0);
    assert_eq!(s.engine.log.len(), 0);
}

#[test]
fn summary_wpm_uses_elapsed_time() {
    let mut s = Session::new(chars("cat dog"), Mode::Quote);
    type_all(&mut s, "cat do", 0);
    s.on_key(KeyInput::Char('g'), 30_000);
    let sum = s.summary();
    assert_eq!(sum.elapsed_ms, 30_000);
    assert_eq!(sum.wpm_centi, 400);
    assert_eq!(sum.keystrokes, 7);
}

#[test]
fn restart_needs_two_presses_within_a_second() {
    let mut g = RestartGuard::new();
    assert!(!g.press(1_000));
    assert!(g.press(1_500));
    assert!(!g.press(1_900));
    assert!(!g.press(2_100));
    assert!(!g.press(5_000));
    assert!(!g.press(6_200));
    assert!(g.press(6_300));
}

#[test]
fn control_keys_are_filtered() {
    assert_eq!(key_from_char('\u{8}'), Some(KeyInput::Backspace));
    assert_eq!(key_from_char('\u{1b}'), None);
    assert_eq!(key_from_char('\t'), None);
    assert_eq!(key_from_char('\r'), None);
    assert_eq!(key_from_char('\u{7f}'), None);
    assert_eq!(key_from_char('\u{f702}'), None);
    assert_eq!(key_from_char('q'), Some(KeyInput::Char('q')));
    assert_eq!(key_from_char(' '), Some(KeyInput::Char(' ')));
}

#[test]
fn mode_follows_the_switches() {
    assert_eq!(select_mode(true, true, false, false, 30, 25, 0), Mode::Quote);
    assert_eq!(select_mode(true, false, false, true, 30, 25, 3), Mode::Practice(3));
    assert_eq!(select_mode(true, false, true, false, 30, 25, 0), Mode::Timed(30));
    assert_eq!(select_mode(false, false, true, false, 30, 25, 0), Mode::Wiki);
    assert_eq!(select_mode(false, false, false, false, 30, 25, 0), Mode::WordCount(25));
}

#[test]
fn entry_only_for_finished_session() {
    let mut s = Session::new(chars("ab"), Mode::Practice(2));
    assert!(s.leaderboard_entry(Language::English, chars("t")).is_none());
    s.on_key(KeyInput::Char('a'), 0);
    assert!(s.leaderboard_entry(Language::English, chars("t")).is_none());
    s.on_key(KeyInput::Char('b'), 60_000);
    let e = s.leaderboard_entry(Language::Italian, chars("2024-01-01T00:00:00+00:00")).unwrap();
    assert_eq!(e.test_type, TestType::Practice(3));
    assert_eq!(e.test_mode, chars("practice"));
    assert_eq!(e.wpm_centi, 100);
    assert_eq!(e.accuracy_bp, 10000);
    assert_eq!(e.word_count, 1);
    assert_eq!(e.duration_ms, 60_000);
    assert_eq!(e.language, Language::Italian);
}
