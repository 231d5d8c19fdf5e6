use typeman::engine::{MatchEngine, Verdict};

fn chars(s: &str) -> Vec<char> {
    s.chars().collect()
}

#[test]
fn all_correct_keystrokes_mark_every_character_correct() {
    let mut e = MatchEngine::new(chars("cat dog"), false);
    for c in "cat dog".chars() {
        e.type_char(c);
    }
    assert_eq!(e.verdicts, vec![Verdict::Correct; 7]);
    assert_eq!(e.words_done, 2);
    assert_eq!(e.pos, 7);
    assert_eq!(e.correct_count(), 7);
    assert_eq!(e.error_count(), 0);
}

#[test]
fn wrong_character_advances_outside_practice() {
    let mut e = MatchEngine::new(chars("cat"), false);
    assert_eq!(e.type_char('c'), Some(Verdict::Correct));
    assert_eq!(e.type_char('x'), Some(Verdict::Incorrect));
    assert_eq!(e.type_char('t'), Some(Verdict::Correct));
    assert_eq!(e.pos, 3);
    assert_eq!(e.verdicts, vec![Verdict::Correct, Verdict::Incorrect, Verdict::Correct]);
    assert_eq!(e.error_count(), 1);
}

#[test]
fn practice_holds_cursor_until_corrected() {
    let mut e = MatchEngine::new(chars("cat"), true);
    e.type_char('c');
    assert_eq!(e.type_char('x'), Some(Verdict::Incorrect));
    assert_eq!(e.pos, 1);
    assert_eq!(e.type_char('y'), Some(Verdict::Incorrect));
    assert_eq!(e.pos, 1);
    assert_eq!(e.type_char('a'), Some(Verdict::Corrected));
    assert_eq!(e.verdicts[1], Verdict::Corrected);
    assert_eq!(e.pos, 2);
    let logged: Vec<char> = e.log.iter().map(|k| k.ch).collect();
    assert_eq!(logged, vec!['c', 'a']);
    assert_eq!(e.held_errors, 2);
    assert_eq!(e.error_count(), 2);
    assert_eq!(e.total_keystrokes(), 4);
}

#[test]
fn practice_mistake_is_counted_but_not_logged() {
    let mut e = MatchEngine::new(chars("cat"), true);
    e.type_char('c');
    e.type_char('x');
    assert_eq!(e.pos, 1);
    let logged: Vec<char> = e.log.iter().map(|k| k.ch).collect();
    assert_eq!(logged, vec!['c']);
    e.type_char('a');
    assert_eq!(e.verdicts, vec![Verdict::Correct, Verdict::Corrected, Verdict::Untouched]);
    assert_eq!(e.pos, 2);
    let logged: Vec<char> = e.log.iter().map(|k| k.ch).collect();
    assert_eq!(logged, vec!['c', 'a']);
    assert_eq!(e.error_count(), 1);
    assert_eq!(e.correct_count(), 1);
}

#[test]
fn practice_backspace_after_mistake_steps_back_over_logged_key() {
    let mut e = MatchEngine::new(chars("cat"), true);
    e.type_char('c');
    e.type_char('x');
    e.backspace();
    assert_eq!(e.pos, 0);
    assert_eq!(e.log.len(), 0);
    e.type_char('c');
    assert_eq!(e.correct_count(), 1);
    assert_eq!(e.log.len(), 1);
}

#[test]
fn backspace_on_empty_log_changes_nothing() {
    let mut e = MatchEngine::new(chars("cat"), false);
    e.backspace();
    assert_eq!(e.pos, 0);
    assert_eq!(e.log.len(), 0);
    assert_eq!(e.words_done, 0);
    assert_eq!(e.verdicts, vec![Verdict::Untouched; 3]);
}

#[test]
fn backspace_then_retype_gives_corrected() {
    let mut e = MatchEngine::new(chars("ab"), false);
    e.type_char('x');
    e.backspace();
    assert_eq!(e.pos, 0);
    assert_eq!(e.verdicts[0], Verdict::Incorrect);
    assert_eq!(e.type_char('a'), Some(Verdict::Corrected));
    assert_eq!(e.correct_count(), 0);
    assert_eq!(e.error_count(), 0);
    assert_eq!(e.log.len(), 1);
}

#[test]
fn backspace_off_a_space_takes_back_the_word() {
    let mut e = MatchEngine::new(chars("a b"), false);
    e.type_char('a');
    assert_eq!(e.words_done, 1);
    e.backspace();
    assert_eq!(e.words_done, 0);
    assert_eq!(e.pos, 0);
}

#[test]
fn typing_at_the_end_is_a_no_op() {
    let mut e = MatchEngine::new(chars("a"), false);
    e.type_char('a');
    assert_eq!(e.type_char('b'), None);
    assert_eq!(e.pos, 1);
    assert_eq!(e.log.len(), 1);
}

#[test]
fn replacing_the_text_keeps_words_and_log() {
    let mut e = MatchEngine::new(chars("ab"), false);
    e.type_char('a');
    e.type_char('b');
    e.replace_reference(chars("xyz"));
    assert_eq!(e.verdicts, vec![Verdict::Untouched; 3]);
    assert_eq!(e.pos, 0);
    assert_eq!(e.words_done, 1);
    assert_eq!(e.log.len(), 2);
}
