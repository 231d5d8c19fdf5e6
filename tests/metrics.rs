use typeman::engine::Verdict;
use typeman::metrics::{
    accuracy_basis_points, average_word_length_centi, count_correct_words, cpm_sample, wpm_centi,
};
use typeman::text::{count_letters, count_words};

fn chars(s: &str) -> Vec<char> {
    s.chars().collect()
}

#[test]
fn accuracy_without_keystrokes_is_zero() {
    assert_eq!(accuracy_basis_points(0, 0), 0);
}

#[test]
fn accuracy_is_share_of_correct_keystrokes() {
    assert_eq!(accuracy_basis_points(3, 4), 7500);
    assert_eq!(accuracy_basis_points(7, 7), 10000);
    assert_eq!(accuracy_basis_points(1, 3), 3333);
}

#[test]
fn wpm_counts_correct_words_per_minute() {
    assert_eq!(wpm_centi(10, 60_000), 1000);
    assert_eq!(wpm_centi(1, 15_000), 400);
    assert_eq!(wpm_centi(5, 0), 0);
}

#[test]
fn cpm_sample_counts_new_keystrokes() {
    assert_eq!(cpm_sample(12, 7), 300);
    assert_eq!(cpm_sample(3, 7), 0);
    assert_eq!(cpm_sample(usize::MAX, 0), usize::MAX);
}

#[test]
fn words_are_runs_of_non_whitespace() {
    assert_eq!(count_words(&chars("")), 0);
    assert_eq!(count_words(&chars("   ")), 0);
    assert_eq!(count_words(&chars(" cat  dog\tbird\n")), 3);
    assert_eq!(count_letters(&chars(" cat  dog ")), 6);
}

#[test]
fn average_word_length_defaults_to_five() {
    assert_eq!(average_word_length_centi(&chars("")), 500);
    assert_eq!(average_word_length_centi(&chars("cat horse")), 500);
    assert_eq!(average_word_length_centi(&chars("a bb")), 250);
}

#[test]
fn correct_words_need_every_character_right() {
    let reference = chars("cat dog");
    let mut verdicts = vec![Verdict::Correct; 7];
    assert_eq!(count_correct_words(&reference, &verdicts), 2);
    verdicts[1] = Verdict::Corrected;
    assert_eq!(count_correct_words(&reference, &verdicts), 2);
    verdicts[5] = Verdict::Incorrect;
    assert_eq!(count_correct_words(&reference, &verdicts), 1);
    verdicts[0] = Verdict::Untouched;
    assert_eq!(count_correct_words(&reference, &verdicts), 0);
}
