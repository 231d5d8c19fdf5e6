use typeman::leaderboard::{
    append_entry, decode_entries, encode_entries, load_all, next_lock_step, rank_by_wpm,
    validate_entry, Language, LeaderboardEntry, LeaderboardError, LockAttempt, LockStep, TestType,
    ValidationIssue,
};

fn chars(s: &str) -> Vec<char> {
    s.chars().collect()
}

fn entry(wpm: u64, test_type: TestType) -> LeaderboardEntry {
    LeaderboardEntry {
        wpm_centi: wpm,
        accuracy_bp: 9_512,
        test_type,
        test_mode: chars("time"),
        word_count: 42,
        duration_ms: 30_000,
        timestamp: chars("2024-05-01T12:00:00+02:00"),
        language: Language::Indonesian,
    }
}

fn same(a: &LeaderboardEntry, b: &LeaderboardEntry) -> bool {
    a.wpm_centi == b.wpm_centi
        && a.accuracy_bp == b.accuracy_bp
        && a.test_type == b.test_type
        && a.test_mode == b.test_mode
        && a.word_count == b.word_count
        && a.duration_ms == b.duration_ms
        && a.timestamp == b.timestamp
        && a.language == b.language
}

#[test]
fn empty_file_loads_as_no_entries() {
    assert_eq!(load_all(&Vec::new()).unwrap().len(), 0);
}

#[test]
fn appended_entry_loads_back_equal() {
    let e = entry(6_543, TestType::Time(30));
    let bytes = append_entry(&Vec::new(), e.clone()).unwrap();
    let all = load_all(&bytes).unwrap();
    assert_eq!(all.len(), 1);
    assert!(same(&all[0], &e));
}

#[test]
fn two_appends_keep_both_entries() {
    let a = entry(1, TestType::Word(50));
    let b = LeaderboardEntry { timestamp: chars("2024-05-01T12:00:01+02:00 ünï"), ..entry(2, TestType::Quote) };
    let first = append_entry(&Vec::new(), a.clone()).unwrap();
    let second = append_entry(&first, b.clone()).unwrap();
    let all = load_all(&second).unwrap();
    assert_eq!(all.len(), 2);
    assert!(same(&all[0], &a));
    assert!(same(&all[1], &b));
}

#[test]
fn every_test_type_round_trips() {
    let es = vec![
        entry(1, TestType::Practice(7)),
        entry(2, TestType::Time(120)),
        entry(3, TestType::Word(25)),
        entry(4, TestType::Quote),
        LeaderboardEntry { language: Language::English, ..entry(5, TestType::Wiki) },
    ];
    let bytes = encode_entries(&es);
    let back = decode_entries(&bytes).unwrap();
    assert_eq!(back.len(), es.len());
    for (x, y) in back.iter().zip(es.iter()) {
        assert!(same(x, y));
    }
}

#[test]
fn entry_layout_is_fixed() {
    let e = LeaderboardEntry {
        test_mode: chars("ab"),
        timestamp: chars("z"),
        ..entry(1, TestType::Quote)
    };
    let bytes = encode_entries(&vec![e]);
    assert_eq!(bytes.len(), 58 + 4 * 3);
    assert_eq!(&bytes[0..8], &[1, 0, 0, 0, 0, 0, 0, 0]);
    assert_eq!(bytes[16], 3);
    assert_eq!(bytes[41], 1);
    assert_eq!(&bytes[50..54], &[b'a', 0, 0, 0]);
}

#[test]
fn invalid_entries_are_refused() {
    let high = LeaderboardEntry { accuracy_bp: 10_001, ..entry(1, TestType::Quote) };
    assert_eq!(validate_entry(&high), Err(ValidationIssue::AccuracyOutOfRange));
    assert_eq!(
        append_entry(&Vec::new(), high).unwrap_err(),
        LeaderboardError::Validation(ValidationIssue::AccuracyOutOfRange)
    );
    let blank = LeaderboardEntry { timestamp: Vec::new(), ..entry(1, TestType::Quote) };
    assert_eq!(
        append_entry(&Vec::new(), blank).unwrap_err(),
        LeaderboardError::Validation(ValidationIssue::EmptyTimestamp)
    );
    assert_eq!(validate_entry(&entry(1, TestType::Quote)), Ok(()));
}

#[test]
fn corrupt_file_is_reported_and_kept() {
    let good = append_entry(&Vec::new(), entry(9, TestType::Time(15))).unwrap();
    let truncated = good[..good.len() - 1].to_vec();
    assert_eq!(load_all(&truncated).unwrap_err(), LeaderboardError::Serialization);
    assert_eq!(
        append_entry(&truncated, entry(1, TestType::Quote)).unwrap_err(),
        LeaderboardError::Serialization
    );
    let mut bad_char = good.clone();
    let n = bad_char.len();
    bad_char[n - 4..].copy_from_slice(&0xD800u32.to_le_bytes());
    assert_eq!(load_all(&bad_char).unwrap_err(), LeaderboardError::Serialization);
    let mut bad_tag = good.clone();
    bad_tag[16] = 9;
    assert!(decode_entries(&bad_tag).is_none());
}

#[test]
fn ranking_puts_fastest_first_and_keeps_ties_in_order() {
    let es = vec![
        entry(300, TestType::Quote),
        entry(900, TestType::Quote),
        entry(300, TestType::Quote),
        entry(1200, TestType::Quote),
        entry(900, TestType::Quote),
    ];
    assert_eq!(rank_by_wpm(&es), vec![3, 1, 4, 0, 2]);
    assert_eq!(rank_by_wpm(&Vec::new()), Vec::<usize>::new());
}

#[test]
fn lock_wait_is_bounded() {
    assert_eq!(next_lock_step(100, 200, 5_000, LockAttempt::Acquired), LockStep::Proceed);
    assert_eq!(next_lock_step(100, 200, 5_000, LockAttempt::Busy(0)), LockStep::Retry);
    assert_eq!(
        next_lock_step(100, 5_100, 5_000, LockAttempt::Busy(0)),
        LockStep::GiveUp(LeaderboardError::LockTimeout)
    );
    assert_eq!(next_lock_step(100, 200, 5_000, LockAttempt::Busy(29_999)), LockStep::Retry);
    assert_eq!(next_lock_step(100, 9_000, 5_000, LockAttempt::Busy(30_000)), LockStep::BreakStale);
    assert_eq!(
        next_lock_step(100, 200, 5_000, LockAttempt::Failed),
        LockStep::GiveUp(LeaderboardError::Lock)
    );
}
