//! Leaderboard entries and the byte format of the leaderboard file.
//!
//! The file is the concatenation of its entries in the order they were
//! appended. An entry is, with every integer little endian:
//!
//! | bytes | field |
//! |-------|-------|
//! | 8 | words per minute, in hundredths |
//! | 8 | accuracy, in basis points |
//! | 1 | test type tag: practice 0, time 1, word 2, quote 3, wiki 4 |
//! | 8 | test type payload: level, seconds or words; 0 for quote and wiki |
//! | 8 | words done |
//! | 8 | duration in milliseconds |
//! | 1 | language: English 0, Indonesian 1, Italian 2 |
//! | 8 + 4n | test mode: its length n, then each character's code as a `u32` |
//! | 8 + 4n | RFC 3339 timestamp, laid out as the test mode |
//!
//! Reading and writing the file, and the lock around both, belong to the
//! caller: this module turns entries into bytes and back.

use vstd::prelude::*;
use vstd::bytes::{
    lemma_auto_spec_u32_to_from_le_bytes, lemma_auto_spec_u64_to_from_le_bytes,
    spec_u32_from_le_bytes, spec_u32_to_le_bytes, spec_u64_from_le_bytes, spec_u64_to_le_bytes,
    u32_from_le_bytes, u32_to_le_bytes, u64_from_le_bytes, u64_to_le_bytes,
};
use vstd::slice::slice_subrange;
use vstd::utf8::{char_u32_cast, is_scalar};

verus! {

/// The kind of test a leaderboard entry records, with its parameter.
#[derive(Debug, Clone, Copy, PartialEq, Eq, Structural)]
pub enum TestType {
    Practice(u64),
    Time(u64),
    Word(u64),
    Quote,
    Wiki,
}

/// The language of the word list a test drew from.
#[derive(Debug, Clone, Copy, PartialEq, Eq, Structural)]
pub enum Language {
    English,
    Indonesian,
    Italian,
}

/// Why an entry is refused.
#[derive(Debug, Clone, Copy, PartialEq, Eq, Structural)]
pub enum ValidationIssue {
    /// The accuracy is above 100 percent.
    AccuracyOutOfRange,
    /// The timestamp is empty.
    EmptyTimestamp,
}

/// Why a leaderboard operation failed.
#[derive(Debug, Clone, Copy, PartialEq, Eq, Structural)]
pub enum LeaderboardError {
    /// The entry was refused and not stored.
    Validation(ValidationIssue),
    /// The file could not be read or written.
    Io,
    /// The file does not hold a sequence of entries.
    Serialization,
    /// The lock on the file was not obtained in time.
    LockTimeout,
    /// The lock on the file could not be taken at all.
    Lock,
}

/// One completed session.
#[derive(Debug, Clone)]
pub struct LeaderboardEntry {
    pub wpm_centi: u64,
    pub accuracy_bp: u64,
    pub test_type: TestType,
    pub test_mode: Vec<char>,
    pub word_count: u64,
    pub duration_ms: u64,
    pub timestamp: Vec<char>,
    pub language: Language,
}

/// A leaderboard entry as a mathematical value.
pub ghost struct EntryView {
    pub wpm_centi: u64,
    pub accuracy_bp: u64,
    pub test_type: TestType,
    pub test_mode: Seq<char>,
    pub word_count: u64,
    pub duration_ms: u64,
    pub timestamp: Seq<char>,
    pub language: Language,
}

impl View for LeaderboardEntry {
    type V = EntryView;

    open spec fn view(&self) -> EntryView {
        EntryView {
            wpm_centi: self.wpm_centi,
            accuracy_bp: self.accuracy_bp,
            test_type: self.test_type,
            test_mode: self.test_mode@,
            word_count: self.word_count,
            duration_ms: self.duration_ms,
            timestamp: self.timestamp@,
            language: self.language,
        }
    }
}

/// The views of a list of entries.
pub open spec fn entries_view(es: Seq<LeaderboardEntry>) -> Seq<EntryView> {
    es.map_values(|e: LeaderboardEntry| e@)
}

/// Both texts of the entry have a length that fits the format.
pub open spec fn encodable(e: EntryView) -> bool {
    e.test_mode.len() <= u64::MAX && e.timestamp.len() <= u64::MAX
}

/// The first problem of an entry, if any.
pub open spec fn validation_spec(e: EntryView) -> Option<ValidationIssue> {
    if e.accuracy_bp > 10000 {
        Some(ValidationIssue::AccuracyOutOfRange)
    } else if e.timestamp.len() == 0 {
        Some(ValidationIssue::EmptyTimestamp)
    } else {
        None
    }
}

// ---------------------------------------------------------------------------
// Encoding

pub open spec fn tag_of(t: TestType) -> u8 {
    match t {
        TestType::Practice(_) => 0,
        TestType::Time(_) => 1,
        TestType::Word(_) => 2,
        TestType::Quote => 3,
        TestType::Wiki => 4,
    }
}

pub open spec fn payload_of(t: TestType) -> u64 {
    match t {
        TestType::Practice(n) => n,
        TestType::Time(n) => n,
        TestType::Word(n) => n,
        TestType::Quote => 0,
        TestType::Wiki => 0,
    }
}

pub open spec fn lang_code(l: Language) -> u8 {
    match l {
        Language::English => 0,
        Language::Indonesian => 1,
        Language::Italian => 2,
    }
}

pub open spec fn le64(x: u64) -> Seq<u8> {
    spec_u64_to_le_bytes(x)
}

/// Each character's code, four bytes apiece.
pub open spec fn enc_chars(s: Seq<char>) -> Seq<u8>
    decreases s.len(),
{
    if s.len() == 0 {
        seq![]
    } else {
        enc_chars(s.drop_last()) + spec_u32_to_le_bytes(s.last() as u32)
    }
}

/// A text: its length, then its characters.
pub open spec fn enc_text(s: Seq<char>) -> Seq<u8> {
    le64(s.len() as u64) + enc_chars(s)
}

/// The fixed-size part of an entry.
pub open spec fn enc_header(e: EntryView) -> Seq<u8> {
    le64(e.wpm_centi) + le64(e.accuracy_bp) + seq![tag_of(e.test_type)] + le64(
        payload_of(e.test_type),
    ) + le64(e.word_count) + le64(e.duration_ms) + seq![lang_code(e.language)]
}

pub open spec fn enc_entry(e: EntryView) -> Seq<u8> {
    enc_header(e) + enc_text(e.test_mode) + enc_text(e.timestamp)
}

/// A list of entries, one after the other.
pub open spec fn enc_all(es: Seq<EntryView>) -> Seq<u8>
    decreases es.len(),
{
    if es.len() == 0 {
        seq![]
    } else {
        enc_all(es.drop_last()) + enc_entry(es.last())
    }
}

// ---------------------------------------------------------------------------
// Parsing

pub open spec fn u64_at(b: Seq<u8>, o: int) -> u64 {
    spec_u64_from_le_bytes(b.subrange(o, o + 8))
}

/// The code of the `i`-th character of a run that starts at `o`.
pub open spec fn code_at(b: Seq<u8>, o: int, i: int) -> u32 {
    spec_u32_from_le_bytes(b.subrange(o + 4 * i, o + 4 * i + 4))
}

/// `n` character codes fit from `o` on, and each is a Unicode scalar value.
pub open spec fn chars_ok(b: Seq<u8>, o: int, n: nat) -> bool {
    &&& 0 <= o
    &&& o + 4 * n <= b.len()
    &&& forall|i: int| 0 <= i < n ==> is_scalar(#[trigger] code_at(b, o, i))
}

pub open spec fn chars_at(b: Seq<u8>, o: int, n: nat) -> Seq<char> {
    Seq::new(n, |i: int| code_at(b, o, i) as char)
}

pub open spec fn test_type_from(tag: u8, payload: u64) -> Option<TestType> {
    if tag == 0 {
        Some(TestType::Practice(payload))
    } else if tag == 1 {
        Some(TestType::Time(payload))
    } else if tag == 2 {
        Some(TestType::Word(payload))
    } else if tag == 3 && payload == 0 {
        Some(TestType::Quote)
    } else if tag == 4 && payload == 0 {
        Some(TestType::Wiki)
    } else {
        None
    }
}

pub open spec fn language_from(code: u8) -> Option<Language> {
    if code == 0 {
        Some(Language::English)
    } else if code == 1 {
        Some(Language::Indonesian)
    } else if code == 2 {
        Some(Language::Italian)
    } else {
        None
    }
}

/// The size of the fixed part of an entry, with the test mode's length.
pub const HEADER_LEN: usize = 50;

/// The entry that starts at `o`, and the offset just past it.
pub open spec fn parse_entry_at(b: Seq<u8>, o: int) -> Option<(EntryView, int)> {
    if o < 0 || o + 50 > b.len() {
        None
    } else {
        let tt = test_type_from(b[o + 16], u64_at(b, o + 17));
        let lang = language_from(b[o + 41]);
        let ml = u64_at(b, o + 42) as nat;
        let mo = o + 50;
        if tt is None || lang is None || !chars_ok(b, mo, ml) || mo + 4 * ml + 8 > b.len() {
            None
        } else {
            let to = mo + 4 * ml;
            let tl = u64_at(b, to) as nat;
            let tso = to + 8;
            if !chars_ok(b, tso, tl) {
                None
            } else {
                Some(
                    (
                        EntryView {
                            wpm_centi: u64_at(b, o),
                            accuracy_bp: u64_at(b, o + 8),
                            test_type: tt.unwrap(),
                            test_mode: chars_at(b, mo, ml),
                            word_count: u64_at(b, o + 25),
                            duration_ms: u64_at(b, o + 33),
                            timestamp: chars_at(b, tso, tl),
                            language: lang.unwrap(),
                        },
                        tso + 4 * tl,
                    ),
                )
            }
        }
    }
}

/// The entries from offset `o` to the end of `b`, if those bytes are a
/// sequence of entries.
pub open spec fn parse_from(b: Seq<u8>, o: int) -> Option<Seq<EntryView>>
    decreases b.len() - o,
{
    if o < 0 || o > b.len() {
        None
    } else if o == b.len() {
        Some(seq![])
    } else {
        match parse_entry_at(b, o) {
            Some((e, n)) => if o < n <= b.len() {
                match parse_from(b, n) {
                    Some(rest) => Some(seq![e] + rest),
                    None => None,
                }
            } else {
                None
            },
            None => None,
        }
    }
}

/// The entries of a leaderboard file.
pub open spec fn parse_all(b: Seq<u8>) -> Option<Seq<EntryView>> {
    parse_from(b, 0)
}

// ---------------------------------------------------------------------------
// Round trip

proof fn lemma_enc_chars_len(s: Seq<char>)
    ensures
        enc_chars(s).len() == 4 * s.len(),
    decreases s.len(),
{
    lemma_auto_spec_u32_to_from_le_bytes();
    if s.len() > 0 {
        lemma_enc_chars_len(s.drop_last());
    }
}

proof fn lemma_enc_chars_code(s: Seq<char>, i: int)
    requires
        0 <= i < s.len(),
    ensures
        enc_chars(s).subrange(4 * i, 4 * i + 4) == spec_u32_to_le_bytes(s[i] as u32),
    decreases s.len(),
{
    lemma_auto_spec_u32_to_from_le_bytes();
    let d = s.drop_last();
    lemma_enc_chars_len(d);
    if i == s.len() - 1 {
        assert(enc_chars(s).subrange(4 * i, 4 * i + 4) =~= spec_u32_to_le_bytes(s[i] as u32));
    } else {
        lemma_enc_chars_code(d, i);
        assert(enc_chars(s).subrange(4 * i, 4 * i + 4) =~= enc_chars(d).subrange(4 * i, 4 * i + 4));
    }
}

proof fn lemma_chars_round_trip(b: Seq<u8>, o: int, s: Seq<char>)
    requires
        0 <= o,
        o + 4 * s.len() <= b.len(),
        b.subrange(o, o + 4 * s.len()) == enc_chars(s),
    ensures
        chars_ok(b, o, s.len()),
        chars_at(b, o, s.len()) == s,
{
    lemma_auto_spec_u32_to_from_le_bytes();
    assert forall|i: int| 0 <= i < s.len() implies code_at(b, o, i) == s[i] as u32 by {
        lemma_enc_chars_code(s, i);
        assert(b.subrange(o + 4 * i, o + 4 * i + 4) =~= b.subrange(o, o + 4 * s.len()).subrange(
            4 * i,
            4 * i + 4,
        ));
    }
    assert forall|i: int| 0 <= i < s.len() implies is_scalar(#[trigger] code_at(b, o, i)) by {
        vstd::utf8::char_is_scalar(s[i]);
    }
    assert forall|i: int| 0 <= i < s.len() implies chars_at(b, o, s.len())[i] == s[i] by {
        char_u32_cast(s[i], s[i] as u32);
    }
    assert(chars_at(b, o, s.len()) =~= s);
}

proof fn lemma_enc_entry_len(e: EntryView)
    ensures
        enc_header(e).len() == 42,
        enc_entry(e).len() == 58 + 4 * e.test_mode.len() + 4 * e.timestamp.len(),
{
    lemma_auto_spec_u64_to_from_le_bytes();
    lemma_enc_chars_len(e.test_mode);
    lemma_enc_chars_len(e.timestamp);
}

/// A window of a run of bytes is the same window of what the run equals.
proof fn lemma_window(b: Seq<u8>, o: int, en: Seq<u8>, k: int, len: int)
    requires
        0 <= o,
        o + en.len() <= b.len(),
        b.subrange(o, o + en.len()) == en,
        0 <= k,
        0 <= len,
        k + len <= en.len(),
    ensures
        b.subrange(o + k, o + k + len) == en.subrange(k, k + len),
{
    let w = b.subrange(o + k, o + k + len);
    assert forall|j: int| 0 <= j < len implies #[trigger] w[j] == en.subrange(k, k + len)[j] by {
        assert(b.subrange(o, o + en.len())[k + j] == b[o + k + j]);
    }
    assert(b.subrange(o + k, o + k + len) =~= en.subrange(k, k + len));
}

proof fn lemma_parse_entry(b: Seq<u8>, o: int, e: EntryView)
    requires
        encodable(e),
        0 <= o,
        o + enc_entry(e).len() <= b.len(),
        b.subrange(o, o + enc_entry(e).len()) == enc_entry(e),
    ensures
        parse_entry_at(b, o) == Some((e, o + enc_entry(e).len())),
{
    lemma_auto_spec_u64_to_from_le_bytes();
    lemma_enc_entry_len(e);
    let en = enc_entry(e);
    let h = enc_header(e);
    let ml = e.test_mode.len() as int;
    let tl = e.timestamp.len() as int;
    let mo = o + 50;
    let to = mo + 4 * ml;
    let tso = to + 8;
    let x1 = le64(e.wpm_centi);
    let x2 = x1 + le64(e.accuracy_bp);
    let x3 = x2 + seq![tag_of(e.test_type)];
    let x4 = x3 + le64(payload_of(e.test_type));
    let x5 = x4 + le64(e.word_count);
    let x6 = x5 + le64(e.duration_ms);
    assert(h == x6 + seq![lang_code(e.language)]);
    let t1 = enc_text(e.test_mode);
    let t2 = enc_text(e.timestamp);
    assert(en == h + t1 + t2);
    assert(h.subrange(0, 8) =~= x1);
    assert(h.subrange(8, 16) =~= le64(e.accuracy_bp));
    assert(h[16] == tag_of(e.test_type));
    assert(h.subrange(17, 25) =~= le64(payload_of(e.test_type)));
    assert(h.subrange(25, 33) =~= le64(e.word_count));
    assert(h.subrange(33, 41) =~= le64(e.duration_ms));
    assert(h[41] == lang_code(e.language));
    assert(en.subrange(0, 42) =~= h);
    lemma_enc_chars_len(e.test_mode);
    lemma_enc_chars_len(e.timestamp);
    assert(t1 == le64(ml as u64) + enc_chars(e.test_mode));
    assert(t1.len() == 8 + 4 * ml);
    assert(en.subrange(42, 50 + 4 * ml) =~= t1);
    assert(t1.subrange(8, 8 + 4 * ml) =~= enc_chars(e.test_mode));
    assert(en.subrange(42, 50) =~= le64(ml as u64));
    assert(en.subrange(50, 50 + 4 * ml) =~= en.subrange(42, 50 + 4 * ml).subrange(8, 8 + 4 * ml));
    assert(en.subrange(50, 50 + 4 * ml) =~= enc_chars(e.test_mode));
    assert(en.subrange(50 + 4 * ml, 58 + 4 * ml) =~= le64(tl as u64));
    assert(en.subrange(58 + 4 * ml, 58 + 4 * ml + 4 * tl) =~= enc_chars(e.timestamp));
    lemma_window(b, o, en, 0, 8);
    lemma_window(b, o, en, 8, 8);
    lemma_window(b, o, en, 17, 8);
    lemma_window(b, o, en, 25, 8);
    lemma_window(b, o, en, 33, 8);
    lemma_window(b, o, en, 42, 8);
    lemma_window(b, o, en, 50, 4 * ml);
    lemma_window(b, o, en, 50 + 4 * ml, 8);
    lemma_window(b, o, en, 58 + 4 * ml, 4 * tl);
    assert(en.subrange(0, 42)[16] == en[16]);
    assert(en.subrange(0, 42)[41] == en[41]);
    assert(b.subrange(o, o + en.len())[16] == b[o + 16]);
    assert(b.subrange(o, o + en.len())[41] == b[o + 41]);
    assert(en.subrange(0, 8) =~= h.subrange(0, 8));
    assert(en.subrange(8, 16) =~= h.subrange(8, 16));
    assert(en.subrange(17, 25) =~= h.subrange(17, 25));
    assert(en.subrange(25, 33) =~= h.subrange(25, 33));
    assert(en.subrange(33, 41) =~= h.subrange(33, 41));
    lemma_chars_round_trip(b, mo, e.test_mode);
    lemma_chars_round_trip(b, tso, e.timestamp);
    assert(test_type_from(b[o + 16], u64_at(b, o + 17)) == Some(e.test_type));
    assert(language_from(b[o + 41]) == Some(e.language));
}

proof fn lemma_enc_all_cons(e: EntryView, es: Seq<EntryView>)
    ensures
        enc_all(seq![e] + es) == enc_entry(e) + enc_all(es),
    decreases es.len(),
{
    if es.len() == 0 {
        assert(seq![e] + es =~= seq![e]);
        assert(seq![e].drop_last() =~= Seq::<EntryView>::empty());
        assert(seq![e].last() == e);
        assert(enc_all(Seq::<EntryView>::empty()) =~= Seq::<u8>::empty());
        assert(enc_all(seq![e]) =~= enc_all(Seq::<EntryView>::empty()) + enc_entry(e));
        assert(enc_all(seq![e]) =~= enc_entry(e));
    } else {
        let d = es.drop_last();
        lemma_enc_all_cons(e, d);
        assert((seq![e] + es).drop_last() =~= seq![e] + d);
        assert(enc_all(seq![e] + es) =~= enc_entry(e) + enc_all(es));
    }
}

proof fn lemma_parse_from(b: Seq<u8>, o: int, es: Seq<EntryView>)
    requires
        0 <= o <= b.len(),
        b.subrange(o, b.len() as int) == enc_all(es),
        forall|i: int| 0 <= i < es.len() ==> encodable(#[trigger] es[i]),
    ensures
        parse_from(b, o) == Some(es),
    decreases es.len(),
{
    if es.len() == 0 {
        assert(b.subrange(o, b.len() as int).len() == 0);
        assert(es =~= seq![]);
    } else {
        let e = es[0];
        let rest = es.skip(1);
        assert(es =~= seq![e] + rest);
        lemma_enc_all_cons(e, rest);
        lemma_enc_entry_len(e);
        let n = o + enc_entry(e).len();
        let big = b.subrange(o, b.len() as int);
        assert(big == enc_entry(e) + enc_all(rest));
        assert(b.subrange(o, n) =~= big.subrange(0, enc_entry(e).len() as int));
        assert(big.subrange(0, enc_entry(e).len() as int) =~= enc_entry(e));
        assert(b.subrange(n, b.len() as int) =~= big.subrange(
            enc_entry(e).len() as int,
            big.len() as int,
        ));
        assert(big.subrange(enc_entry(e).len() as int, big.len() as int) =~= enc_all(rest));
        assert(encodable(es[0]));
        lemma_parse_entry(b, o, e);
        assert forall|i: int| 0 <= i < rest.len() implies encodable(#[trigger] rest[i]) by {
            assert(rest[i] == es[i + 1]);
        }
        lemma_parse_from(b, n, rest);
    }
}

/// Decoding the encoding of a list of entries gives the list back.
pub proof fn lemma_round_trip(es: Seq<EntryView>)
    requires
        forall|i: int| 0 <= i < es.len() ==> encodable(#[trigger] es[i]),
    ensures
        parse_all(enc_all(es)) == Some(es),
{
    let b = enc_all(es);
    assert(b.subrange(0, b.len() as int) =~= b);
    lemma_parse_from(b, 0, es);
}

/// Appending an entry to a file that holds `es` and reading the file back
/// gives `es` followed by that entry: nothing is lost and the new entry is
/// found, equal in every field.
pub proof fn lemma_append_then_load(es: Seq<EntryView>, e: EntryView)
    requires
        forall|i: int| 0 <= i < es.len() ==> encodable(#[trigger] es[i]),
        encodable(e),
    ensures
        parse_all(enc_all(es.push(e))) == Some(es.push(e)),
        parse_all(enc_all(es.push(e))).unwrap().contains(e),
{
    let all = es.push(e);
    assert forall|i: int| 0 <= i < all.len() implies encodable(#[trigger] all[i]) by {
        if i < es.len() {
            assert(all[i] == es[i]);
        }
    }
    lemma_round_trip(all);
    assert(all[all.len() - 1] == e);
}

// ---------------------------------------------------------------------------
// Executable encoding and decoding

/// Relies on `char::from_u32`: `Some` exactly for the Unicode scalar values,
/// holding the character with that code.
#[verifier::external_body]
fn char_from_code(u: u32) -> (r: Option<char>)
    ensures
        r == if is_scalar(u) {
            Some(u as char)
        } else {
            None
        },
{
    char::from_u32(u)
}

/// `d` in front of the entries of `r`, if there are any.
pub open spec fn prepend_entries(d: Seq<EntryView>, r: Option<Seq<EntryView>>) -> Option<
    Seq<EntryView>,
> {
    match r {
        Some(x) => Some(d + x),
        None => None,
    }
}

proof fn lemma_vec_entries_encodable(es: Seq<LeaderboardEntry>)
    ensures
        forall|i: int| 0 <= i < es.len() ==> encodable(#[trigger] entries_view(es)[i]),
{
    assert forall|i: int| 0 <= i < es.len() implies encodable(#[trigger] entries_view(es)[i]) by {
        assert(es[i].test_mode.len() == es[i].test_mode@.len());
        assert(es[i].timestamp.len() == es[i].timestamp@.len());
    }
}

fn push_u64(out: &mut Vec<u8>, x: u64)
    ensures
        final(out)@ == old(out)@ + le64(x),
{
    let mut v = u64_to_le_bytes(x);
    out.append(&mut v);
}

fn push_chars(out: &mut Vec<u8>, s: &Vec<char>)
    ensures
        final(out)@ == old(out)@ + enc_chars(s@),
{
    let ghost start = out@;
    let mut i: usize = 0;
    while i < s.len()
        invariant
            i <= s@.len(),
            out@ == start + enc_chars(s@.take(i as int)),
        decreases s@.len() - i,
    {
        let mut v = u32_to_le_bytes(s[i] as u32);
        out.append(&mut v);
        proof {
            assert(s@.take(i + 1).drop_last() =~= s@.take(i as int));
            assert(s@.take(i + 1).last() == s@[i as int]);
            assert(out@ =~= start + enc_chars(s@.take(i + 1)));
        }
        i = i + 1;
    }
    assert(s@.take(i as int) =~= s@);
}

fn push_text(out: &mut Vec<u8>, s: &Vec<char>)
    ensures
        final(out)@ == old(out)@ + enc_text(s@),
{
    let ghost start = out@;
    push_u64(out, s.len() as u64);
    push_chars(out, s);
    assert(out@ =~= start + enc_text(s@));
}

fn push_header(e: &LeaderboardEntry, out: &mut Vec<u8>)
    ensures
        final(out)@ == old(out)@ + enc_header(e@),
{
    let ghost start = out@;
    push_u64(out, e.wpm_centi);
    push_u64(out, e.accuracy_bp);
    let (tag, payload): (u8, u64) = match e.test_type {
        TestType::Practice(n) => (0, n),
        TestType::Time(n) => (1, n),
        TestType::Word(n) => (2, n),
        TestType::Quote => (3, 0),
        TestType::Wiki => (4, 0),
    };
    out.push(tag);
    push_u64(out, payload);
    push_u64(out, e.word_count);
    push_u64(out, e.duration_ms);
    let lang: u8 = match e.language {
        Language::English => 0,
        Language::Indonesian => 1,
        Language::Italian => 2,
    };
    out.push(lang);
    assert(out@ =~= start + enc_header(e@));
}

/// Appends the encoding of `e` to `out`.
pub fn encode_entry(e: &LeaderboardEntry, out: &mut Vec<u8>)
    ensures
        final(out)@ == old(out)@ + enc_entry(e@),
{
    let ghost start = out@;
    push_header(e, out);
    push_text(out, &e.test_mode);
    push_text(out, &e.timestamp);
    assert(out@ =~= start + enc_entry(e@));
}

/// The bytes of a leaderboard file holding `es`, in order.
pub fn encode_entries(es: &Vec<LeaderboardEntry>) -> (r: Vec<u8>)
    ensures
        r@ == enc_all(entries_view(es@)),
{
    let mut out: Vec<u8> = Vec::new();
    let mut i: usize = 0;
    while i < es.len()
        invariant
            i <= es@.len(),
            out@ == enc_all(entries_view(es@.take(i as int))),
        decreases es@.len() - i,
    {
        encode_entry(&es[i], &mut out);
        proof {
            let t = entries_view(es@.take(i + 1));
            assert(t.drop_last() =~= entries_view(es@.take(i as int)));
            assert(t.last() == es@[i as int]@);
        }
        i = i + 1;
    }
    assert(es@.take(i as int) =~= es@);
    out
}

fn read_u64(b: &Vec<u8>, o: usize) -> (r: u64)
    requires
        o + 8 <= b@.len(),
    ensures
        r == u64_at(b@, o as int),
{
    assert(b.len() == b@.len());
    u64_from_le_bytes(slice_subrange(b.as_slice(), o, o + 8))
}

/// The `n` characters whose codes start at `o`, if they all are Unicode
/// scalar values and fit in `b`.
fn read_chars(b: &Vec<u8>, o: usize, n: u64) -> (r: Option<Vec<char>>)
    requires
        o <= b@.len(),
    ensures
        match r {
            Some(v) => chars_ok(b@, o as int, n as nat) && v@ == chars_at(b@, o as int, n as nat),
            None => !chars_ok(b@, o as int, n as nat),
        },
{
    if (n as u128) * 4 > (b.len() - o) as u128 {
        return None;
    }
    let count = n as usize;
    let len = b.len();
    let mut v: Vec<char> = Vec::new();
    let mut i: usize = 0;
    while i < count
        invariant
            count == n,
            len == b@.len(),
            o + 4 * n <= len,
            i <= count,
            v@ == chars_at(b@, o as int, n as nat).take(i as int),
            forall|j: int| 0 <= j < i ==> is_scalar(#[trigger] code_at(b@, o as int, j)),
        decreases count - i,
    {
        let p = o + 4 * i;
        let u = u32_from_le_bytes(slice_subrange(b.as_slice(), p, p + 4));
        assert(u == code_at(b@, o as int, i as int));
        match char_from_code(u) {
            Some(c) => {
                v.push(c);
                assert(v@ =~= chars_at(b@, o as int, n as nat).take(i + 1));
            },
            None => {
                return None;
            },
        }
        i = i + 1;
    }
    assert(v@ =~= chars_at(b@, o as int, n as nat));
    Some(v)
}

/// The entry whose encoding starts at `o`, and the offset just past it.
pub fn decode_entry_at(b: &Vec<u8>, o: usize) -> (r: Option<(LeaderboardEntry, usize)>)
    requires
        o <= b@.len(),
    ensures
        match parse_entry_at(b@, o as int) {
            Some((e, n)) => r matches Some((x, m)) && x@ == e && m == n,
            None => r is None,
        },
{
    let len = b.len();
    if len - o < HEADER_LEN {
        return None;
    }
    let tag = b[o + 16];
    let payload = read_u64(b, o + 17);
    let test_type = if tag == 0 {
        TestType::Practice(payload)
    } else if tag == 1 {
        TestType::Time(payload)
    } else if tag == 2 {
        TestType::Word(payload)
    } else if tag == 3 && payload == 0 {
        TestType::Quote
    } else if tag == 4 && payload == 0 {
        TestType::Wiki
    } else {
        return None;
    };
    let code = b[o + 41];
    let language = if code == 0 {
        Language::English
    } else if code == 1 {
        Language::Indonesian
    } else if code == 2 {
        Language::Italian
    } else {
        return None;
    };
    let ml = read_u64(b, o + 42);
    let mo = o + 50;
    let test_mode = match read_chars(b, mo, ml) {
        Some(v) => v,
        None => {
            return None;
        },
    };
    let to = mo + 4 * (ml as usize);
    if len - to < 8 {
        return None;
    }
    let tl = read_u64(b, to);
    let tso = to + 8;
    let timestamp = match read_chars(b, tso, tl) {
        Some(v) => v,
        None => {
            return None;
        },
    };
    let end = tso + 4 * (tl as usize);
    let entry = LeaderboardEntry {
        wpm_centi: read_u64(b, o),
        accuracy_bp: read_u64(b, o + 8),
        test_type,
        test_mode,
        word_count: read_u64(b, o + 25),
        duration_ms: read_u64(b, o + 33),
        timestamp,
        language,
    };
    Some((entry, end))
}

/// The entries of a leaderboard file, or `None` if its bytes are not a
/// sequence of entries.
pub fn decode_entries(b: &Vec<u8>) -> (r: Option<Vec<LeaderboardEntry>>)
    ensures
        match parse_all(b@) {
            Some(es) => r matches Some(v) && entries_view(v@) == es,
            None => r is None,
        },
{
    let len = b.len();
    let mut out: Vec<LeaderboardEntry> = Vec::new();
    let mut o: usize = 0;
    assert(entries_view(out@) =~= Seq::<EntryView>::empty());
    assert(prepend_entries(seq![], parse_from(b@, 0)) =~= parse_from(b@, 0)) by {
        match parse_from(b@, 0) {
            Some(x) => {
                assert(Seq::<EntryView>::empty() + x =~= x);
            },
            None => {},
        }
    }
    while o < len
        invariant
            len == b@.len(),
            o <= len,
            parse_all(b@) == prepend_entries(entries_view(out@), parse_from(b@, o as int)),
        decreases len - o,
    {
        match decode_entry_at(b, o) {
            None => {
                return None;
            },
            Some((e, n)) => {
                let ghost ev = e@;
                let ghost before = entries_view(out@);
                assert(o < n <= len);
                out.push(e);
                proof {
                    assert(entries_view(out@) =~= before.push(ev));
                    match parse_from(b@, n as int) {
                        Some(rest) => {
                            assert(before + (seq![ev] + rest) =~= before.push(ev) + rest);
                        },
                        None => {},
                    }
                }
                o = n;
            },
        }
    }
    assert(parse_from(b@, o as int) == Some(Seq::<EntryView>::empty()));
    assert(entries_view(out@) + Seq::<EntryView>::empty() =~= entries_view(out@));
    Some(out)
}

// ---------------------------------------------------------------------------
// Store operations

/// Checks an entry before it is stored: the accuracy is at most 100
/// percent and the timestamp is not empty.
pub fn validate_entry(e: &LeaderboardEntry) -> (r: Result<(), ValidationIssue>)
    ensures
        r == match validation_spec(e@) {
            Some(i) => Err(i),
            None => Ok::<(), ValidationIssue>(()),
        },
{
    if e.accuracy_bp > 10000 {
        Err(ValidationIssue::AccuracyOutOfRange)
    } else if e.timestamp.len() == 0 {
        Err(ValidationIssue::EmptyTimestamp)
    } else {
        Ok(())
    }
}

/// The entries held by the bytes of a leaderboard file, in the order they
/// were appended; an empty file holds none.
pub fn load_all(bytes: &Vec<u8>) -> (r: Result<Vec<LeaderboardEntry>, LeaderboardError>)
    ensures
        match parse_all(bytes@) {
            Some(es) => r matches Ok(v) && entries_view(v@) == es,
            None => r == Err::<Vec<LeaderboardEntry>, LeaderboardError>(
                LeaderboardError::Serialization,
            ),
        },
        bytes@.len() == 0 ==> (r matches Ok(v) && v@.len() == 0),
{
    if bytes.len() == 0 {
        assert(parse_all(bytes@) == Some(Seq::<EntryView>::empty()));
    }
    match decode_entries(bytes) {
        Some(v) => {
            assert(entries_view(v@).len() == v@.len());
            Ok(v)
        },
        None => Err(LeaderboardError::Serialization),
    }
}

/// The new bytes of a leaderboard file after `entry` is appended to the
/// file that held `existing`: the entry is checked, the existing entries
/// are read, and the whole list is written out with the entry last. A file
/// that cannot be read is never replaced.
pub fn append_entry(existing: &Vec<u8>, entry: LeaderboardEntry) -> (r: Result<
    Vec<u8>,
    LeaderboardError,
>)
    ensures
        validation_spec(entry@) matches Some(i) ==> r == Err::<Vec<u8>, LeaderboardError>(
            LeaderboardError::Validation(i),
        ),
        validation_spec(entry@) is None && parse_all(existing@) is None ==> r == Err::<
            Vec<u8>,
            LeaderboardError,
        >(LeaderboardError::Serialization),
        validation_spec(entry@) is None && parse_all(existing@) is Some ==> {
            let es = parse_all(existing@).unwrap().push(entry@);
            &&& r matches Ok(b) && b@ == enc_all(es)
            &&& parse_all(r.unwrap()@) == Some(es)
        },
{
    match validate_entry(&entry) {
        Err(i) => {
            return Err(LeaderboardError::Validation(i));
        },
        Ok(()) => {},
    }
    let mut es = match decode_entries(existing) {
        Some(v) => v,
        None => {
            return Err(LeaderboardError::Serialization);
        },
    };
    let ghost ev = entry@;
    let ghost before = entries_view(es@);
    es.push(entry);
    assert(entries_view(es@) =~= before.push(ev));
    let b = encode_entries(&es);
    proof {
        lemma_vec_entries_encodable(es@);
        lemma_round_trip(entries_view(es@));
    }
    Ok(b)
}

// ---------------------------------------------------------------------------
// Ranking

/// Entry `a` ranks above entry `b`: it is faster, or as fast and older.
pub open spec fn ranks_above(es: Seq<EntryView>, a: int, b: int) -> bool {
    es[a].wpm_centi > es[b].wpm_centi || (es[a].wpm_centi == es[b].wpm_centi && a < b)
}

/// `r` lists every index of `es` once, from the highest rank down.
pub open spec fn is_ranking(es: Seq<EntryView>, r: Seq<usize>) -> bool {
    &&& r.len() == es.len()
    &&& forall|i: int| 0 <= i < r.len() ==> r[i] < es.len()
    &&& forall|i: int, j: int|
        0 <= i < j < r.len() ==> ranks_above(es, #[trigger] r[i] as int, #[trigger] r[j] as int)
}

/// The indices of `entries`, fastest first; equally fast entries keep the
/// order in which they were appended.
pub fn rank_by_wpm(entries: &Vec<LeaderboardEntry>) -> (r: Vec<usize>)
    ensures
        is_ranking(entries_view(entries@), r@),
{
    let ghost es = entries_view(entries@);
    let n = entries.len();
    let mut r: Vec<usize> = Vec::new();
    let mut k: usize = 0;
    while k < n
        invariant
            n == entries@.len(),
            es == entries_view(entries@),
            k <= n,
            r@.len() == k,
            forall|i: int| 0 <= i < r@.len() ==> r@[i] < k,
            forall|i: int, j: int|
                0 <= i < j < r@.len() ==> ranks_above(es, #[trigger] r@[i] as int, #[trigger] r@[j] as int),
        decreases n - k,
    {
        let w = entries[k].wpm_centi;
        let mut p: usize = 0;
        while p < r.len() && entries[r[p]].wpm_centi >= w
            invariant
                n == entries@.len(),
                es == entries_view(entries@),
                r@.len() == k,
                k < n,
                p <= r@.len(),
                forall|i: int| 0 <= i < r@.len() ==> r@[i] < k,
                forall|i: int| 0 <= i < p ==> es[#[trigger] r@[i] as int].wpm_centi >= w,
                w == es[k as int].wpm_centi,
            decreases r@.len() - p,
        {
            p = p + 1;
        }
        let ghost old_r = r@;
        proof {
            assert forall|i: int| p <= i < old_r.len() implies es[#[trigger] old_r[i] as int].wpm_centi
                < w by {
                if i > p {
                    assert(ranks_above(es, old_r[p as int] as int, old_r[i] as int));
                }
            }
        }
        r.insert(p, k);
        proof {
            assert(r@ == old_r.insert(p as int, k));
            assert forall|i: int, j: int| 0 <= i < j < r@.len() implies ranks_above(
                es,
                #[trigger] r@[i] as int,
                #[trigger] r@[j] as int,
            ) by {
                if j < p {
                    assert(r@[i] == old_r[i] && r@[j] == old_r[j]);
                } else if j == p {
                    assert(r@[i] == old_r[i]);
                } else if i < p {
                    assert(r@[i] == old_r[i] && r@[j] == old_r[j - 1]);
                    assert(ranks_above(es, old_r[i] as int, old_r[j - 1] as int));
                } else if i == p {
                    assert(r@[j] == old_r[j - 1]);
                } else {
                    assert(r@[i] == old_r[i - 1] && r@[j] == old_r[j - 1]);
                    assert(ranks_above(es, old_r[i - 1] as int, old_r[j - 1] as int));
                }
            }
        }
        k = k + 1;
    }
    r
}

// ---------------------------------------------------------------------------
// Waiting for the file lock

/// A lock held this long belongs to a writer that died without releasing
/// it: no live writer holds the lock longer than one read and one write.
pub const STALE_LOCK_MS: u64 = 30_000;

/// What one attempt to take the lock on the leaderboard file gave.
#[derive(Debug, Clone, Copy, PartialEq, Eq, Structural)]
pub enum LockAttempt {
    Acquired,
    /// Another writer holds the lock, taken this many milliseconds ago.
    Busy(u64),
    /// The lock cannot be taken at all.
    Failed,
}

/// What the caller does next while waiting for the lock.
#[derive(Debug, Clone, Copy, PartialEq, Eq, Structural)]
pub enum LockStep {
    /// Go on with the read and write; release the lock afterwards.
    Proceed,
    /// Wait a moment and try again.
    Retry,
    /// Remove the abandoned lock and try again at once.
    BreakStale,
    /// Give up with this error.
    GiveUp(LeaderboardError),
}

/// The wait for the lock: it ends when the lock is taken, when it cannot be
/// taken, or when `timeout_ms` have passed since `started_ms` with the lock
/// busy. A lock older than `STALE_LOCK_MS` is broken instead of waited on.
pub open spec fn lock_step_spec(
    started_ms: u64,
    now_ms: u64,
    timeout_ms: u64,
    attempt: LockAttempt,
) -> LockStep {
    match attempt {
        LockAttempt::Acquired => LockStep::Proceed,
        LockAttempt::Failed => LockStep::GiveUp(LeaderboardError::Lock),
        LockAttempt::Busy(held_ms) => if held_ms >= STALE_LOCK_MS {
            LockStep::BreakStale
        } else if now_ms >= started_ms && now_ms - started_ms >= timeout_ms {
            LockStep::GiveUp(LeaderboardError::LockTimeout)
        } else {
            LockStep::Retry
        },
    }
}

pub fn next_lock_step(started_ms: u64, now_ms: u64, timeout_ms: u64, attempt: LockAttempt) -> (r:
    LockStep)
    ensures
        r == lock_step_spec(started_ms, now_ms, timeout_ms, attempt),
{
    match attempt {
        LockAttempt::Acquired => LockStep::Proceed,
        LockAttempt::Failed => LockStep::GiveUp(LeaderboardError::Lock),
        LockAttempt::Busy(held_ms) => {
            if held_ms >= STALE_LOCK_MS {
                LockStep::BreakStale
            } else if now_ms >= started_ms && now_ms - started_ms >= timeout_ms {
                LockStep::GiveUp(LeaderboardError::LockTimeout)
            } else {
                LockStep::Retry
            }
        },
    }
}

} // verus!
