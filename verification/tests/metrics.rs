use ttyp::test::metrics::{char_counts, net_chars, tally};
use ttyp::test::{CharCounts, CharRecord, Keystroke, Word};

fn word(target: &str, typed: &str) -> Word {
    Word { target: target.chars().collect(), typed: typed.chars().collect() }
}

fn ks(n: usize, correct: bool, ms: u64) -> Vec<Keystroke> {
    (0..n).map(|i| Keystroke { at: ms * i as u64 / n as u64, correct }).collect()
}

#[test]
fn counts_extra_and_missed() {
    let words = vec![word("abc", "a"), word("de", "dezz"), word("fg", "")];
    let c = char_counts(&words, 1);
    assert_eq!(c.missed, 2);
    assert_eq!(c.extra, 2);
    assert_eq!(c.correct, 3);
}

#[test]
fn perfect_test_counts() {
    // "hello world" in 6 seconds: 11 keystrokes, all correct.
    let words = vec![word("hello", "hello"), word("world", "world")];
    let keys = ks(11, true, 6000);
    let c = char_counts(&words, 1);
    assert_eq!(c, CharCounts { correct: 10, incorrect: 0, extra: 0, missed: 0 });
    let t = tally(&words, 1, &keys, 6000);
    // "hello" + space, plus the typed prefix of "world".
    assert_eq!(t.net_chars, 11);
    assert_eq!(net_chars(&words, 1), 11);
    assert_eq!(t.total_keys, 11);
    assert_eq!(t.correct_keys, 11);
    assert_eq!(t.keys_per_second.len(), 6);
    assert_eq!(t.keys_per_second.iter().sum::<usize>(), 11);
    assert_eq!(t.correct_by_second.last(), Some(&11));
}

#[test]
fn errors_reduce_net_chars_and_accuracy_counts() {
    let words = vec![word("ab", "ax"), word("cd", "cd")];
    let mut keys = ks(2, true, 1000);
    keys[1].correct = false;
    keys.extend(ks(2, true, 1000).into_iter().map(|mut k| {
        k.at += 1000;
        k
    }));
    let t = tally(&words, 1, &keys, 2000);
    assert_eq!(t.correct_keys, 3);
    assert_eq!(t.total_keys, 4);
    // Word 0 wrong counts nothing; the current word's correct prefix 2.
    assert_eq!(t.net_chars, 2);
    assert_eq!(t.errors_per_second, vec![1, 0]);
    assert_eq!(t.keys_per_second, vec![2, 2]);
    assert_eq!(t.correct_by_second, vec![1, 3]);
    let c = char_counts(&words, 1);
    assert_eq!(c.incorrect, 1);
    assert_eq!(c.correct, 3);
}

#[test]
fn zero_duration_has_one_second() {
    let t = tally(&[word("a", "")], 0, &[], 0);
    assert_eq!(t.net_chars, 0);
    assert_eq!(t.total_keys, 0);
    assert_eq!(t.keys_per_second.len(), 1);
}

#[test]
fn char_record_copies_counts() {
    let c = CharCounts { correct: 4, incorrect: 3, extra: 2, missed: 1 };
    let r = CharRecord::from(c);
    assert_eq!(r, CharRecord { correct: 4, incorrect: 3, extra: 2, missed: 1 });
}
