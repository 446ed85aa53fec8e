use ttyp::test::generator::{capitalize, decorate, mark_for, punctuated, Mark};
use ttyp::test::{Modifiers, RandomGenerator, WordGenerator};

fn words() -> Vec<String> {
    ["alpha", "beta", "gamma", "delta"].iter().map(|s| s.to_string()).collect()
}

#[test]
fn plain_words_only_from_list() {
    let mut g = RandomGenerator::with_seed(words(), Modifiers::default(), 1);
    let out = g.next_words(200);
    assert_eq!(out.len(), 200);
    let list = words();
    assert!(out.iter().all(|w| list.contains(w)));
    assert!(out.windows(2).all(|w| w[0] != w[1]), "no immediate repeats");
}

#[test]
fn deterministic_with_seed() {
    let a = RandomGenerator::with_seed(words(), Modifiers::default(), 7).next_words(20);
    let b = RandomGenerator::with_seed(words(), Modifiers::default(), 7).next_words(20);
    assert_eq!(a, b);
}

#[test]
fn punctuation_capitalizes_first_and_adds_marks() {
    let mods = Modifiers { punctuation: true, numbers: false };
    let out = RandomGenerator::with_seed(words(), mods, 3).next_words(300);
    assert!(out[0].chars().next().unwrap().is_uppercase());
    assert!(out.iter().any(|w| w.ends_with('.')));
    assert!(out.iter().any(|w| w.ends_with(',')));
}

#[test]
fn numbers_inserts_digits() {
    let mods = Modifiers { punctuation: false, numbers: true };
    let out = RandomGenerator::with_seed(words(), mods, 5).next_words(300);
    let nums = out.iter().filter(|w| w.chars().all(|c| c.is_ascii_digit())).count();
    assert!(nums > 10 && nums < 100, "got {nums}");
    assert!(out.iter().filter(|w| w.chars().all(|c| c.is_ascii_digit())).all(|w| w.len() <= 4));
}

#[test]
fn single_word_list_repeats_it() {
    let mut g = RandomGenerator::with_seed(vec!["solo".into()], Modifiers::default(), 2);
    assert_eq!(g.next_words(3), vec!["solo", "solo", "solo"]);
}

#[test]
fn marks_follow_the_roll_table() {
    assert_eq!(mark_for(0), Mark::Period);
    assert_eq!(mark_for(9), Mark::Period);
    assert_eq!(mark_for(10), Mark::Question);
    assert_eq!(mark_for(13), Mark::Exclamation);
    assert_eq!(mark_for(16), Mark::Comma);
    assert_eq!(mark_for(25), Mark::Semicolon);
    assert_eq!(mark_for(27), Mark::Colon);
    assert_eq!(mark_for(29), Mark::DoubleQuoted);
    assert_eq!(mark_for(32), Mark::SingleQuoted);
    assert_eq!(mark_for(34), Mark::Parenthesized);
    assert_eq!(mark_for(36), Mark::Hyphenated);
    assert_eq!(mark_for(38), Mark::Plain);
    assert_eq!(mark_for(99), Mark::Plain);
}

fn chars(s: &str) -> Vec<char> {
    s.chars().collect()
}

fn string(v: &[char]) -> String {
    v.iter().collect()
}

#[test]
fn decorations() {
    let w = chars("word");
    let n = chars("next");
    assert_eq!(string(&decorate(&w, Mark::DoubleQuoted, &n)), "\"word\"");
    assert_eq!(string(&decorate(&w, Mark::SingleQuoted, &n)), "'word'");
    assert_eq!(string(&decorate(&w, Mark::Parenthesized, &n)), "(word)");
    assert_eq!(string(&decorate(&w, Mark::Hyphenated, &n)), "word-next");
    assert_eq!(string(&decorate(&w, Mark::Semicolon, &n)), "word;");
    assert_eq!(string(&decorate(&w, Mark::Plain, &n)), "word");
    assert_eq!(string(&capitalize(&chars("ärger"))), "Ärger");
    assert_eq!(string(&capitalize(&chars("ß"))), "SS");
    let (out, ends) = punctuated(&w, true, Mark::Question, &n);
    assert_eq!(string(&out), "Word?");
    assert!(ends);
    let (out, ends) = punctuated(&w, false, Mark::Comma, &n);
    assert_eq!(string(&out), "word,");
    assert!(!ends);
}
