//! The integer side of the result metrics, following monkeytype's
//! definitions:
//!
//! - net wpm  = (chars of correct words incl. their space + correct prefix of
//!   the current word) / 5 / minutes
//! - raw wpm  = all logged keystrokes / 5 / minutes
//! - accuracy = correct keystrokes / all keystrokes
//!
//! This module counts; turning counts into speeds (floating point) is left
//! to the caller.

use vstd::prelude::*;

use super::engine::{word_views, Keystroke, Word, WordView};

verus! {

#[derive(Debug, Clone, Copy, Default, PartialEq, Eq, Structural)]
pub struct CharCounts {
    pub correct: usize,
    pub incorrect: usize,
    pub extra: usize,
    pub missed: usize,
}

/// Typed characters among the first `j` that match the target.
pub open spec fn correct_in(w: WordView, j: int) -> nat
    decreases j,
{
    if j <= 0 {
        0
    } else {
        correct_in(w, j - 1) + if j - 1 < w.target.len() && w.typed[j - 1] == w.target[j - 1] {
            1nat
        } else {
            0nat
        }
    }
}

/// Typed characters among the first `j` that differ from the target.
pub open spec fn incorrect_in(w: WordView, j: int) -> nat
    decreases j,
{
    if j <= 0 {
        0
    } else {
        incorrect_in(w, j - 1) + if j - 1 < w.target.len() && w.typed[j - 1] != w.target[j - 1] {
            1nat
        } else {
            0nat
        }
    }
}

/// Characters typed past the end of the word.
pub open spec fn extra_in(w: WordView) -> nat {
    if w.typed.len() > w.target.len() {
        (w.typed.len() - w.target.len()) as nat
    } else {
        0
    }
}

/// Characters of a skipped-over word that were never typed.
pub open spec fn missed_in(w: WordView, i: int, current: int) -> nat {
    if i < current && w.typed.len() < w.target.len() {
        (w.target.len() - w.typed.len()) as nat
    } else {
        0
    }
}

/// Where counting stops: the first untouched word after the current one.
pub open spec fn counted_words(ws: Seq<WordView>, current: int, i: int) -> int
    decreases ws.len() - i,
{
    if i < 0 || i >= ws.len() {
        ws.len() as int
    } else if ws[i].typed.len() == 0 && i > current {
        i
    } else {
        counted_words(ws, current, i + 1)
    }
}

/// The counts over the words before `k`.
pub open spec fn counts_upto(ws: Seq<WordView>, current: int, k: int) -> (nat, nat, nat, nat)
    decreases k,
{
    if k <= 0 {
        (0, 0, 0, 0)
    } else {
        let (c, i, e, m) = counts_upto(ws, current, k - 1);
        let w = ws[k - 1];
        (
            c + correct_in(w, w.typed.len() as int),
            i + incorrect_in(w, w.typed.len() as int),
            e + extra_in(w),
            m + missed_in(w, k - 1, current),
        )
    }
}

/// What `char_counts` returns.
pub open spec fn spec_char_counts(ws: Seq<WordView>, current: int) -> (nat, nat, nat, nat) {
    counts_upto(ws, current, counted_words(ws, current, 0))
}

/// Every typed and target character, summed: bounds every count.
pub open spec fn total_len(ws: Seq<WordView>) -> nat
    decreases ws.len(),
{
    if ws.len() == 0 {
        0
    } else {
        total_len(ws.drop_last()) + ws.last().typed.len() + ws.last().target.len()
    }
}

proof fn lemma_word_counts_bound(w: WordView, j: int)
    requires
        0 <= j <= w.typed.len(),
    ensures
        correct_in(w, j) + incorrect_in(w, j) <= j,
        correct_in(w, j) + incorrect_in(w, j) <= w.target.len(),
    decreases j,
{
    if j > 0 {
        lemma_word_counts_bound(w, j - 1);
    }
}

proof fn lemma_counts_bound(ws: Seq<WordView>, current: int, k: int)
    requires
        0 <= k <= ws.len(),
    ensures
        ({
            let (c, i, e, m) = counts_upto(ws, current, k);
            c + i + e + m <= total_len(ws.take(k))
        }),
    decreases k,
{
    if k > 0 {
        lemma_counts_bound(ws, current, k - 1);
        let w = ws[k - 1];
        lemma_word_counts_bound(w, w.typed.len() as int);
        assert(ws.take(k).drop_last() =~= ws.take(k - 1));
        assert(ws.take(k).last() == w);
    }
}

proof fn lemma_total_len_prefix(ws: Seq<WordView>, k: int)
    requires
        0 <= k <= ws.len(),
    ensures
        total_len(ws.take(k)) <= total_len(ws),
    decreases ws.len() - k,
{
    if k < ws.len() {
        lemma_total_len_prefix(ws, k + 1);
        assert(ws.take(k + 1).drop_last() =~= ws.take(k));
    } else {
        assert(ws.take(k) =~= ws);
    }
}

proof fn lemma_counted_words_bounds(ws: Seq<WordView>, current: int, i: int)
    requires
        0 <= i <= ws.len(),
    ensures
        i <= counted_words(ws, current, i) <= ws.len(),
    decreases ws.len() - i,
{
    if i < ws.len() && !(ws[i].typed.len() == 0 && i > current) {
        lemma_counted_words_bounds(ws, current, i + 1);
    }
}

/// Counts each character of the typed words: correct, incorrect, extra
/// (typed past a word's end) and missed (left out of a word the caret has
/// moved past). Counting stops at the first untouched word after the
/// current one.
pub fn char_counts(words: &[Word], current: usize) -> (c: CharCounts)
    requires
        total_len(word_views(words@)) <= usize::MAX,
    ensures
        (c.correct as nat, c.incorrect as nat, c.extra as nat, c.missed as nat) == spec_char_counts(
            word_views(words@),
            current as int,
        ),
{
    let ghost ws = word_views(words@);
    let mut c = CharCounts { correct: 0, incorrect: 0, extra: 0, missed: 0 };
    let mut i: usize = 0;
    proof {
        lemma_counted_words_bounds(ws, current as int, 0);
    }
    while i < words.len() && !(words[i].typed.len() == 0 && i > current)
        invariant
            i <= words@.len(),
            ws == word_views(words@),
            total_len(ws) <= usize::MAX,
            counted_words(ws, current as int, 0) == counted_words(ws, current as int, i as int),
            (c.correct as nat, c.incorrect as nat, c.extra as nat, c.missed as nat) == counts_upto(
                ws,
                current as int,
                i as int,
            ),
        decreases words@.len() - i,
    {
        let w = &words[i];
        assert(ws[i as int] == w@);
        proof {
            lemma_counts_bound(ws, current as int, i + 1);
            lemma_total_len_prefix(ws, i + 1);
        }
        let mut j: usize = 0;
        let ghost c0 = c;
        while j < w.typed.len()
            invariant
                j <= w.typed@.len(),
                ws[i as int] == w@,
                i < ws.len(),
                (c.correct + c.incorrect) as nat == (c0.correct + c0.incorrect) as nat + correct_in(
                    w@,
                    j as int,
                ) + incorrect_in(w@, j as int),
                c.correct as nat == c0.correct as nat + correct_in(w@, j as int),
                c.incorrect as nat == c0.incorrect as nat + incorrect_in(w@, j as int),
                c.extra as int == c0.extra as int + if j > w.target@.len() {
                    j - w.target@.len()
                } else {
                    0
                },
                c.missed == c0.missed,
                ({
                    let (a, b, e, m) = counts_upto(ws, current as int, i + 1);
                    a + b + e + m <= usize::MAX
                }),
                (c0.correct as nat, c0.incorrect as nat, c0.extra as nat, c0.missed as nat)
                    == counts_upto(ws, current as int, i as int),
            decreases w.typed@.len() - j,
        {
            proof {
                lemma_word_counts_bound(w@, w.typed@.len() as int);
                lemma_word_counts_bound(w@, j + 1);
                if j + 1 <= w.typed@.len() {
                    assert(correct_in(w@, j + 1) <= correct_in(w@, w.typed@.len() as int)) by {
                        lemma_correct_in_mono(w@, j + 1, w.typed@.len() as int);
                    }
                    assert(incorrect_in(w@, j + 1) <= incorrect_in(w@, w.typed@.len() as int)) by {
                        lemma_incorrect_in_mono(w@, j + 1, w.typed@.len() as int);
                    }
                }
            }
            if j < w.target.len() {
                if w.typed[j] == w.target[j] {
                    c.correct = c.correct + 1;
                } else {
                    c.incorrect = c.incorrect + 1;
                }
            } else {
                c.extra = c.extra + 1;
            }
            j = j + 1;
        }
        if i < current && w.typed.len() < w.target.len() {
            c.missed = c.missed + (w.target.len() - w.typed.len());
        }
        i = i + 1;
    }
    proof {
        if i < words@.len() {
            assert(ws[i as int] == words@[i as int]@);
        }
    }
    c
}

proof fn lemma_correct_in_mono(w: WordView, a: int, b: int)
    requires
        0 <= a <= b,
    ensures
        correct_in(w, a) <= correct_in(w, b),
    decreases b - a,
{
    if a < b {
        lemma_correct_in_mono(w, a, b - 1);
    }
}

proof fn lemma_incorrect_in_mono(w: WordView, a: int, b: int)
    requires
        0 <= a <= b,
    ensures
        incorrect_in(w, a) <= incorrect_in(w, b),
    decreases b - a,
{
    if a < b {
        lemma_incorrect_in_mono(w, a, b - 1);
    }
}

/// Length of the longest prefix on which typed and target agree.
pub open spec fn agreeing_prefix(w: WordView, j: int) -> nat
    decreases w.typed.len() - j,
{
    if j < 0 || j >= w.typed.len() || j >= w.target.len() || w.typed[j] != w.target[j] {
        0
    } else {
        1 + agreeing_prefix(w, j + 1)
    }
}

/// Characters that count towards net speed from the words before `k`:
/// each correct word before the caret with its space, plus the correct
/// start of the current word.
pub open spec fn net_chars_upto(ws: Seq<WordView>, current: int, k: int) -> nat
    decreases k,
{
    if k <= 0 {
        0
    } else {
        let w = ws[k - 1];
        net_chars_upto(ws, current, k - 1) + if k - 1 < current {
            if w.correct() {
                (w.target.len() + 1) as nat
            } else {
                0nat
            }
        } else if k - 1 == current {
            agreeing_prefix(w, 0)
        } else {
            0nat
        }
    }
}

/// Keystrokes among `ks[from..to]` logged as correct (`want`) or not.
pub open spec fn count_keys(ks: Seq<Keystroke>, from: int, to: int, want: bool) -> nat
    decreases to - from,
{
    if to <= from {
        0
    } else {
        count_keys(ks, from, to - 1, want) + if ks[to - 1].correct == want {
            1nat
        } else {
            0nat
        }
    }
}

/// From `i`, the first keystroke logged at or after `end` milliseconds.
pub open spec fn scan(ks: Seq<Keystroke>, i: int, end: int) -> int
    decreases ks.len() - i,
{
    if i < 0 || i >= ks.len() || ks[i].at >= end {
        i
    } else {
        scan(ks, i + 1, end)
    }
}

/// How many keystrokes the per-second buckets up to second `s` take,
/// consuming the log in order.
pub open spec fn cut(ks: Seq<Keystroke>, s: int) -> int
    decreases s + 1,
{
    if s < 0 {
        0
    } else {
        scan(ks, cut(ks, s - 1), (s + 1) * 1000)
    }
}

/// Whole seconds the per-second series cover: the duration rounded up, at
/// least one.
pub open spec fn seconds_of(duration_ms: u64) -> nat {
    let s = (duration_ms as nat + 999) / 1000;
    if s < 1 {
        1
    } else {
        s
    }
}

/// The counts the result screen turns into speeds.
pub struct Tally {
    /// Characters counting towards net wpm.
    pub net_chars: usize,
    /// All logged keystrokes (raw wpm).
    pub total_keys: usize,
    /// Keystrokes logged as correct (accuracy).
    pub correct_keys: usize,
    /// Keystrokes in each whole second of the test.
    pub keys_per_second: Vec<usize>,
    /// Incorrect keystrokes in each second.
    pub errors_per_second: Vec<u32>,
    /// Correct keystrokes up to the end of each second.
    pub correct_by_second: Vec<usize>,
}

proof fn lemma_scan_bounds(ks: Seq<Keystroke>, i: int, end: int)
    requires
        0 <= i <= ks.len(),
    ensures
        i <= scan(ks, i, end) <= ks.len(),
    decreases ks.len() - i,
{
    if i < ks.len() && ks[i].at < end {
        lemma_scan_bounds(ks, i + 1, end);
    }
}

proof fn lemma_cut_bounds(ks: Seq<Keystroke>, s: int)
    ensures
        0 <= cut(ks, s) <= ks.len(),
        s >= 0 ==> cut(ks, s - 1) <= cut(ks, s),
    decreases s + 1,
{
    if s >= 0 {
        lemma_cut_bounds(ks, s - 1);
        lemma_scan_bounds(ks, cut(ks, s - 1), (s + 1) * 1000);
    }
}

proof fn lemma_count_keys_bound(ks: Seq<Keystroke>, from: int, to: int, want: bool)
    requires
        from <= to,
    ensures
        count_keys(ks, from, to, want) <= to - from,
    decreases to - from,
{
    if to > from {
        lemma_count_keys_bound(ks, from, to - 1, want);
    }
}

proof fn lemma_net_chars_bound(ws: Seq<WordView>, current: int, k: int)
    requires
        0 <= k <= ws.len(),
    ensures
        net_chars_upto(ws, current, k) <= total_len(ws.take(k)) + k,
    decreases k,
{
    if k > 0 {
        lemma_net_chars_bound(ws, current, k - 1);
        lemma_agreeing_prefix_bound(ws[k - 1], 0);
        assert(ws.take(k).drop_last() =~= ws.take(k - 1));
        assert(ws.take(k).last() == ws[k - 1]);
    }
}

proof fn lemma_agreeing_prefix_bound(w: WordView, j: int)
    requires
        0 <= j,
    ensures
        agreeing_prefix(w, j) <= w.typed.len(),
        j <= w.typed.len() ==> agreeing_prefix(w, j) + j <= w.typed.len(),
    decreases w.typed.len() - j,
{
    if !(j < 0 || j >= w.typed.len() || j >= w.target.len() || w.typed[j] != w.target[j]) {
        lemma_agreeing_prefix_bound(w, j + 1);
    }
}

fn agreeing_len(w: &Word) -> (n: usize)
    ensures
        n == agreeing_prefix(w@, 0),
{
    let mut j: usize = 0;
    while j < w.typed.len() && j < w.target.len() && w.typed[j] == w.target[j]
        invariant
            j <= w.typed@.len(),
            agreeing_prefix(w@, 0) == j + agreeing_prefix(w@, j as int),
        decreases w.typed@.len() - j,
    {
        j = j + 1;
    }
    j
}

/// Characters counting towards net speed (see `net_chars_upto`).
pub fn net_chars(words: &[Word], current: usize) -> (n: usize)
    requires
        total_len(word_views(words@)) + words@.len() <= usize::MAX,
    ensures
        n == net_chars_upto(word_views(words@), current as int, words@.len() as int),
{
    let ghost ws = word_views(words@);
    let mut n: usize = 0;
    let mut i: usize = 0;
    while i < words.len()
        invariant
            i <= words@.len(),
            ws == word_views(words@),
            total_len(ws) + ws.len() <= usize::MAX,
            n == net_chars_upto(ws, current as int, i as int),
        decreases words@.len() - i,
    {
        let w = &words[i];
        assert(ws[i as int] == w@);
        proof {
            lemma_net_chars_bound(ws, current as int, i + 1);
            lemma_total_len_prefix(ws, i + 1);
        }
        if i < current {
            if w.is_correct() {
                n = n + w.target.len() + 1;
            }
        } else if i == current {
            n = n + agreeing_len(w);
        }
        i = i + 1;
    }
    n
}

/// The integer counts behind the result metrics: net characters, all and
/// correct keystrokes, and per-second keystroke, error and cumulative
/// correct counts over `seconds_of(duration_ms)` buckets, taken from the
/// log in order (a bucket ends at the first keystroke at or after its end).
pub fn tally(words: &[Word], current: usize, keystrokes: &[Keystroke], duration_ms: u64) -> (t:
    Tally)
    requires
        total_len(word_views(words@)) + words@.len() <= usize::MAX,
        keystrokes@.len() <= u32::MAX,
        seconds_of(duration_ms) <= usize::MAX,
    ensures
        t.net_chars == net_chars_upto(word_views(words@), current as int, words@.len() as int),
        t.total_keys == keystrokes@.len(),
        t.correct_keys == count_keys(keystrokes@, 0, keystrokes@.len() as int, true),
        t.keys_per_second@.len() == seconds_of(duration_ms),
        t.errors_per_second@.len() == seconds_of(duration_ms),
        t.correct_by_second@.len() == seconds_of(duration_ms),
        forall|s: int|
            0 <= s < seconds_of(duration_ms) ==> #[trigger] t.keys_per_second@[s] == cut(
                keystrokes@,
                s,
            ) - cut(keystrokes@, s - 1),
        forall|s: int|
            0 <= s < seconds_of(duration_ms) ==> #[trigger] t.errors_per_second@[s] == count_keys(
                keystrokes@,
                cut(keystrokes@, s - 1),
                cut(keystrokes@, s),
                false,
            ),
        forall|s: int|
            0 <= s < seconds_of(duration_ms) ==> #[trigger] t.correct_by_second@[s] == count_keys(
                keystrokes@,
                0,
                cut(keystrokes@, s),
                true,
            ),
{
    let ghost ks = keystrokes@;
    let mut correct_keys: usize = 0;
    let mut k: usize = 0;
    while k < keystrokes.len()
        invariant
            k <= ks.len(),
            ks == keystrokes@,
            correct_keys == count_keys(ks, 0, k as int, true),
        decreases ks.len() - k,
    {
        proof {
            lemma_count_keys_bound(ks, 0, k + 1, true);
        }
        if keystrokes[k].correct {
            correct_keys = correct_keys + 1;
        }
        k = k + 1;
    }
    let secs: usize = if duration_ms / 1000 + (if duration_ms % 1000 > 0 {
        1u64
    } else {
        0u64
    }) < 1 {
        1
    } else {
        (duration_ms / 1000 + (if duration_ms % 1000 > 0 {
            1u64
        } else {
            0u64
        })) as usize
    };
    assert(secs == seconds_of(duration_ms));
    let mut keys_per_second: Vec<usize> = Vec::new();
    let mut errors_per_second: Vec<u32> = Vec::new();
    let mut correct_by_second: Vec<usize> = Vec::new();
    let mut cumulative: usize = 0;
    let mut idx: usize = 0;
    let mut s: usize = 0;
    while s < secs
        invariant
            s <= secs,
            secs == seconds_of(duration_ms),
            ks == keystrokes@,
            ks.len() <= u32::MAX,
            idx == cut(ks, s - 1),
            cumulative == count_keys(ks, 0, idx as int, true),
            keys_per_second@.len() == s,
            errors_per_second@.len() == s,
            correct_by_second@.len() == s,
            forall|q: int| 0 <= q < s ==> #[trigger] keys_per_second@[q] == cut(ks, q) - cut(ks, q - 1),
            forall|q: int|
                0 <= q < s ==> #[trigger] errors_per_second@[q] == count_keys(
                    ks,
                    cut(ks, q - 1),
                    cut(ks, q),
                    false,
                ),
            forall|q: int| 0 <= q < s ==> #[trigger] correct_by_second@[q] == count_keys(ks, 0, cut(ks, q), true),
        decreases secs - s,
    {
        let end: u128 = (s as u128 + 1) * 1000;
        let start = idx;
        let mut keys: usize = 0;
        let mut errors: u32 = 0;
        proof {
            lemma_cut_bounds(ks, s - 1);
            lemma_cut_bounds(ks, s as int);
        }
        while idx < keystrokes.len() && (keystrokes[idx].at as u128) < end
            invariant
                start <= idx <= ks.len(),
                ks == keystrokes@,
                ks.len() <= u32::MAX,
                end == (s + 1) * 1000,
                start == cut(ks, s - 1),
                scan(ks, start as int, end as int) == scan(ks, idx as int, end as int),
                keys == idx - start,
                errors == count_keys(ks, start as int, idx as int, false),
                cumulative == count_keys(ks, 0, idx as int, true),
            decreases ks.len() - idx,
        {
            proof {
                lemma_count_keys_bound(ks, start as int, idx + 1, false);
                lemma_count_keys_bound(ks, 0, idx + 1, true);
            }
            if keystrokes[idx].correct {
                cumulative = cumulative + 1;
            } else {
                errors = errors + 1;
            }
            keys = keys + 1;
            idx = idx + 1;
        }
        assert(idx == cut(ks, s as int));
        keys_per_second.push(keys);
        errors_per_second.push(errors);
        correct_by_second.push(cumulative);
        s = s + 1;
    }
    let t = Tally {
        net_chars: net_chars(words, current),
        total_keys: keystrokes.len(),
        correct_keys,
        keys_per_second,
        errors_per_second,
        correct_by_second,
    };
    t
}


/// The character counts as stored with a test record.
#[derive(Debug, Clone, Copy, PartialEq, Eq, Structural)]
pub struct CharRecord {
    pub correct: usize,
    pub incorrect: usize,
    pub extra: usize,
    pub missed: usize,
}

impl From<CharCounts> for CharRecord {
    fn from(c: CharCounts) -> (r: Self) {
        CharRecord { correct: c.correct, incorrect: c.incorrect, extra: c.extra, missed: c.missed }
    }
}

impl vstd::std_specs::convert::FromSpecImpl<CharCounts> for CharRecord {
    open spec fn obeys_from_spec() -> bool {
        true
    }

    open spec fn from_spec(c: CharCounts) -> CharRecord {
        CharRecord { correct: c.correct, incorrect: c.incorrect, extra: c.extra, missed: c.missed }
    }
}

/// Net characters grow word by word: a word before the caret adds its
/// length and its space exactly when it was typed as its target, and
/// nothing otherwise (a word left with an error, or typed only partly).
pub proof fn law_net_chars_count_whole_words(ws: Seq<WordView>, current: int, k: int)
    requires
        0 <= k < current,
        k < ws.len(),
    ensures
        ws[k].typed == ws[k].target ==> net_chars_upto(ws, current, k + 1) == net_chars_upto(
            ws,
            current,
            k,
        ) + ws[k].target.len() + 1,
        ws[k].typed != ws[k].target ==> net_chars_upto(ws, current, k + 1) == net_chars_upto(
            ws,
            current,
            k,
        ),
{
}

/// The word under the caret adds the length of its start that agrees with
/// the target, and words after it add nothing.
pub proof fn law_net_chars_current_word(ws: Seq<WordView>, current: int, k: int)
    requires
        0 <= current <= k < ws.len(),
    ensures
        k == current ==> net_chars_upto(ws, current, k + 1) == net_chars_upto(ws, current, k)
            + agreeing_prefix(ws[k], 0),
        k > current ==> net_chars_upto(ws, current, k + 1) == net_chars_upto(ws, current, k),
        agreeing_prefix(ws[k], 0) <= ws[k].typed.len(),
        agreeing_prefix(ws[k], 0) <= ws[k].target.len(),
        forall|j: int|
            0 <= j < agreeing_prefix(ws[k], 0) ==> #[trigger] ws[k].typed[j] == ws[k].target[j],
{
    lemma_agreeing_facts(ws[k], 0);
}

proof fn lemma_agreeing_facts(w: WordView, i: int)
    requires
        0 <= i,
    ensures
        i + agreeing_prefix(w, i) <= w.typed.len() || agreeing_prefix(w, i) == 0,
        i + agreeing_prefix(w, i) <= w.target.len() || agreeing_prefix(w, i) == 0,
        forall|j: int| i <= j < i + agreeing_prefix(w, i) ==> #[trigger] w.typed[j] == w.target[j],
    decreases w.typed.len() - i,
{
    if i < w.typed.len() && i < w.target.len() && w.typed[i] == w.target[i] {
        lemma_agreeing_facts(w, i + 1);
    }
}

} // verus!
