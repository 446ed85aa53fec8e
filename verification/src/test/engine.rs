//! The typing test state machine. Pure logic: takes characters and clock
//! readings, never touches the terminal. Every time-dependent method has an
//! `_at` variant that takes the time (milliseconds on a monotonic clock) so
//! tests are deterministic.

use vstd::prelude::*;

use super::generator::{word_texts, WordGenerator};
use super::mode::Mode;
use crate::clock::{instant_now, millis_since};
use std::time::Instant;
use crate::text::to_chars;

verus! {

/// How many words to keep queued ahead of the caret in Time mode.
pub const LOOKAHEAD: usize = 60;

#[derive(Debug, Clone, Copy, PartialEq, Eq, Structural)]
pub enum Status {
    /// Words shown, timer not started.
    Idle,
    Running,
    Finished,
}

/// One logged character keystroke (backspaces are not logged).
#[derive(Debug, Clone, Copy, PartialEq, Eq, Structural)]
pub struct Keystroke {
    /// Milliseconds since the test started.
    pub at: u64,
    pub correct: bool,
}

#[derive(Debug, Clone, PartialEq, Eq)]
pub struct Word {
    pub target: Vec<char>,
    pub typed: Vec<char>,
}

/// A word as two character sequences.
pub struct WordView {
    pub target: Seq<char>,
    pub typed: Seq<char>,
}

impl View for Word {
    type V = WordView;

    open spec fn view(&self) -> WordView {
        WordView { target: self.target@, typed: self.typed@ }
    }
}

impl WordView {
    pub open spec fn correct(self) -> bool {
        self.typed == self.target
    }

    /// Some typed character differs from the target, or too many were typed.
    pub open spec fn erroneous(self) -> bool {
        (exists|i: int|
            0 <= i < self.typed.len() && i < self.target.len() && self.typed[i] != self.target[i])
            || self.typed.len() > self.target.len()
    }
}

impl Word {
    /// A fresh word to type.
    pub fn new(s: &str) -> (w: Self)
        ensures
            w@.target == s@,
            w@.typed == Seq::<char>::empty(),
    {
        Word { target: to_chars(s), typed: Vec::new() }
    }

    pub fn is_correct(&self) -> (b: bool)
        ensures
            b == self@.correct(),
    {
        crate::text::chars_eq(&self.typed, &self.target)
    }

    pub fn has_error(&self) -> (b: bool)
        ensures
            b == self@.erroneous(),
    {
        let mut i: usize = 0;
        while i < self.typed.len() && i < self.target.len()
            invariant
                i <= self.typed.len(),
                i <= self.target.len(),
                forall|j: int| 0 <= j < i ==> self.typed@[j] == self.target@[j],
            decreases self.typed.len() - i,
        {
            if self.typed[i] != self.target[i] {
                return true;
            }
            i = i + 1;
        }
        self.typed.len() > self.target.len()
    }
}

/// The whole engine as mathematical values.
pub struct EngineView {
    pub mode: Mode,
    pub words: Seq<WordView>,
    pub current: int,
    pub status: Status,
    pub started_at: Option<u64>,
    pub finished_at: Option<u64>,
    pub keystrokes: Seq<Keystroke>,
}

/// `a - b`, or zero when `b` is later.
pub open spec fn since(a: u64, b: u64) -> u64 {
    if a >= b {
        (a - b) as u64
    } else {
        0
    }
}

/// A word not yet typed into.
pub open spec fn fresh(w: WordView) -> bool {
    w.typed.len() == 0
}

impl EngineView {
    /// What every engine keeps: the caret is on a word, and the clock
    /// readings match the status.
    pub open spec fn wf(self) -> bool {
        &&& 0 <= self.current < self.words.len()
        &&& self.status == Status::Idle ==> self.started_at is None && self.finished_at is None
            && self.keystrokes.len() == 0 && self.current == 0
        &&& self.status == Status::Running ==> self.started_at is Some && self.finished_at is None
        &&& self.status == Status::Finished ==> self.started_at is Some && self.finished_at is Some
    }

    /// Time elapsed at `now`: zero before the test starts, frozen after it
    /// finishes.
    pub open spec fn elapsed(self, now: u64) -> u64 {
        match self.started_at {
            Some(s) => match self.finished_at {
                Some(f) => since(f, s),
                None => since(now, s),
            },
            None => 0,
        }
    }

    /// Time left in Time mode.
    pub open spec fn remaining(self, now: u64) -> Option<u64> {
        match self.mode {
            Mode::Time(secs) => Some(since((secs as u64 * 1000) as u64, self.elapsed(now))),
            Mode::Words(_) => None,
        }
    }

    pub open spec fn finish(self, now: u64) -> EngineView {
        EngineView { status: Status::Finished, finished_at: Some(now), ..self }
    }

    /// The clock advanced to `now`; `true` when a timed test just ran out.
    pub open spec fn tick(self, now: u64) -> (EngineView, bool) {
        if self.status != Status::Running {
            (self, false)
        } else {
            match self.mode {
                Mode::Time(secs) => if self.elapsed(now) >= secs as u64 * 1000 {
                    (self.finish(now), true)
                } else {
                    (self, false)
                },
                Mode::Words(_) => (self, false),
            }
        }
    }

    /// Moving the caret past the current word; `true` when Time mode needs
    /// more words queued.
    pub open spec fn advance(self, now: u64) -> (EngineView, bool) {
        if self.current + 1 >= self.words.len() {
            (self.finish(now), false)
        } else {
            let next = EngineView { current: self.current + 1, ..self };
            (next, next.mode is Time && next.words.len() - next.current < LOOKAHEAD / 2)
        }
    }

    /// Typing `c` at `now`. The flag says whether Time mode then queues
    /// `LOOKAHEAD` more words.
    pub open spec fn type_char(self, c: char, now: u64) -> (EngineView, bool) {
        if self.status == Status::Finished {
            (self, false)
        } else if self.status == Status::Idle && c == ' ' {
            (self, false)
        } else {
            let v1 = if self.status == Status::Idle {
                EngineView { status: Status::Running, started_at: Some(now), ..self }
            } else {
                self
            };
            let (v2, ended) = v1.tick(now);
            if ended {
                (v2, false)
            } else {
                let at = v2.elapsed(now);
                let w = v2.words[v2.current];
                if c == ' ' {
                    if w.typed.len() == 0 {
                        (v2, false)
                    } else {
                        EngineView {
                            keystrokes: v2.keystrokes.push(Keystroke { at, correct: w.correct() }),
                            ..v2
                        }.advance(now)
                    }
                } else {
                    let correct = w.typed.len() < w.target.len() && w.target[w.typed.len() as int]
                        == c;
                    let nw = WordView { typed: w.typed.push(c), ..w };
                    let v3 = EngineView {
                        words: v2.words.update(v2.current, nw),
                        keystrokes: v2.keystrokes.push(Keystroke { at, correct }),
                        ..v2
                    };
                    if v3.mode is Words && v3.current + 1 == v3.words.len() && nw.correct() {
                        (v3.finish(now), false)
                    } else {
                        (v3, false)
                    }
                }
            }
        }
    }

    /// The previous word was left with an error.
    pub open spec fn can_go_back(self) -> bool {
        self.current > 0 && !self.words[self.current - 1].correct()
    }

    pub open spec fn backspace(self) -> EngineView {
        if self.status == Status::Finished {
            self
        } else if self.words[self.current].typed.len() > 0 {
            let w = self.words[self.current];
            EngineView {
                words: self.words.update(self.current, WordView { typed: w.typed.drop_last(), ..w }),
                ..self
            }
        } else if self.can_go_back() {
            EngineView { current: self.current - 1, ..self }
        } else {
            self
        }
    }

    pub open spec fn delete_word(self) -> EngineView {
        if self.status == Status::Finished {
            self
        } else {
            let cur = if self.words[self.current].typed.len() == 0 && self.can_go_back() {
                self.current - 1
            } else {
                self.current
            };
            let w = self.words[cur];
            EngineView {
                current: cur,
                words: self.words.update(cur, WordView { typed: Seq::empty(), ..w }),
                ..self
            }
        }
    }

    /// `after` is `before` with, when `grow`, `LOOKAHEAD` fresh words queued.
    pub open spec fn queued(before: EngineView, after: EngineView, grow: bool) -> bool {
        &&& after.words.len() == before.words.len() + if grow {
            LOOKAHEAD as int
        } else {
            0
        }
        &&& after.words.take(before.words.len() as int) == before.words
        &&& forall|i: int| before.words.len() <= i < after.words.len() ==> fresh(#[trigger] after.words[i])
        &&& after == EngineView { words: after.words, ..before }
    }
}

/// `type_char` keeps the engine well formed.
pub proof fn lemma_type_char_wf(v: EngineView, c: char, now: u64)
    requires
        v.wf(),
    ensures
        v.type_char(c, now).0.wf(),
{
}

/// Queuing words keeps the engine well formed.
pub proof fn lemma_queued_wf(before: EngineView, after: EngineView, grow: bool)
    requires
        before.wf(),
        EngineView::queued(before, after, grow),
    ensures
        after.wf(),
{
}

/// A typing test. Times are milliseconds of a monotonic clock: `type_char`
/// and `elapsed` read the test's own, counted from when the test was made;
/// the `_at` methods take the reading from their caller, who keeps to one
/// scale for a test.
pub struct TestEngine<G: WordGenerator> {
    mode: Mode,
    generator: G,
    words: Vec<Word>,
    current: usize,
    status: Status,
    started_at: Option<u64>,
    finished_at: Option<u64>,
    keystrokes: Vec<Keystroke>,
    /// Where this test's own clock readings count from.
    origin: Instant,
}

/// The views of a list of words.
pub open spec fn word_views(ws: Seq<Word>) -> Seq<WordView> {
    ws.map_values(|w: Word| w@)
}

impl<G: WordGenerator> View for TestEngine<G> {
    type V = EngineView;

    closed spec fn view(&self) -> EngineView {
        EngineView {
            mode: self.mode,
            words: word_views(self.words@),
            current: self.current as int,
            status: self.status,
            started_at: self.started_at,
            finished_at: self.finished_at,
            keystrokes: self.keystrokes@,
        }
    }
}

fn words_from(strings: &Vec<String>) -> (ws: Vec<Word>)
    ensures
        ws@.len() == strings@.len(),
        forall|i: int| 0 <= i < ws@.len() ==> (#[trigger] ws@[i])@.target == strings@[i]@
            && fresh(ws@[i]@),
{
    let mut ws: Vec<Word> = Vec::new();
    let mut i: usize = 0;
    while i < strings.len()
        invariant
            i <= strings@.len(),
            ws@.len() == i,
            forall|j: int| 0 <= j < i ==> (#[trigger] ws@[j])@.target == strings@[j]@ && fresh(
                ws@[j]@,
            ),
        decreases strings@.len() - i,
    {
        ws.push(Word::new(strings[i].as_str()));
        i = i + 1;
    }
    ws
}

/// The texts to type of a list of words.
pub open spec fn targets(ws: Seq<WordView>) -> Seq<Seq<char>> {
    ws.map_values(|w: WordView| w.target)
}

/// How many words a new test in `mode` starts with.
pub open spec fn initial_count(mode: Mode) -> nat {
    match mode {
        Mode::Words(n) => n as nat,
        Mode::Time(_) => LOOKAHEAD as nat,
    }
}

/// The words `after` holds beyond its first `kept` are one batch of
/// `LOOKAHEAD` that the generator `before` gave when `grow`; otherwise the
/// generator is left as it was.
pub open spec fn fed<G: WordGenerator>(before: G, kept: int, after: TestEngine<G>, grow: bool) -> bool {
    if grow {
        before.yields(LOOKAHEAD as nat, targets(after@.words.skip(kept)), after.spec_generator())
    } else {
        after.spec_generator() == before
    }
}

impl<G: WordGenerator> TestEngine<G> {
    pub closed spec fn spec_generator(&self) -> G {
        self.generator
    }

    /// A test in `mode` over exactly the words `ws`, nothing typed and the
    /// clock not started; `generator` supplies any words queued later.
    pub fn from_words(mode: Mode, generator: G, ws: Vec<String>) -> (e: Self)
        ensures
            e@.mode == mode,
            e@.words.len() == ws@.len(),
            targets(e@.words) == word_texts(ws@),
            forall|i: int| 0 <= i < e@.words.len() ==> fresh(#[trigger] e@.words[i]),
            e@.current == 0,
            e@.status == Status::Idle,
            e@.started_at is None,
            e@.finished_at is None,
            e@.keystrokes.len() == 0,
            e@.words.len() > 0 ==> e@.wf(),
            e.spec_generator() == generator,
    {
        let words = words_from(&ws);
        let e = TestEngine {
            mode,
            generator,
            words,
            current: 0,
            status: Status::Idle,
            started_at: None,
            finished_at: None,
            keystrokes: Vec::new(),
            origin: instant_now(),
        };
        assert forall|i: int| 0 <= i < e@.words.len() implies fresh(#[trigger] e@.words[i]) by {
            assert(e@.words[i] == e.words@[i]@);
        }
        assert(targets(e@.words) =~= word_texts(ws@)) by {
            assert forall|i: int| 0 <= i < ws@.len() implies #[trigger] targets(e@.words)[i]
                == word_texts(ws@)[i] by {
                assert(e@.words[i] == e.words@[i]@);
            }
        }
        e
    }

    /// A new test in `mode`: one batch drawn from `generator`, a word
    /// count's worth in Words mode and `LOOKAHEAD` in Time mode, nothing
    /// typed and the clock not started.
    pub fn new(mode: Mode, generator: G) -> (e: Self)
        ensures
            e@.mode == mode,
            e@.words.len() == match mode {
                Mode::Words(n) => n as int,
                Mode::Time(_) => LOOKAHEAD as int,
            },
            forall|i: int| 0 <= i < e@.words.len() ==> fresh(#[trigger] e@.words[i]),
            e@.current == 0,
            e@.status == Status::Idle,
            e@.started_at is None,
            e@.finished_at is None,
            e@.keystrokes.len() == 0,
            e@.words.len() > 0 ==> e@.wf(),
            generator.yields(initial_count(mode), targets(e@.words), e.spec_generator()),
    {
        let mut generator = generator;
        let n: usize = match mode {
            Mode::Words(n) => n as usize,
            Mode::Time(_) => LOOKAHEAD,
        };
        let strings = generator.next_words(n);
        Self::from_words(mode, generator, strings)
    }

    pub fn mode(&self) -> (m: Mode)
        ensures
            m == self@.mode,
    {
        self.mode
    }

    pub fn status(&self) -> (s: Status)
        ensures
            s == self@.status,
    {
        self.status
    }

    pub fn words(&self) -> (ws: &[Word])
        ensures
            word_views(ws@) == self@.words,
    {
        self.words.as_slice()
    }

    pub fn current_index(&self) -> (i: usize)
        ensures
            i == self@.current,
    {
        self.current
    }

    pub fn current_word(&self) -> (w: &Word)
        requires
            self@.wf(),
        ensures
            w@ == self@.words[self@.current],
    {
        &self.words[self.current]
    }

    pub fn keystrokes(&self) -> (ks: &[Keystroke])
        ensures
            ks@ == self@.keystrokes,
    {
        self.keystrokes.as_slice()
    }

    pub fn is_finished(&self) -> (b: bool)
        ensures
            b == (self@.status == Status::Finished),
    {
        self.status == Status::Finished
    }

    /// Time elapsed at `now` (zero before the test starts, frozen after finish).
    pub fn elapsed_at(&self, now: u64) -> (d: u64)
        ensures
            d == self@.elapsed(now),
    {
        match self.started_at {
            Some(s) => match self.finished_at {
                Some(f) => if f >= s {
                    f - s
                } else {
                    0
                },
                None => if now >= s {
                    now - s
                } else {
                    0
                },
            },
            None => 0,
        }
    }

    /// Time elapsed by the test's monotonic clock, frozen once the test
    /// has finished.
    pub fn elapsed(&self) -> (d: u64)
        ensures
            exists|now: u64| d == self@.elapsed(now),
            self@.finished_at is Some || self@.started_at is None ==> d == self@.elapsed(0),
    {
        let now = millis_since(&self.origin);
        self.elapsed_at(now)
    }

    /// Remaining time in Time mode, `None` in Words mode.
    pub fn remaining_at(&self, now: u64) -> (r: Option<u64>)
        ensures
            r == self@.remaining(now),
    {
        match self.mode {
            Mode::Time(secs) => {
                let limit: u64 = secs as u64 * 1000;
                let e = self.elapsed_at(now);
                Some(
                    if limit >= e {
                        limit - e
                    } else {
                        0
                    },
                )
            },
            Mode::Words(_) => None,
        }
    }

    /// Words completed so far (for the `n/total` counter in Words mode).
    pub fn words_completed(&self) -> (n: usize)
        ensures
            n == self@.current,
    {
        self.current
    }

    fn finish(&mut self, now: u64)
        ensures
            final(self)@ == old(self)@.finish(now),
            final(self).spec_generator() == old(self).spec_generator(),
    {
        self.status = Status::Finished;
        self.finished_at = Some(now);
    }

    /// Advance the clock. Finishes a Time-mode test whose limit has passed.
    /// Returns `true` if the test just finished.
    pub fn tick(&mut self, now: u64) -> (ended: bool)
        ensures
            (final(self)@, ended) == old(self)@.tick(now),
            final(self).spec_generator() == old(self).spec_generator(),
    {
        if self.status != Status::Running {
            return false;
        }
        match self.mode {
            Mode::Time(secs) => {
                if self.elapsed_at(now) >= secs as u64 * 1000 {
                    self.finish(now);
                    return true;
                }
                false
            },
            Mode::Words(_) => false,
        }
    }

    /// Time mode: keep enough words queued that the screen never runs dry.
    fn ensure_lookahead(&mut self)
        requires
            old(self)@.current < old(self)@.words.len(),
        ensures
            EngineView::queued(
                old(self)@,
                final(self)@,
                old(self)@.mode is Time && old(self)@.words.len() - old(self)@.current < LOOKAHEAD
                    / 2,
            ),
            fed(
                old(self).spec_generator(),
                old(self)@.words.len() as int,
                *final(self),
                old(self)@.mode is Time && old(self)@.words.len() - old(self)@.current < LOOKAHEAD
                    / 2,
            ),
    {
        let is_time = match self.mode {
            Mode::Time(_) => true,
            Mode::Words(_) => false,
        };
        if !is_time {
            proof {
                assert(word_views(self.words@).take(self.words@.len() as int) =~= word_views(
                    self.words@,
                ));
            }
            return;
        }
        let ahead = self.words.len() - self.current;
        if ahead < LOOKAHEAD / 2 {
            let more = self.generator.next_words(LOOKAHEAD);
            let ghost before = self.words@;
            let ghost gen = self.generator;
            let mut i: usize = 0;
            while i < more.len()
                invariant
                    i <= more@.len(),
                    more@.len() == LOOKAHEAD,
                    self.words@.len() == before.len() + i,
                    self.words@.take(before.len() as int) == before,
                    forall|j: int|
                        before.len() <= j < self.words@.len() ==> fresh(#[trigger] self.words@[j]@),
                    forall|j: int|
                        before.len() <= j < self.words@.len() ==> (#[trigger] self.words@[j])@.target
                            == more@[j - before.len()]@,
                    self.generator == gen,
                    self.mode == old(self).mode,
                    self.current == old(self).current,
                    self.status == old(self).status,
                    self.started_at == old(self).started_at,
                    self.finished_at == old(self).finished_at,
                    self.keystrokes@ == old(self).keystrokes@,
                    before == old(self).words@,
                decreases more@.len() - i,
            {
                let ghost prev = self.words@;
                self.words.push(Word::new(more[i].as_str()));
                i = i + 1;
                assert(self.words@.take(before.len() as int) =~= prev.take(before.len() as int));
            }
            proof {
                assert(targets(self@.words.skip(before.len() as int)) =~= word_texts(more@)) by {
                    assert forall|j: int| 0 <= j < more@.len() implies #[trigger] targets(
                        self@.words.skip(before.len() as int),
                    )[j] == word_texts(more@)[j] by {
                        assert(self@.words[before.len() + j] == self.words@[before.len() + j]@);
                    }
                }
                assert(word_views(self.words@).take(before.len() as int) =~= word_views(before));
                assert forall|j: int|
                    before.len() <= j < word_views(self.words@).len() implies fresh(
                    #[trigger] word_views(self.words@)[j],
                ) by {
                    assert(word_views(self.words@)[j] == self.words@[j]@);
                }
            }
        } else {
            proof {
                assert(word_views(self.words@).take(self.words@.len() as int) =~= word_views(
                    self.words@,
                ));
            }
        }
    }

    fn advance(&mut self, now: u64)
        requires
            old(self)@.wf(),
            old(self)@.status == Status::Running,
        ensures
            ({
                let (next, grow) = old(self)@.advance(now);
                EngineView::queued(next, final(self)@, grow)
            }),
            fed(old(self).spec_generator(), old(self)@.words.len() as int, *final(self), old(self)@.advance(now).1),
            final(self)@.wf(),
    {
        let n = self.words.len();
        assert(self.current < n);
        if self.current + 1 >= n {
            // Space after the last word in Words mode ends the test (with the
            // last word marked wrong if it was).
            self.finish(now);
            proof {
                assert(word_views(self.words@).take(self.words@.len() as int) =~= word_views(
                    self.words@,
                ));
            }
            return;
        }
        self.current = self.current + 1;
        let ghost mid = self@;
        self.ensure_lookahead();
        proof {
            lemma_queued_wf(mid, self@, mid.mode is Time && mid.words.len() - mid.current < LOOKAHEAD / 2);
        }
    }

    /// Types `c` at the current reading of the test's monotonic clock.
    pub fn type_char(&mut self, c: char)
        requires
            old(self)@.wf(),
        ensures
            final(self)@.wf(),
            exists|now: u64|
                {
                    let (next, grow) = #[trigger] old(self)@.type_char(c, now);
                    &&& EngineView::queued(next, final(self)@, grow)
                    &&& fed(old(self).spec_generator(), old(self)@.words.len() as int, *final(self), grow)
                },
    {
        let now = millis_since(&self.origin);
        self.type_char_at(c, now);
    }

    /// Types `c` at time `now`: starts the clock on the first real
    /// character, logs a keystroke, moves to the next word on a space, and
    /// finishes the test as `EngineView::type_char` says.
    pub fn type_char_at(&mut self, c: char, now: u64)
        requires
            old(self)@.wf(),
        ensures
            ({
                let (next, grow) = old(self)@.type_char(c, now);
                EngineView::queued(next, final(self)@, grow)
            }),
            fed(
                old(self).spec_generator(),
                old(self)@.words.len() as int,
                *final(self),
                old(self)@.type_char(c, now).1,
            ),
            final(self)@.wf(),
    {
        proof {
            lemma_type_char_wf(self@, c, now);
        }
        if self.status == Status::Finished {
            proof {
                assert(self@.words.take(self@.words.len() as int) =~= self@.words);
            }
            return;
        }
        if self.status == Status::Idle {
            // Leading space does nothing; the first real character starts the clock.
            if c == ' ' {
                proof {
                    assert(self@.words.take(self@.words.len() as int) =~= self@.words);
                }
                return;
            }
            self.status = Status::Running;
            self.started_at = Some(now);
        }
        // Time limit may have passed between ticks.
        if self.tick(now) {
            proof {
                assert(self@.words.take(self@.words.len() as int) =~= self@.words);
            }
            return;
        }
        let at = self.elapsed_at(now);
        let cur = self.current;
        assert(self.words@.len() == self@.words.len());
        proof {
            assert(self@.words[cur as int] == self.words@[cur as int]@);
        }
        if c == ' ' {
            if self.words[cur].typed.len() == 0 {
                proof {
                    assert(self@.words.take(self@.words.len() as int) =~= self@.words);
                }
                return;
            }
            let correct = self.words[cur].is_correct();
            self.keystrokes.push(Keystroke { at, correct });
            self.advance(now);
            return;
        }
        let correct = self.words[cur].typed.len() < self.words[cur].target.len()
            && self.words[cur].target[self.words[cur].typed.len()] == c;
        let ghost before = self.words@;
        self.words[cur].typed.push(c);
        self.keystrokes.push(Keystroke { at, correct });
        proof {
            assert(word_views(self.words@) =~= word_views(before).update(
                cur as int,
                WordView { typed: before[cur as int].typed@.push(c), ..before[cur as int]@ },
            ));
        }
        // Words mode ends the moment the last word is typed correctly.
        let is_words = match self.mode {
            Mode::Words(_) => true,
            Mode::Time(_) => false,
        };
        let n = self.words.len();
        assert(cur < n);
        if is_words && cur + 1 == n && self.words[cur].is_correct() {
            self.finish(now);
        }
        proof {
            assert(self@.words.take(self@.words.len() as int) =~= self@.words);
        }
    }

    /// Delete one character. Moves back into the previous word only if that
    /// word was left with an error (matching monkeytype's default).
    pub fn backspace(&mut self)
        requires
            old(self)@.wf(),
        ensures
            final(self)@ == old(self)@.backspace(),
            final(self)@.wf(),
            final(self).spec_generator() == old(self).spec_generator(),
    {
        if self.status == Status::Finished {
            return;
        }
        let cur = self.current;
        proof {
            assert(self@.words[cur as int] == self.words@[cur as int]@);
        }
        let ghost before = self.words@;
        if self.words[cur].typed.len() > 0 {
            self.words[cur].typed.pop();
            proof {
                assert(word_views(self.words@) =~= word_views(before).update(
                    cur as int,
                    WordView { typed: before[cur as int].typed@.drop_last(), ..before[cur as int]@ },
                ));
            }
            return;
        }
        if self.can_go_back() {
            self.current = self.current - 1;
        }
    }

    /// Ctrl+Backspace / Ctrl+W: clear the current word, or if it is already
    /// empty, go back to the previous erroneous word and clear that.
    pub fn delete_word(&mut self)
        requires
            old(self)@.wf(),
        ensures
            final(self)@ == old(self)@.delete_word(),
            final(self)@.wf(),
            final(self).spec_generator() == old(self).spec_generator(),
    {
        if self.status == Status::Finished {
            return;
        }
        proof {
            assert(self@.words[self@.current] == self.words@[self@.current]@);
        }
        if self.words[self.current].typed.len() == 0 && self.can_go_back() {
            self.current = self.current - 1;
        }
        let cur = self.current;
        let ghost before = self.words@;
        self.words[cur].typed.clear();
        proof {
            assert(word_views(self.words@) =~= word_views(before).update(
                cur as int,
                WordView { typed: Seq::empty(), ..before[cur as int]@ },
            ));
        }
    }

    fn can_go_back(&self) -> (b: bool)
        requires
            self@.wf(),
        ensures
            b == self@.can_go_back(),
    {
        if self.current == 0 {
            return false;
        }
        proof {
            assert(self@.words[self@.current - 1] == self.words@[self@.current - 1]@);
        }
        !self.words[self.current - 1].is_correct()
    }
}


// ---------------------------------------------------------------------------
// Laws
// ---------------------------------------------------------------------------

/// A finished test ignores typing, backspace and word deletion.
pub proof fn law_finished_ignores_input(v: EngineView, c: char, now: u64)
    requires
        v.wf(),
        v.status == Status::Finished,
    ensures
        v.type_char(c, now) == (v, false),
        v.backspace() == v,
        v.delete_word() == v,
{
}

/// Before the test starts a space does nothing, and in particular does
/// not start the clock.
pub proof fn law_leading_space_ignored(v: EngineView, now: u64)
    requires
        v.wf(),
        v.status == Status::Idle,
    ensures
        v.type_char(' ', now) == (v, false),
{
}

/// The first real character starts the clock at the moment it is typed.
pub proof fn law_first_char_starts_clock(v: EngineView, c: char, now: u64)
    requires
        v.wf(),
        v.status == Status::Idle,
        c != ' ',
    ensures
        v.type_char(c, now).0.started_at == Some(now),
        v.type_char(c, now).0.status != Status::Idle,
{
}

/// Keystrokes are only ever appended: typing logs at most one, and
/// backspace and word deletion log none.
pub proof fn law_keystrokes_only_grow(v: EngineView, c: char, now: u64)
    requires
        v.wf(),
    ensures
        ({
            let k = v.type_char(c, now).0.keystrokes;
            (k == v.keystrokes || (k.len() == v.keystrokes.len() + 1 && k.drop_last()
                == v.keystrokes))
        }),
        v.backspace().keystrokes == v.keystrokes,
        v.delete_word().keystrokes == v.keystrokes,
{
    let k = v.type_char(c, now).0.keystrokes;
    if k != v.keystrokes {
        assert(k.drop_last() =~= v.keystrokes);
    }
}

/// Backspace moves back into the previous word only if that word was left
/// with an error.
pub proof fn law_backspace_only_into_erroneous_word(v: EngineView)
    requires
        v.wf(),
    ensures
        v.backspace().current == v.current || (v.backspace().current == v.current - 1
            && !v.words[v.current - 1].correct()),
        v.delete_word().current == v.current || (v.delete_word().current == v.current - 1
            && !v.words[v.current - 1].correct()),
        v.backspace().current < v.current ==> v.words[v.current].typed.len() == 0,
{
}

/// Backspace undoes a typed character: typing `c` into a running test
/// that goes on, then deleting it, gives back the words as they were.
pub proof fn law_backspace_undoes_char(v: EngineView, c: char, now: u64)
    requires
        v.wf(),
        v.status == Status::Running,
        c != ' ',
        v.type_char(c, now).0.status == Status::Running,
    ensures
        v.type_char(c, now).0.backspace().words == v.words,
        v.type_char(c, now).0.backspace().current == v.current,
{
    let t = v.type_char(c, now).0;
    let w = v.words[v.current];
    assert(t.words[v.current].typed == w.typed.push(c));
    assert(t.words[v.current].typed.drop_last() =~= w.typed);
    assert(t.backspace().words =~= v.words);
}

/// Words mode ends the moment the last word is typed correctly, without
/// waiting for a space.
pub proof fn law_words_mode_finishes_on_last_char(v: EngineView, c: char, now: u64)
    requires
        v.wf(),
        v.mode is Words,
        v.status == Status::Running,
        v.current == v.words.len() - 1,
        v.words[v.current].typed.push(c) == v.words[v.current].target,
        c != ' ',
        v.tick(now).1 == false,
    ensures
        v.type_char(c, now).0.status == Status::Finished,
        v.type_char(c, now).0.finished_at == Some(now),
{
}

/// A space after the last word ends a Words test, even with the word
/// wrong.
pub proof fn law_space_after_last_word_finishes(v: EngineView, now: u64)
    requires
        v.wf(),
        v.mode is Words,
        v.status == Status::Running,
        v.current == v.words.len() - 1,
        v.words[v.current].typed.len() > 0,
    ensures
        v.type_char(' ', now).0.status == Status::Finished,
{
}

/// A space that leaves a word logs one keystroke, correct exactly when
/// the word was typed as its target (a space after a wrongly or partly
/// typed word is an incorrect keystroke), and keeps the earlier log.
pub proof fn law_space_scores_the_word(v: EngineView, now: u64)
    requires
        v.wf(),
        v.status == Status::Running,
        !(v.mode matches Mode::Time(secs) && v.elapsed(now) >= secs as u64 * 1000),
        v.words[v.current].typed.len() > 0,
    ensures
        v.type_char(' ', now).0.keystrokes.len() == v.keystrokes.len() + 1,
        v.type_char(' ', now).0.keystrokes.take(v.keystrokes.len() as int) == v.keystrokes,
        v.type_char(' ', now).0.keystrokes.last().correct == (v.words[v.current].typed
            == v.words[v.current].target),
{
    let n = v.type_char(' ', now).0;
    assert(n.keystrokes.take(v.keystrokes.len() as int) =~= v.keystrokes);
}

/// A character typed into a word logs one keystroke, correct exactly when
/// it is the target's character at that position.
pub proof fn law_char_scores_against_target(v: EngineView, c: char, now: u64)
    requires
        v.wf(),
        v.status == Status::Running,
        !(v.mode matches Mode::Time(secs) && v.elapsed(now) >= secs as u64 * 1000),
        c != ' ',
    ensures
        v.type_char(c, now).0.keystrokes.len() == v.keystrokes.len() + 1,
        v.type_char(c, now).0.keystrokes.last().correct == {
            let w = v.words[v.current];
            w.typed.len() < w.target.len() && w.target[w.typed.len() as int] == c
        },
{
}

/// A timed test ends exactly when its time is up, and then has no time
/// left.
pub proof fn law_tick_finishes_at_limit(v: EngineView, now: u64, secs: u16)
    requires
        v.wf(),
        v.mode == Mode::Time(secs),
        v.status == Status::Running,
    ensures
        v.tick(now).1 <==> v.elapsed(now) >= secs as u64 * 1000,
        v.tick(now).1 ==> v.tick(now).0.status == Status::Finished && v.tick(now).0.remaining(
            now,
        ) == Some(0u64),
{
}

/// Time mode never runs dry: after moving to the next word there are
/// always `LOOKAHEAD / 2` words from the caret on.
pub proof fn law_time_mode_tops_up(before: EngineView, after: EngineView, now: u64)
    requires
        before.wf(),
        before.mode is Time,
        before.status == Status::Running,
        before.current + 1 < before.words.len(),
        EngineView::queued(before.advance(now).0, after, before.advance(now).1),
    ensures
        after.words.len() - after.current >= LOOKAHEAD / 2,
        after.current == before.current + 1,
{
}

} // verus!
