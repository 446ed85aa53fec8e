//! What the typing screen shows of each word.

use vstd::prelude::*;

use crate::config::Config;
use crate::language::LanguageRegistry;
use crate::test::engine::{Status, Word, WordView};
use crate::test::mode::Mode;
use crate::text::{decimal, from_chars, push_decimal, push_str};

verus! {

/// How one character cell of the word box is drawn.
#[derive(Debug, Clone, Copy, PartialEq, Eq, Structural)]
pub enum CellStyle {
    /// Typed and matching the target.
    Correct,
    /// Typed and differing from the target.
    Error,
    /// Typed past the end of the word.
    Extra,
    /// Not typed yet (and the space after a word).
    Pending,
    /// Under the caret.
    Caret,
}

/// Number of cells a word shows before its trailing space.
pub open spec fn shown_len(w: WordView) -> nat {
    if w.target.len() > w.typed.len() {
        w.target.len()
    } else {
        w.typed.len()
    }
}

/// The characters a word shows: its target, then any extra typed ones.
pub open spec fn spec_shown(w: WordView) -> Seq<char> {
    Seq::new(
        shown_len(w),
        |j: int|
            if j < w.target.len() {
                w.target[j]
            } else {
                w.typed[j]
            },
    )
}

pub fn shown_chars(w: &Word) -> (r: Vec<char>)
    ensures
        r@ == spec_shown(w@),
{
    let n = if w.target.len() > w.typed.len() {
        w.target.len()
    } else {
        w.typed.len()
    };
    let mut r: Vec<char> = Vec::new();
    let mut j: usize = 0;
    while j < n
        invariant
            j <= n,
            n == shown_len(w@),
            r@ == spec_shown(w@).take(j as int),
        decreases n - j,
    {
        if j < w.target.len() {
            r.push(w.target[j]);
        } else {
            r.push(w.typed[j]);
        }
        j = j + 1;
        assert(r@ =~= spec_shown(w@).take(j as int));
    }
    assert(r@ =~= spec_shown(w@));
    r
}

/// The style of cell `j` of a word; the caret sits at the typing position
/// of the current word.
pub open spec fn cell_style(w: WordView, j: int, is_current: bool) -> CellStyle {
    if is_current && j == w.typed.len() {
        CellStyle::Caret
    } else if j < w.target.len() && j < w.typed.len() {
        if w.target[j] == w.typed[j] {
            CellStyle::Correct
        } else {
            CellStyle::Error
        }
    } else if j < w.typed.len() {
        CellStyle::Extra
    } else {
        CellStyle::Pending
    }
}

/// The cells of a word: its shown characters, then a space; each with its
/// style.
pub open spec fn spec_cells(w: WordView, is_current: bool) -> Seq<(char, CellStyle)> {
    Seq::new(
        shown_len(w) + 1,
        |j: int|
            if j < shown_len(w) {
                (spec_shown(w)[j], cell_style(w, j, is_current))
            } else {
                (' ', cell_style(w, j, is_current))
            },
    )
}

fn style_at(w: &Word, j: usize, is_current: bool) -> (s: CellStyle)
    ensures
        s == cell_style(w@, j as int, is_current),
{
    if is_current && j == w.typed.len() {
        CellStyle::Caret
    } else if j < w.target.len() && j < w.typed.len() {
        if w.target[j] == w.typed[j] {
            CellStyle::Correct
        } else {
            CellStyle::Error
        }
    } else if j < w.typed.len() {
        CellStyle::Extra
    } else {
        CellStyle::Pending
    }
}

pub fn word_cells(w: &Word, is_current: bool) -> (r: Vec<(char, CellStyle)>)
    ensures
        r@ == spec_cells(w@, is_current),
{
    let chars = shown_chars(w);
    let n = chars.len();
    let mut r: Vec<(char, CellStyle)> = Vec::new();
    let mut j: usize = 0;
    while j < n
        invariant
            j <= n,
            n == shown_len(w@),
            chars@ == spec_shown(w@),
            r@ == spec_cells(w@, is_current).take(j as int),
        decreases n - j,
    {
        let style = style_at(w, j, is_current);
        r.push((chars[j], style));
        j = j + 1;
        assert(r@ =~= spec_cells(w@, is_current).take(j as int));
    }
    let style = style_at(w, n, is_current);
    r.push((' ', style));
    assert(r@ =~= spec_cells(w@, is_current));
    r
}


/// The mode line: mode, language, then the modifiers that are on, joined
/// by a middle dot.
pub open spec fn spec_mode_line(mode: Mode, language: Seq<char>, punctuation: bool, numbers: bool) -> Seq<char> {
    let sep = "  \u{b7}  "@;
    mode.spec_label() + sep + language + (if punctuation {
        sep + "punctuation"@
    } else {
        Seq::empty()
    }) + (if numbers {
        sep + "numbers"@
    } else {
        Seq::empty()
    })
}

/// The dim line under the words: `time 30  ·  english  ·  punctuation`.
/// Names the language the test really uses (the fallback when the
/// configured one is unknown).
pub fn mode_line(config: &Config, languages: &LanguageRegistry) -> (r: String)
    requires
        languages.wf(),
        languages@.contains_key(config.language@) || languages@.contains_key("english"@),
    ensures
        r@ == spec_mode_line(
            config.mode,
            if languages@.contains_key(config.language@) {
                languages@[config.language@].name@
            } else {
                languages@["english"@].name@
            },
            config.punctuation,
            config.numbers,
        ),
{
    let lang = languages.get_or_default(config.language.as_str());
    let mut v: Vec<char> = Vec::new();
    let label = config.mode.label();
    push_str(&mut v, label.as_str());
    push_str(&mut v, "  \u{b7}  ");
    push_str(&mut v, lang.name.as_str());
    if config.punctuation {
        push_str(&mut v, "  \u{b7}  ");
        push_str(&mut v, "punctuation");
    }
    if config.numbers {
        push_str(&mut v, "  \u{b7}  ");
        push_str(&mut v, "numbers");
    }
    assert(v@ =~= spec_mode_line(config.mode, lang.name@, config.punctuation, config.numbers));
    from_chars(&v)
}

/// Whole seconds in `ms`, rounded up.
pub open spec fn seconds_up(ms: u64) -> nat {
    (ms as nat + 999) / 1000
}

/// The counter above the words: in Time mode the test's seconds before
/// it starts and the seconds left (rounded up) after; in Words mode the
/// words done out of the total.
pub open spec fn spec_counter(mode: Mode, status: Status, remaining: Option<u64>, done: nat) -> Seq<char> {
    match mode {
        Mode::Time(secs) => if status == Status::Idle {
            decimal(secs as nat)
        } else {
            match remaining {
                Some(ms) => decimal(seconds_up(ms)),
                None => decimal(secs as nat),
            }
        },
        Mode::Words(n) => decimal(done) + "/"@ + decimal(n as nat),
    }
}

/// The counter text; `remaining` is the engine's time left, `done` its
/// words completed.
pub fn counter(mode: Mode, status: Status, remaining: Option<u64>, done: usize) -> (r: String)
    ensures
        r@ == spec_counter(mode, status, remaining, done as nat),
{
    let mut out: Vec<char> = Vec::new();
    match mode {
        Mode::Time(secs) => {
            let shown: u64 = if status == Status::Idle {
                secs as u64
            } else {
                match remaining {
                    Some(ms) => ms / 1000 + if ms % 1000 > 0 {
                        1
                    } else {
                        0
                    },
                    None => secs as u64,
                }
            };
            push_decimal(&mut out, shown);
        },
        Mode::Words(n) => {
            push_decimal(&mut out, done as u64);
            push_str(&mut out, "/");
            push_decimal(&mut out, n as u64);
        },
    }
    from_chars(&out)
}

/// Index of the first line (start inclusive, end exclusive) at or after
/// `i` that holds word `current`, or 0 when none does.
pub open spec fn line_of(lines: Seq<(usize, usize)>, current: usize, i: int) -> int
    decreases lines.len() - i,
{
    if i < 0 || i >= lines.len() {
        0
    } else if lines[i].0 <= current < lines[i].1 {
        i
    } else {
        line_of(lines, current, i + 1)
    }
}

/// The first line shown: the one before the caret's line, so the caret
/// sits on the second visible line once it has left the first.
pub open spec fn spec_first_visible(lines: Seq<(usize, usize)>, current: usize) -> int {
    let k = line_of(lines, current, 0);
    if k > 0 {
        k - 1
    } else {
        0
    }
}

pub fn first_visible(lines: &[(usize, usize)], current: usize) -> (r: usize)
    ensures
        r == spec_first_visible(lines@, current),
{
    let mut i: usize = 0;
    while i < lines.len()
        invariant
            i <= lines@.len(),
            line_of(lines@, current, 0) == line_of(lines@, current, i as int),
        decreases lines@.len() - i,
    {
        let (a, b) = lines[i];
        if a <= current && current < b {
            return if i > 0 {
                i - 1
            } else {
                0
            };
        }
        i = i + 1;
    }
    0
}

} // verus!
