//! Command-line editing state plus fuzzy suggestions. The palette suggests
//! command names until a space is typed, then argument values for the
//! recognised command.

use vstd::prelude::*;

use nucleo_matcher::pattern::{CaseMatching, Normalization, Pattern};
use nucleo_matcher::{Matcher, Utf32Str};

use super::{arg_candidates, commands, find_from, find_index, spec_candidates, spec_commands, spec_find, views, ArgKind, CommandSpec};
use crate::text::{
    chars_eq, chars_lt, from_chars, lex_lt, push_str, split_first_blank, split_first_blank_chars,
    to_chars, to_string, trim, trim_chars, trim_start, trim_start_chars,
};

verus! {

/// At most this many suggestions are shown.
pub const MAX_SUGGESTIONS: usize = 8;

// ---------------------------------------------------------------------------
// The fuzzy matcher
// ---------------------------------------------------------------------------

#[verifier::external_type_specification]
#[verifier::external_body]
pub struct ExMatcher(nucleo_matcher::Matcher);

/// The score nucleo gives `haystack` for the pattern `needle` (parsed with
/// case ignored and smart normalisation); `None` when it does not match.
pub uninterp spec fn fuzzy_score(needle: Seq<char>, haystack: Seq<char>) -> Option<u32>;

/// A matcher with nucleo's default configuration (`Matcher::new`).
#[verifier::external_body]
fn new_matcher() -> Matcher {
    Matcher::new(nucleo_matcher::Config::DEFAULT)
}

/// `Pattern::parse(needle, Ignore, Smart).score(haystack, matcher)`.
/// The score depends on the needle and haystack alone (the matcher only
/// lends its scratch space); a needle of spaces alone parses to no atoms,
/// which nucleo scores `Some(0)` against anything.
#[verifier::external_body]
fn score(matcher: &mut Matcher, needle: &str, haystack: &str) -> (r: Option<u32>)
    ensures
        r == fuzzy_score(needle@, haystack@),
        (forall|i: int| 0 <= i < needle@.len() ==> needle@[i] == ' ') ==> r == Some(0u32),
{
    let pattern = Pattern::parse(needle, CaseMatching::Ignore, Normalization::Smart);
    let mut buf = Vec::new();
    pattern.score(Utf32Str::new(haystack, &mut buf), matcher)
}

// ---------------------------------------------------------------------------
// Data
// ---------------------------------------------------------------------------

/// Live data the palette needs to complete arguments.
#[derive(Debug, Clone, Default)]
pub struct Completions {
    pub themes: Vec<String>,
    pub languages: Vec<String>,
    pub fonts: Vec<String>,
}

#[derive(Debug, Clone, PartialEq, Eq)]
pub struct Suggestion {
    /// Text shown in the popup (name or value).
    pub label: String,
    /// Right-hand description (usage + help for commands, empty for args).
    pub detail: String,
    /// Full command line after accepting this suggestion.
    pub completion: String,
}

pub struct SuggestionView {
    pub label: Seq<char>,
    pub detail: Seq<char>,
    pub completion: Seq<char>,
}

impl View for Suggestion {
    type V = SuggestionView;

    open spec fn view(&self) -> SuggestionView {
        SuggestionView { label: self.label@, detail: self.detail@, completion: self.completion@ }
    }
}

pub open spec fn suggestion_views(v: Seq<Suggestion>) -> Seq<SuggestionView> {
    v.map_values(|s: Suggestion| s@)
}

/// What the palette is currently completing.
#[derive(Debug, Clone, Copy, PartialEq, Eq, Structural)]
pub enum Stage {
    Command,
    Arg(ArgKind),
}

pub struct CommandLine {
    pub input: String,
    /// Cursor position in chars.
    pub cursor: usize,
    pub selected: usize,
    pub suggestions: Vec<Suggestion>,
    /// Message from the last executed command, shown in place of the palette.
    pub message: Option<String>,
    stage: Stage,
    matcher: Matcher,
}

pub struct CommandLineView {
    pub input: Seq<char>,
    pub cursor: nat,
    pub selected: nat,
    pub suggestions: Seq<SuggestionView>,
    pub message: Option<Seq<char>>,
    pub stage: Stage,
}

impl View for CommandLine {
    type V = CommandLineView;

    closed spec fn view(&self) -> CommandLineView {
        CommandLineView {
            input: self.input@,
            cursor: self.cursor as nat,
            selected: self.selected as nat,
            suggestions: suggestion_views(self.suggestions@),
            message: match self.message {
                Some(m) => Some(m@),
                None => None,
            },
            stage: self.stage,
        }
    }
}

// ---------------------------------------------------------------------------
// Ranking
// ---------------------------------------------------------------------------

/// `a` is listed before `b`: higher score first, then by label.
pub open spec fn ranks_before(a: (u32, SuggestionView), b: (u32, SuggestionView)) -> bool {
    a.0 > b.0 || (a.0 == b.0 && lex_lt(a.1.label, b.1.label))
}

/// `x` inserted into a ranked list after every entry it does not rank
/// before (so ties keep their order of arrival).
pub open spec fn insert_ranked(s: Seq<(u32, SuggestionView)>, x: (u32, SuggestionView)) -> Seq<
    (u32, SuggestionView),
>
    decreases s.len(),
{
    if s.len() == 0 {
        seq![x]
    } else if ranks_before(x, s[0]) {
        seq![x] + s
    } else {
        seq![s[0]] + insert_ranked(s.drop_first(), x)
    }
}

/// The stable sort of `s` by `ranks_before`.
pub open spec fn sort_ranked(s: Seq<(u32, SuggestionView)>) -> Seq<(u32, SuggestionView)>
    decreases s.len(),
{
    if s.len() == 0 {
        s
    } else {
        insert_ranked(sort_ranked(s.drop_last()), s.last())
    }
}

/// The items that match `needle`, each with its score, in their order.
pub open spec fn scored(needle: Seq<char>, items: Seq<SuggestionView>) -> Seq<(u32, SuggestionView)>
    decreases items.len(),
{
    if items.len() == 0 {
        Seq::empty()
    } else {
        let rest = scored(needle, items.drop_last());
        match fuzzy_score(needle, items.last().label) {
            Some(sc) => rest.push((sc, items.last())),
            None => rest,
        }
    }
}

/// The suggestions for `needle`: the matching items, best first, at most
/// `MAX_SUGGESTIONS` of them.
pub open spec fn spec_rank(needle: Seq<char>, items: Seq<SuggestionView>) -> Seq<SuggestionView> {
    let r = sort_ranked(scored(needle, items)).map_values(|p: (u32, SuggestionView)| p.1);
    if r.len() > MAX_SUGGESTIONS {
        r.take(MAX_SUGGESTIONS as int)
    } else {
        r
    }
}

pub proof fn lemma_insert_ranked_at(s: Seq<(u32, SuggestionView)>, x: (u32, SuggestionView), p: int)
    requires
        0 <= p <= s.len(),
        forall|j: int| 0 <= j < p ==> !ranks_before(x, #[trigger] s[j]),
        p < s.len() ==> ranks_before(x, s[p]),
    ensures
        insert_ranked(s, x) == s.take(p) + seq![x] + s.skip(p),
    decreases s.len(),
{
    if s.len() == 0 {
        assert(s.take(p) + seq![x] + s.skip(p) =~= seq![x]);
    } else if p == 0 {
        assert(s.take(p) + seq![x] + s.skip(p) =~= seq![x] + s);
    } else {
        let t = s.drop_first();
        assert forall|j: int| 0 <= j < p - 1 implies !ranks_before(x, #[trigger] t[j]) by {
            assert(t[j] == s[j + 1]);
        }
        if p - 1 < t.len() {
            assert(t[p - 1] == s[p]);
        }
        lemma_insert_ranked_at(t, x, p - 1);
        assert(s.take(p) + seq![x] + s.skip(p) =~= seq![s[0]] + (t.take(p - 1) + seq![x] + t.skip(
            p - 1,
        )));
    }
}

pub proof fn lemma_insert_ranked_members(s: Seq<(u32, SuggestionView)>, x: (u32, SuggestionView))
    ensures
        insert_ranked(s, x).len() == s.len() + 1,
        forall|y: (u32, SuggestionView)| #[trigger]
            insert_ranked(s, x).contains(y) ==> s.contains(y) || y == x,
    decreases s.len(),
{
    if s.len() > 0 && !ranks_before(x, s[0]) {
        let t = s.drop_first();
        lemma_insert_ranked_members(t, x);
        assert forall|y: (u32, SuggestionView)| #[trigger]
            insert_ranked(s, x).contains(y) implies s.contains(y) || y == x by {
            let k = choose|k: int| 0 <= k < insert_ranked(s, x).len() && insert_ranked(s, x)[k] == y;
            if k == 0 {
                assert(s[0] == y);
            } else {
                assert(insert_ranked(t, x)[k - 1] == y);
                assert(insert_ranked(t, x).contains(y));
                if t.contains(y) {
                    let m = choose|m: int| 0 <= m < t.len() && t[m] == y;
                    assert(s[m + 1] == y);
                }
            }
        }
    } else if s.len() > 0 {
        assert forall|y: (u32, SuggestionView)| #[trigger]
            insert_ranked(s, x).contains(y) implies s.contains(y) || y == x by {
            let k = choose|k: int| 0 <= k < insert_ranked(s, x).len() && insert_ranked(s, x)[k] == y;
            if k > 0 {
                assert(s[k - 1] == y);
            }
        }
    } else {
        assert forall|y: (u32, SuggestionView)| #[trigger]
            insert_ranked(s, x).contains(y) implies s.contains(y) || y == x by {
            let k = choose|k: int| 0 <= k < insert_ranked(s, x).len() && insert_ranked(s, x)[k] == y;
        }
    }
}

pub proof fn lemma_sort_ranked_members(s: Seq<(u32, SuggestionView)>)
    ensures
        sort_ranked(s).len() == s.len(),
        forall|y: (u32, SuggestionView)| #[trigger] sort_ranked(s).contains(y) ==> s.contains(y),
    decreases s.len(),
{
    if s.len() > 0 {
        let t = s.drop_last();
        lemma_sort_ranked_members(t);
        lemma_insert_ranked_members(sort_ranked(t), s.last());
        assert forall|y: (u32, SuggestionView)| #[trigger] sort_ranked(s).contains(y) implies s.contains(
            y,
        ) by {
            if sort_ranked(t).contains(y) {
                let m = choose|m: int| 0 <= m < t.len() && t[m] == y;
                assert(s[m] == y);
            } else {
                assert(s[s.len() - 1] == y);
            }
        }
    }
}

pub proof fn lemma_scored_members(needle: Seq<char>, items: Seq<SuggestionView>)
    ensures
        scored(needle, items).len() <= items.len(),
        forall|y: (u32, SuggestionView)| #[trigger]
            scored(needle, items).contains(y) ==> items.contains(y.1),
    decreases items.len(),
{
    if items.len() > 0 {
        let t = items.drop_last();
        lemma_scored_members(needle, t);
        assert forall|y: (u32, SuggestionView)| #[trigger]
            scored(needle, items).contains(y) implies items.contains(y.1) by {
            let r = scored(needle, t);
            let k = choose|k: int| 0 <= k < scored(needle, items).len() && scored(needle, items)[k] == y;
            if k < r.len() {
                assert(r[k] == y);
                assert(r.contains(y));
                let m = choose|m: int| 0 <= m < t.len() && t[m] == y.1;
                assert(items[m] == y.1);
            } else {
                assert(items[items.len() - 1] == y.1);
            }
        }
    }
}

/// Every suggestion `spec_rank` makes is one of the items offered, and
/// there are at most `MAX_SUGGESTIONS` of them.
pub proof fn lemma_rank_members(needle: Seq<char>, items: Seq<SuggestionView>)
    ensures
        spec_rank(needle, items).len() <= MAX_SUGGESTIONS,
        spec_rank(needle, items).len() <= items.len(),
        forall|k: int|
            0 <= k < spec_rank(needle, items).len() ==> items.contains(
                #[trigger] spec_rank(needle, items)[k],
            ),
{
    let sc = scored(needle, items);
    let so = sort_ranked(sc);
    lemma_scored_members(needle, items);
    lemma_sort_ranked_members(sc);
    assert forall|k: int| 0 <= k < spec_rank(needle, items).len() implies items.contains(
        #[trigger] spec_rank(needle, items)[k],
    ) by {
        assert(so.contains(so[k]));
        assert(sc.contains(so[k]));
    }
}

fn str_lt(a: &String, b: &String) -> (r: bool)
    ensures
        r == lex_lt(a@, b@),
{
    let va = to_chars(a.as_str());
    let vb = to_chars(b.as_str());
    chars_lt(&va, &vb)
}

/// Whether the entry `(sa, a)` ranks before `(sb, b)`.
fn before(sa: u32, a: &Suggestion, sb: u32, b: &Suggestion) -> (r: bool)
    ensures
        r == ranks_before((sa, a@), (sb, b@)),
{
    sa > sb || (sa == sb && str_lt(&a.label, &b.label))
}

/// The items matching `needle`, best first, at most `MAX_SUGGESTIONS`.
fn rank(matcher: &mut Matcher, needle: &str, items: Vec<Suggestion>) -> (r: Vec<Suggestion>)
    ensures
        suggestion_views(r@) == spec_rank(needle@, suggestion_views(items@)),
{
    let ghost iv = suggestion_views(items@);
    // The ranked entries so far, as two parallel vectors.
    let mut scores: Vec<u32> = Vec::new();
    let mut ranked: Vec<Suggestion> = Vec::new();
    let n = items.len();
    // Move the items out, reversed, so that popping yields them in order.
    let mut items = items;
    let mut rev: Vec<Suggestion> = Vec::new();
    while items.len() > 0
        invariant
            n == iv.len(),
            rev@.len() + items@.len() == n,
            forall|k: int| 0 <= k < items@.len() ==> (#[trigger] items@[k])@ == iv[k],
            forall|k: int| 0 <= k < rev@.len() ==> (#[trigger] rev@[k])@ == iv[n - 1 - k],
        decreases items@.len(),
    {
        let x = items.pop().unwrap();
        rev.push(x);
    }
    let mut i: usize = 0;
    while i < n
        invariant
            i <= n,
            n == iv.len(),
            rev@.len() == n - i,
            forall|k: int| 0 <= k < n - i ==> (#[trigger] rev@[k])@ == iv[n - 1 - k],
            scores@.len() == ranked@.len(),
            Seq::new(scores@.len(), |k: int| (scores@[k], ranked@[k]@)) == sort_ranked(
                scored(needle@, iv.take(i as int)),
            ),
        decreases n - i,
    {
        let item = rev.pop().unwrap();
        assert(item@ == iv[i as int]);
        let ghost prev = Seq::new(scores@.len(), |k: int| (scores@[k], ranked@[k]@));
        assert(iv.take(i + 1).drop_last() =~= iv.take(i as int));
        assert(iv.take(i + 1).last() == iv[i as int]);
        let got = score(matcher, needle, item.label.as_str());
        match got {
            Some(sc) => {
                let mut p: usize = 0;
                while p < ranked.len() && !before(sc, &item, scores[p], &ranked[p])
                    invariant
                        p <= ranked@.len(),
                        scores@.len() == ranked@.len(),
                        prev == Seq::new(scores@.len(), |k: int| (scores@[k], ranked@[k]@)),
                        forall|j: int| 0 <= j < p ==> !ranks_before((sc, item@), #[trigger] prev[j]),
                    decreases ranked@.len() - p,
                {
                    p = p + 1;
                }
                proof {
                    lemma_insert_ranked_at(prev, (sc, item@), p as int);
                }
                scores.insert(p, sc);
                ranked.insert(p, item);
                assert(Seq::new(scores@.len(), |k: int| (scores@[k], ranked@[k]@)) =~= prev.take(
                    p as int,
                ) + seq![(sc, iv[i as int])] + prev.skip(p as int));
                assert(scored(needle@, iv.take(i + 1)) == scored(needle@, iv.take(i as int)).push(
                    (sc, iv[i as int]),
                ));
                assert(scored(needle@, iv.take(i + 1)).drop_last() =~= scored(
                    needle@,
                    iv.take(i as int),
                ));
            },
            None => {
                assert(scored(needle@, iv.take(i + 1)) == scored(needle@, iv.take(i as int)));
            },
        }
        i = i + 1;
    }
    assert(iv.take(n as int) =~= iv);
    ranked.truncate(MAX_SUGGESTIONS);
    assert(suggestion_views(ranked@) =~= spec_rank(needle@, iv));
    ranked
}

// ---------------------------------------------------------------------------
// Items
// ---------------------------------------------------------------------------

/// The suggestion for a command name: usage and help as detail; the
/// completion leaves room for the argument when the command takes one.
pub open spec fn command_item_view(spec: CommandSpec) -> SuggestionView {
    SuggestionView {
        label: spec.name@,
        detail: if spec.usage@.len() == 0 {
            spec.help@
        } else {
            spec.usage@ + "  "@ + spec.help@
        },
        completion: if spec.arg == ArgKind::NoArg {
            spec.name@
        } else {
            spec.name@ + " "@
        },
    }
}

pub open spec fn command_items() -> Seq<SuggestionView> {
    spec_commands().map_values(|c: CommandSpec| command_item_view(c))
}

/// The suggestion for an argument value `v` of the command `name`.
pub open spec fn arg_item_view(name: Seq<char>, v: Seq<char>) -> SuggestionView {
    SuggestionView { label: v, detail: Seq::empty(), completion: name + " "@ + v }
}

pub open spec fn arg_items(name: Seq<char>, values: Seq<Seq<char>>) -> Seq<SuggestionView> {
    values.map_values(|v: Seq<char>| arg_item_view(name, v))
}

fn command_item(spec: &CommandSpec) -> (s: Suggestion)
    ensures
        s@ == command_item_view(*spec),
{
    let usage = to_chars(spec.usage);
    let detail = if usage.len() == 0 {
        to_string(spec.help)
    } else {
        let mut d: Vec<char> = Vec::new();
        push_str(&mut d, spec.usage);
        push_str(&mut d, "  ");
        push_str(&mut d, spec.help);
        from_chars(&d)
    };
    let completion = if spec.arg == ArgKind::NoArg {
        to_string(spec.name)
    } else {
        let mut c: Vec<char> = Vec::new();
        push_str(&mut c, spec.name);
        push_str(&mut c, " ");
        from_chars(&c)
    };
    Suggestion { label: to_string(spec.name), detail, completion }
}

fn all_command_items() -> (r: Vec<Suggestion>)
    ensures
        suggestion_views(r@) == command_items(),
{
    let specs = commands();
    let mut r: Vec<Suggestion> = Vec::new();
    let mut i: usize = 0;
    while i < specs.len()
        invariant
            i <= specs@.len(),
            specs@ == spec_commands(),
            r@.len() == i,
            forall|j: int| 0 <= j < i ==> (#[trigger] r@[j])@ == command_items()[j],
        decreases specs@.len() - i,
    {
        let s = command_item(&specs[i]);
        r.push(s);
        i = i + 1;
    }
    assert(suggestion_views(r@) =~= command_items());
    r
}

fn arg_item(name: &str, v: &String) -> (s: Suggestion)
    ensures
        s@ == arg_item_view(name@, v@),
{
    let mut c: Vec<char> = Vec::new();
    push_str(&mut c, name);
    push_str(&mut c, " ");
    push_str(&mut c, v.as_str());
    Suggestion { label: v.clone(), detail: String::new(), completion: from_chars(&c) }
}

fn all_arg_items(name: &str, values: &Vec<String>) -> (r: Vec<Suggestion>)
    ensures
        suggestion_views(r@) == arg_items(name@, views(values@)),
{
    let mut r: Vec<Suggestion> = Vec::new();
    let mut i: usize = 0;
    while i < values.len()
        invariant
            i <= values@.len(),
            r@.len() == i,
            forall|j: int| 0 <= j < i ==> (#[trigger] r@[j])@ == arg_items(name@, views(values@))[j],
        decreases values@.len() - i,
    {
        let s = arg_item(name, &values[i]);
        r.push(s);
        i = i + 1;
    }
    assert(suggestion_views(r@) =~= arg_items(name@, views(values@)));
    r
}

// ---------------------------------------------------------------------------
// What each edit does, on the view
// ---------------------------------------------------------------------------

/// The stage and suggestions for `input`: command names until the first
/// blank, then candidate values of the named command (none if it is not a
/// command).
pub open spec fn spec_refresh(input: Seq<char>, themes: Seq<Seq<char>>, languages: Seq<Seq<char>>) -> (
    Stage,
    Seq<SuggestionView>,
) {
    let split = split_first_blank(trim_start(input));
    match split.1 {
        None => (Stage::Command, spec_rank(split.0, command_items())),
        Some(rest) => match spec_find(split.0) {
            None => (Stage::Command, Seq::empty()),
            Some(i) => {
                let spec = spec_commands()[i];
                (
                    Stage::Arg(spec.arg),
                    spec_rank(
                        trim_start(rest),
                        arg_items(spec.name@, spec_candidates(spec.arg, themes, languages)),
                    ),
                )
            },
        },
    }
}

/// `v` with its suggestions recomputed for its input, the first selected.
pub open spec fn refreshed(v: CommandLineView, themes: Seq<Seq<char>>, languages: Seq<Seq<char>>) -> CommandLineView {
    let r = spec_refresh(v.input, themes, languages);
    CommandLineView { stage: r.0, suggestions: r.1, selected: 0, ..v }
}

/// The highlighted suggestion, if any.
pub open spec fn spec_selected(v: CommandLineView) -> Option<SuggestionView> {
    if v.selected < v.suggestions.len() {
        Some(v.suggestions[v.selected as int])
    } else {
        None
    }
}

/// Tab: the input becomes the highlighted completion (when it differs).
pub open spec fn spec_accept(v: CommandLineView, themes: Seq<Seq<char>>, languages: Seq<Seq<char>>) -> (
    CommandLineView,
    bool,
) {
    match spec_selected(v) {
        None => (v, false),
        Some(s) => if s.completion == v.input {
            (v, false)
        } else {
            (
                refreshed(
                    (CommandLineView { input: s.completion, cursor: s.completion.len(), ..v }),
                    themes,
                    languages,
                ),
                true,
            )
        },
    }
}

/// Completing an argument whose value must be one of the candidates.
pub open spec fn constrained(stage: Stage) -> bool {
    match stage {
        Stage::Arg(kind) => !kind.spec_accepts_free_text(),
        Stage::Command => false,
    }
}

pub open spec fn opt_view(r: Option<String>) -> Option<Seq<char>> {
    match r {
        Some(s) => Some(s@),
        None => None,
    }
}

/// Enter: the line to run, and the palette after.
pub open spec fn spec_submit(v: CommandLineView, themes: Seq<Seq<char>>, languages: Seq<Seq<char>>) -> (
    CommandLineView,
    Option<Seq<char>>,
) {
    let sel = spec_selected(v);
    if v.stage == Stage::Command && sel is Some {
        let spec = spec_commands()[spec_find(sel.unwrap().label).unwrap()];
        if spec.requires_arg {
            (spec_accept(v, themes, languages).0, None)
        } else {
            (v, Some(spec.name@))
        }
    } else if trim(v.input).len() == 0 {
        (v, None)
    } else if constrained(v.stage) && sel is Some {
        (v, Some(sel.unwrap().completion))
    } else {
        (v, Some(trim(v.input)))
    }
}

/// Index reached by moving left from `i` over spaces.
pub open spec fn back_over_spaces(s: Seq<char>, i: int) -> int
    decreases i,
{
    if i > 0 && i <= s.len() && s[i - 1] == ' ' {
        back_over_spaces(s, i - 1)
    } else {
        i
    }
}

/// Index reached by moving left from `i` over non-spaces.
pub open spec fn back_over_word(s: Seq<char>, i: int) -> int
    decreases i,
{
    if i > 0 && i <= s.len() && s[i - 1] != ' ' {
        back_over_word(s, i - 1)
    } else {
        i
    }
}

/// Where a word deletion from `cursor` stops: back over spaces, then over
/// the word before them.
pub open spec fn word_start(s: Seq<char>, cursor: int) -> int {
    back_over_word(s, back_over_spaces(s, cursor))
}

pub proof fn lemma_back_bounds(s: Seq<char>, i: int)
    requires
        0 <= i <= s.len(),
    ensures
        0 <= back_over_spaces(s, i) <= i,
        0 <= back_over_word(s, i) <= i,
    decreases i,
{
    if i > 0 {
        lemma_back_bounds(s, i - 1);
    }
}

impl CommandLine {
    /// The invariant every method keeps: the cursor is inside the input,
    /// the selection inside the suggestions (or 0 when there are none),
    /// at most `MAX_SUGGESTIONS` of them, and while completing command
    /// names each suggestion names a command.
    pub closed spec fn wf(&self) -> bool {
        &&& self.cursor <= self.input@.len()
        &&& self.selected == 0 || self.selected < self.suggestions@.len()
        &&& self.suggestions@.len() <= MAX_SUGGESTIONS
        &&& self.stage == Stage::Command ==> forall|k: int|
            0 <= k < self.suggestions@.len() ==> (#[trigger] spec_find(self.suggestions@[k].label@)) is Some
    }

    pub fn new() -> (r: Self)
        ensures
            r.wf(),
            r@.input.len() == 0,
            r@.cursor == 0,
            r@.selected == 0,
            r@.suggestions.len() == 0,
            r@.message is None,
            r@.stage == Stage::Command,
    {
        CommandLine {
            input: String::new(),
            cursor: 0,
            selected: 0,
            suggestions: Vec::new(),
            message: None,
            stage: Stage::Command,
            matcher: new_matcher(),
        }
    }

    /// What is being completed.
    pub fn stage(&self) -> (r: Stage)
        ensures
            r == self@.stage,
    {
        self.stage
    }

    proof fn lemma_command_items_named()
        ensures
            forall|k: int|
                0 <= k < command_items().len() ==> (#[trigger] spec_find(command_items()[k].label)) is Some,
    {
        assert forall|k: int| 0 <= k < command_items().len() implies (#[trigger] spec_find(
            command_items()[k].label,
        )) is Some by {
            lemma_find_reaches(command_items()[k].label, 0, k);
        }
    }

    /// Recomputes stage and suggestions for the current input.
    fn refresh(&mut self, comps: &Completions)
        requires
            old(self).cursor <= old(self).input@.len(),
        ensures
            final(self).wf(),
            final(self)@ == refreshed(old(self)@, views(comps.themes@), views(comps.languages@)),
    {
        self.selected = 0;
        let chars = to_chars(self.input.as_str());
        let t = trim_start_chars(&chars);
        let (head, rest) = split_first_blank_chars(&t);
        match rest {
            None => {
                self.stage = Stage::Command;
                let items = all_command_items();
                let h = from_chars(&head);
                let r = rank(&mut self.matcher, h.as_str(), items);
                proof {
                    lemma_rank_members(h@, command_items());
                    Self::lemma_command_items_named();
                    assert forall|k: int| 0 <= k < r@.len() implies (#[trigger] spec_find(
                        r@[k].label@,
                    )) is Some by {
                        assert(suggestion_views(r@)[k] == r@[k]@);
                        assert(command_items().contains(suggestion_views(r@)[k]));
                        let m = choose|m: int|
                            0 <= m < command_items().len() && command_items()[m] == suggestion_views(
                                r@,
                            )[k];
                        assert(command_items()[m].label == r@[k].label@);
                        assert(spec_find(command_items()[m].label) is Some);
                    }
                }
                self.suggestions = r;
            },
            Some(r) => {
                match find_index(&head) {
                    None => {
                        self.stage = Stage::Command;
                        self.suggestions = Vec::new();
                        assert(suggestion_views(self.suggestions@) =~= Seq::<SuggestionView>::empty());
                    },
                    Some(i) => {
                        let spec = &commands()[i];
                        self.stage = Stage::Arg(spec.arg);
                        let values = arg_candidates(spec.arg, comps.themes.as_slice(), comps.languages.as_slice());
                        let items = all_arg_items(spec.name, &values);
                        let a = from_chars(&trim_start_chars(&r));
                        let ranked = rank(&mut self.matcher, a.as_str(), items);
                        proof {
                            lemma_rank_members(a@, arg_items(spec.name@, views(values@)));
                        }
                        self.suggestions = ranked;
                    },
                }
            },
        }
    }

    pub fn open(&mut self, comps: &Completions)
        requires
            old(self).wf(),
        ensures
            final(self).wf(),
            final(self)@ == refreshed(
                (CommandLineView { input: Seq::empty(), cursor: 0, message: None, ..old(self)@ }),
                views(comps.themes@),
                views(comps.languages@),
            ),
    {
        self.input = String::new();
        self.cursor = 0;
        self.message = None;
        self.refresh(comps);
    }

    pub fn clear(&mut self)
        requires
            old(self).wf(),
        ensures
            final(self).wf(),
            final(self)@ == (CommandLineView {
                input: Seq::empty(),
                cursor: 0,
                suggestions: Seq::empty(),
                selected: 0,
                ..old(self)@
            }),
    {
        self.input = String::new();
        self.cursor = 0;
        self.suggestions = Vec::new();
        self.selected = 0;
        assert(suggestion_views(self.suggestions@) =~= Seq::<SuggestionView>::empty());
    }

    /// Inserts `c` at the cursor and moves past it.
    pub fn insert(&mut self, c: char, comps: &Completions)
        requires
            old(self).wf(),
            old(self)@.input.len() < usize::MAX,
        ensures
            final(self).wf(),
            final(self)@ == refreshed(
                (CommandLineView {
                    input: old(self)@.input.insert(old(self)@.cursor as int, c),
                    cursor: old(self)@.cursor + 1,
                    ..old(self)@
                }),
                views(comps.themes@),
                views(comps.languages@),
            ),
    {
        let mut chars = to_chars(self.input.as_str());
        chars.insert(self.cursor, c);
        self.input = from_chars(&chars);
        self.cursor = self.cursor + 1;
        self.refresh(comps);
    }

    /// Deletes the character before the cursor; false (and nothing changes)
    /// at the start of the line.
    pub fn backspace(&mut self, comps: &Completions) -> (r: bool)
        requires
            old(self).wf(),
        ensures
            final(self).wf(),
            r == (old(self)@.cursor > 0),
            !r ==> final(self)@ == old(self)@,
            r ==> final(self)@ == refreshed(
                (CommandLineView {
                    input: old(self)@.input.remove(old(self)@.cursor - 1),
                    cursor: (old(self)@.cursor - 1) as nat,
                    ..old(self)@
                }),
                views(comps.themes@),
                views(comps.languages@),
            ),
    {
        if self.cursor == 0 {
            return false;
        }
        let mut chars = to_chars(self.input.as_str());
        chars.remove(self.cursor - 1);
        self.input = from_chars(&chars);
        self.cursor = self.cursor - 1;
        self.refresh(comps);
        true
    }

    /// Deletes back from the cursor over spaces and then one word.
    pub fn delete_word(&mut self, comps: &Completions)
        requires
            old(self).wf(),
        ensures
            final(self).wf(),
            final(self)@ == refreshed(
                (CommandLineView {
                    input: old(self)@.input.take(word_start(old(self)@.input, old(self)@.cursor as int))
                        + old(self)@.input.skip(old(self)@.cursor as int),
                    cursor: word_start(old(self)@.input, old(self)@.cursor as int) as nat,
                    ..old(self)@
                }),
                views(comps.themes@),
                views(comps.languages@),
            ),
    {
        let chars = to_chars(self.input.as_str());
        let ghost s = chars@;
        let cur = self.cursor;
        let mut i = cur;
        while i > 0 && chars[i - 1] == ' '
            invariant
                s == chars@,
                i <= cur <= chars@.len(),
                back_over_spaces(s, cur as int) == back_over_spaces(s, i as int),
            decreases i,
        {
            i = i - 1;
        }
        let ghost j0 = i;
        while i > 0 && chars[i - 1] != ' '
            invariant
                s == chars@,
                i <= j0 <= chars@.len(),
                j0 == back_over_spaces(s, cur as int),
                back_over_word(s, j0 as int) == back_over_word(s, i as int),
            decreases i,
        {
            i = i - 1;
        }
        let mut out: Vec<char> = Vec::new();
        let mut k: usize = 0;
        while k < i
            invariant
                s == chars@,
                k <= i <= chars@.len(),
                out@ == s.take(k as int),
            decreases i - k,
        {
            out.push(chars[k]);
            k = k + 1;
            assert(out@ =~= s.take(k as int));
        }
        let mut k = cur;
        while k < chars.len()
            invariant
                s == chars@,
                i <= cur <= k <= chars@.len(),
                out@ == s.take(i as int) + s.subrange(cur as int, k as int),
            decreases chars@.len() - k,
        {
            out.push(chars[k]);
            k = k + 1;
            assert(out@ =~= s.take(i as int) + s.subrange(cur as int, k as int));
        }
        assert(out@ =~= s.take(i as int) + s.skip(self.cursor as int));
        self.input = from_chars(&out);
        self.cursor = i;
        self.refresh(comps);
    }

    pub fn move_left(&mut self)
        requires
            old(self).wf(),
        ensures
            final(self).wf(),
            final(self)@ == (CommandLineView {
                cursor: if old(self)@.cursor > 0 {
                    (old(self)@.cursor - 1) as nat
                } else {
                    0
                },
                ..old(self)@
            }),
    {
        if self.cursor > 0 {
            self.cursor = self.cursor - 1;
        }
    }

    pub fn move_right(&mut self)
        requires
            old(self).wf(),
        ensures
            final(self).wf(),
            final(self)@ == (CommandLineView {
                cursor: if old(self)@.cursor < old(self)@.input.len() {
                    old(self)@.cursor + 1
                } else {
                    old(self)@.input.len()
                },
                ..old(self)@
            }),
    {
        let n = to_chars(self.input.as_str()).len();
        if self.cursor < n {
            self.cursor = self.cursor + 1;
        } else {
            self.cursor = n;
        }
    }

    pub fn move_home(&mut self)
        requires
            old(self).wf(),
        ensures
            final(self).wf(),
            final(self)@ == (CommandLineView { cursor: 0, ..old(self)@ }),
    {
        self.cursor = 0;
    }

    pub fn move_end(&mut self)
        requires
            old(self).wf(),
        ensures
            final(self).wf(),
            final(self)@ == (CommandLineView { cursor: old(self)@.input.len(), ..old(self)@ }),
    {
        self.cursor = to_chars(self.input.as_str()).len();
    }

    /// Moves the highlight down, wrapping at the end.
    pub fn select_next(&mut self)
        requires
            old(self).wf(),
        ensures
            final(self).wf(),
            final(self)@ == (CommandLineView {
                selected: if old(self)@.suggestions.len() == 0 {
                    old(self)@.selected
                } else {
                    (old(self)@.selected + 1) % old(self)@.suggestions.len()
                },
                ..old(self)@
            }),
    {
        if self.suggestions.len() > 0 {
            self.selected = (self.selected + 1) % self.suggestions.len();
        }
    }

    /// Moves the highlight up, wrapping at the start.
    pub fn select_prev(&mut self)
        requires
            old(self).wf(),
        ensures
            final(self).wf(),
            final(self)@ == (CommandLineView {
                selected: if old(self)@.suggestions.len() == 0 {
                    old(self)@.selected
                } else {
                    ((old(self)@.selected + old(self)@.suggestions.len() - 1) % (old(
                        self,
                    )@.suggestions.len() as int)) as nat
                },
                ..old(self)@
            }),
    {
        if self.suggestions.len() > 0 {
            self.selected = (self.selected + self.suggestions.len() - 1) % self.suggestions.len();
        }
    }

    /// The highlighted suggestion.
    pub fn selected(&self) -> (r: Option<&Suggestion>)
        ensures
            r is Some <==> spec_selected(self@) is Some,
            r matches Some(s) ==> s@ == spec_selected(self@).unwrap(),
    {
        if self.selected < self.suggestions.len() {
            Some(&self.suggestions[self.selected])
        } else {
            None
        }
    }

    /// Tab: replace the input with the selected suggestion's completion.
    /// Returns true if something changed.
    pub fn accept(&mut self, comps: &Completions) -> (r: bool)
        requires
            old(self).wf(),
        ensures
            final(self).wf(),
            (final(self)@, r) == spec_accept(old(self)@, views(comps.themes@), views(comps.languages@)),
    {
        let completion = match self.selected() {
            None => {
                return false;
            },
            Some(s) => s.completion.clone(),
        };
        let cur = to_chars(self.input.as_str());
        let comp = to_chars(completion.as_str());
        if chars_eq(&comp, &cur) {
            return false;
        }
        self.input = completion;
        self.cursor = comp.len();
        self.refresh(comps);
        true
    }

    /// Enter: the line to execute. If a command needing an argument is
    /// selected but no argument typed, completes instead and returns `None`.
    pub fn submit(&mut self, comps: &Completions) -> (r: Option<String>)
        requires
            old(self).wf(),
        ensures
            final(self).wf(),
            final(self)@ == spec_submit(old(self)@, views(comps.themes@), views(comps.languages@)).0,
            opt_view(r) == spec_submit(old(self)@, views(comps.themes@), views(comps.languages@)).1,
    {
        let stage = self.stage;
        if stage == Stage::Command && self.selected < self.suggestions.len() {
            let label = to_chars(self.suggestions[self.selected].label.as_str());
            assert(spec_find(self.suggestions@[self.selected as int]@.label) is Some);
            let i = find_index(&label).unwrap();
            let spec = &commands()[i];
            if spec.requires_arg {
                self.accept(comps);
                return None;
            }
            return Some(to_string(spec.name));
        }
        let line = trim_chars(&to_chars(self.input.as_str()));
        if line.len() == 0 {
            return None;
        }
        if let Stage::Arg(kind) = stage {
            if self.selected < self.suggestions.len() && !kind.accepts_free_text() {
                return Some(self.suggestions[self.selected].completion.clone());
            }
        }
        Some(from_chars(&line))
    }

    /// The theme name the user is hovering in a `theme ...` completion, so the
    /// UI can preview it live.
    pub fn preview_theme(&self) -> (r: Option<&str>)
        ensures
            r is Some <==> (self@.stage == Stage::Arg(ArgKind::Themes) && spec_selected(self@) is Some),
            r matches Some(t) ==> t@ == spec_selected(self@).unwrap().label,
    {
        match self.stage {
            Stage::Arg(ArgKind::Themes) => match self.selected() {
                Some(s) => Some(s.label.as_str()),
                None => None,
            },
            _ => None,
        }
    }
}

impl Default for CommandLine {
    fn default() -> (r: Self)
        ensures
            r.wf(),
            r@.input.len() == 0,
            r@.cursor == 0,
            r@.selected == 0,
            r@.suggestions.len() == 0,
            r@.message is None,
            r@.stage == Stage::Command,
    {
        Self::new()
    }
}

/// A name that command `k` answers to is found, at `k` or before.
pub proof fn lemma_find_reaches(name: Seq<char>, i: int, k: int)
    requires
        0 <= i <= k < spec_commands().len(),
        spec_commands()[k].name@ == name,
    ensures
        find_from(name, i) is Some,
    decreases k - i,
{
    if !super::spec_names(spec_commands()[i], name) {
        lemma_find_reaches(name, i + 1, k);
    }
}


/// Ranked entries: no entry ranks before one listed ahead of it.
pub open spec fn sorted_ranked(s: Seq<(u32, SuggestionView)>) -> bool {
    forall|i: int, j: int| 0 <= i < j < s.len() ==> !ranks_before(#[trigger] s[j], #[trigger] s[i])
}

proof fn lemma_ranks_before_transitive(a: (u32, SuggestionView), b: (u32, SuggestionView), c: (u32, SuggestionView))
    requires
        ranks_before(a, b),
        ranks_before(b, c),
    ensures
        ranks_before(a, c),
{
    if a.0 == b.0 && b.0 == c.0 {
        crate::text::lemma_lex_transitive(a.1.label, b.1.label, c.1.label);
    }
}

proof fn lemma_insert_ranked_sorted(s: Seq<(u32, SuggestionView)>, x: (u32, SuggestionView))
    requires
        sorted_ranked(s),
    ensures
        sorted_ranked(insert_ranked(s, x)),
    decreases s.len(),
{
    lemma_insert_ranked_members(s, x);
    if s.len() == 0 {
    } else if ranks_before(x, s[0]) {
        let r = seq![x] + s;
        assert forall|i: int, j: int| 0 <= i < j < r.len() implies !ranks_before(
            #[trigger] r[j],
            #[trigger] r[i],
        ) by {
            if i == 0 {
                assert(r[j] == s[j - 1]);
                if ranks_before(s[j - 1], x) {
                    lemma_ranks_before_transitive(s[j - 1], x, s[0]);
                    if j - 1 > 0 {
                        assert(!ranks_before(s[j - 1], s[0]));
                    } else {
                        lemma_ranks_irreflexive(s[0]);
                    }
                }
            } else {
                assert(r[i] == s[i - 1] && r[j] == s[j - 1]);
            }
        }
    } else {
        let t = s.drop_first();
        assert forall|i: int, j: int| 0 <= i < j < t.len() implies !ranks_before(
            #[trigger] t[j],
            #[trigger] t[i],
        ) by {
            assert(t[i] == s[i + 1] && t[j] == s[j + 1]);
        }
        lemma_insert_ranked_sorted(t, x);
        lemma_insert_ranked_members(t, x);
        let q = insert_ranked(t, x);
        let r = seq![s[0]] + q;
        assert forall|i: int, j: int| 0 <= i < j < r.len() implies !ranks_before(
            #[trigger] r[j],
            #[trigger] r[i],
        ) by {
            if i == 0 {
                assert(r[j] == q[j - 1]);
                assert(q.contains(q[j - 1]));
                if q[j - 1] != x {
                    assert(t.contains(q[j - 1]));
                    let m = choose|m: int| 0 <= m < t.len() && t[m] == q[j - 1];
                    assert(s[m + 1] == t[m]);
                }
            } else {
                assert(r[i] == q[i - 1] && r[j] == q[j - 1]);
            }
        }
    }
}

proof fn lemma_ranks_irreflexive(a: (u32, SuggestionView))
    ensures
        !ranks_before(a, a),
{
    crate::text::lemma_lex_irreflexive(a.1.label);
}

/// The palette lists suggestions best first: higher scores ahead, ties
/// by label.
pub proof fn law_ranked_best_first(s: Seq<(u32, SuggestionView)>)
    ensures
        sorted_ranked(sort_ranked(s)),
    decreases s.len(),
{
    if s.len() > 0 {
        law_ranked_best_first(s.drop_last());
        lemma_insert_ranked_sorted(sort_ranked(s.drop_last()), s.last());
    }
}

} // verus!
