//! Turning the `font` setting into font data. Lookup order: a file path,
//! a file in the config `fonts/` dir, a bundled font, then an installed
//! family via fontconfig. The file-system and fontconfig queries are made
//! by the application; the name rules live here.

use vstd::prelude::*;

use crate::text::{concat, from_chars, push_all, push_str, to_chars};

verus! {

/// File extensions tried for a bare name in the fonts directory.
pub const EXTENSIONS: [&'static str; 3] = ["ttf", "otf", "ttc"];

/// Names of the fonts the application bundles, in lookup order.
pub open spec fn bundled_names() -> Seq<Seq<char>> {
    seq![
        "JetBrains Mono"@,
        "Fira Code"@,
        "Source Code Pro"@,
        "IBM Plex Mono"@,
        "Cascadia Code"@,
        "Roboto Mono"@,
        "Ubuntu Mono"@,
    ]
}

/// Names of the fonts the application bundles, in lookup order.
pub fn bundled_fonts() -> (r: Vec<&'static str>)
    ensures
        r@.len() == bundled_names().len(),
        forall|i: int| 0 <= i < r@.len() ==> (#[trigger] r@[i])@ == bundled_names()[i],
{
    let r = vec![
        "JetBrains Mono",
        "Fira Code",
        "Source Code Pro",
        "IBM Plex Mono",
        "Cascadia Code",
        "Roboto Mono",
        "Ubuntu Mono",
    ];
    assert(r@.len() == 7);
    r
}

/// What std's `char::to_lowercase` yields for `c` (Unicode's lowercase
/// mapping, one or more characters).
pub uninterp spec fn lowercase_of(c: char) -> Seq<char>;

/// std `char::to_lowercase`, collected. The result is claimed to be the
/// named lowercase mapping of `c`.
#[verifier::external_body]
fn char_lowercase(c: char) -> (r: Vec<char>)
    ensures
        r@ == lowercase_of(c),
{
    c.to_lowercase().collect()
}

/// Characters that do not count when comparing family names.
pub open spec fn ignored(c: char) -> bool {
    crate::text::is_ws(c) || c == '-' || c == '_'
}

/// A family name for comparison: blanks, `-` and `_` dropped, lowercased.
pub open spec fn normalized(s: Seq<char>) -> Seq<char>
    decreases s.len(),
{
    if s.len() == 0 {
        Seq::empty()
    } else {
        normalized(s.drop_last()) + if ignored(s.last()) {
            Seq::empty()
        } else {
            lowercase_of(s.last())
        }
    }
}

/// `s` with blanks, `-` and `_` dropped, lowercased.
pub fn normalize(s: &Vec<char>) -> (r: Vec<char>)
    ensures
        r@ == normalized(s@),
{
    let mut r: Vec<char> = Vec::new();
    let mut i: usize = 0;
    while i < s.len()
        invariant
            i <= s@.len(),
            r@ == normalized(s@.take(i as int)),
        decreases s@.len() - i,
    {
        let c = s[i];
        if !(crate::text::is_whitespace(c) || c == '-' || c == '_') {
            let low = char_lowercase(c);
            push_all(&mut r, &low);
        }
        proof {
            assert(s@.take(i + 1).drop_last() =~= s@.take(i as int));
            assert(s@.take(i + 1).last() == c);
        }
        i = i + 1;
    }
    assert(s@.take(s@.len() as int) =~= s@);
    r
}

/// The comma-separated fields of `s` (std `split(',')`): always at least one.
pub open spec fn fields(s: Seq<char>) -> Seq<Seq<char>>
    decreases s.len(),
{
    if s.len() == 0 {
        seq![Seq::empty()]
    } else {
        let f = fields(s.drop_last());
        if s.last() == ',' {
            f.push(Seq::empty())
        } else {
            f.update(f.len() - 1, f.last().push(s.last()))
        }
    }
}

proof fn lemma_fields_nonempty(s: Seq<char>)
    ensures
        fields(s).len() >= 1,
    decreases s.len(),
{
    if s.len() > 0 {
        lemma_fields_nonempty(s.drop_last());
    }
}

/// Splits at every comma.
pub fn split_commas(s: &Vec<char>) -> (r: Vec<Vec<char>>)
    ensures
        r@.len() == fields(s@).len(),
        forall|i: int| 0 <= i < r@.len() ==> (#[trigger] r@[i])@ == fields(s@)[i],
{
    let mut done: Vec<Vec<char>> = Vec::new();
    let mut cur: Vec<char> = Vec::new();
    let mut i: usize = 0;
    while i < s.len()
        invariant
            i <= s@.len(),
            fields(s@.take(i as int)).len() == done@.len() + 1,
            forall|j: int| 0 <= j < done@.len() ==> (#[trigger] done@[j])@ == fields(
                s@.take(i as int),
            )[j],
            cur@ == fields(s@.take(i as int)).last(),
        decreases s@.len() - i,
    {
        proof {
            lemma_fields_nonempty(s@.take(i as int));
            assert(s@.take(i + 1).drop_last() =~= s@.take(i as int));
            assert(s@.take(i + 1).last() == s@[i as int]);
        }
        if s[i] == ',' {
            let piece = cur;
            done.push(piece);
            cur = Vec::new();
        } else {
            cur.push(s[i]);
        }
        i = i + 1;
    }
    assert(s@.take(s@.len() as int) =~= s@);
    done.push(cur);
    done
}

/// Whether the comma-separated `families` fontconfig reported include
/// `spec`, ignoring case, blanks, `-` and `_`.
pub open spec fn spec_family_matches(spec: Seq<char>, families: Seq<char>) -> bool {
    exists|i: int|
        0 <= i < fields(families).len() && normalized(#[trigger] fields(families)[i]) == normalized(
            spec,
        )
}

pub fn family_matches(spec: &str, families: &str) -> (b: bool)
    ensures
        b == spec_family_matches(spec@, families@),
{
    let want = normalize(&to_chars(spec));
    let fams = split_commas(&to_chars(families));
    let mut i: usize = 0;
    while i < fams.len()
        invariant
            i <= fams@.len(),
            fams@.len() == fields(families@).len(),
            forall|j: int| 0 <= j < fams@.len() ==> (#[trigger] fams@[j])@ == fields(families@)[j],
            want@ == normalized(spec@),
            forall|j: int| 0 <= j < i ==> normalized(#[trigger] fields(families@)[j]) != want@,
        decreases fams@.len() - i,
    {
        let f = normalize(&fams[i]);
        if crate::text::chars_eq(&f, &want) {
            return true;
        }
        i = i + 1;
    }
    false
}

/// The bundled font `name` refers to: the first whose normalized name
/// equals `name`'s.
pub fn bundled(name: &str) -> (r: Option<&'static str>)
    ensures
        r is Some <==> exists|i: int|
            0 <= i < bundled_names().len() && normalized(#[trigger] bundled_names()[i])
                == normalized(name@),
        r matches Some(n) ==> exists|i: int|
            0 <= i < bundled_names().len() && n@ == bundled_names()[i] && normalized(
                bundled_names()[i],
            ) == normalized(name@) && forall|j: int|
                0 <= j < i ==> normalized(#[trigger] bundled_names()[j]) != normalized(name@),
{
    let want = normalize(&to_chars(name));
    let names = bundled_fonts();
    let mut i: usize = 0;
    while i < names.len()
        invariant
            i <= names@.len(),
            names@.len() == bundled_names().len(),
            forall|j: int| 0 <= j < names@.len() ==> (#[trigger] names@[j])@ == bundled_names()[j],
            want@ == normalized(name@),
            forall|j: int| 0 <= j < i ==> normalized(#[trigger] bundled_names()[j]) != want@,
        decreases names@.len() - i,
    {
        let n = normalize(&to_chars(names[i]));
        if crate::text::chars_eq(&n, &want) {
            assert(normalized(bundled_names()[i as int]) == normalized(name@));
            return Some(names[i]);
        }
        i = i + 1;
    }
    None
}

/// File names tried in the fonts directory for a bare name: the name
/// itself, then with each of `EXTENSIONS`.
pub open spec fn spec_candidates(spec: Seq<char>) -> Seq<Seq<char>> {
    seq![spec, spec + "."@ + "ttf"@, spec + "."@ + "otf"@, spec + "."@ + "ttc"@]
}

pub fn file_candidates(spec: &str) -> (r: Vec<String>)
    ensures
        r@.len() == 4,
        forall|i: int| 0 <= i < 4 ==> (#[trigger] r@[i])@ == spec_candidates(spec@)[i],
{
    let s = to_chars(spec);
    let mut r: Vec<String> = Vec::new();
    r.push(from_chars(&s));
    let mut i: usize = 0;
    while i < 3
        invariant
            i <= 3,
            s@ == spec@,
            r@.len() == 1 + i,
            r@[0]@ == spec@,
            forall|j: int| 1 <= j < 1 + i ==> (#[trigger] r@[j])@ == spec_candidates(spec@)[j],
        decreases 3 - i,
    {
        let mut t = s.clone();
        push_str(&mut t, ".");
        push_str(&mut t, EXTENSIONS[i]);
        r.push(from_chars(&t));
        i = i + 1;
    }
    r
}

/// fontconfig always answers with some font; its answer is taken only when
/// `spec` is a full pattern (contains `:`) or names one of the reported
/// families.
pub open spec fn spec_accept_match(spec: Seq<char>, families: Seq<char>) -> bool {
    spec.contains(':') || spec_family_matches(spec, families)
}

pub fn accept_match(spec: &str, families: &str) -> (b: bool)
    ensures
        b == spec_accept_match(spec@, families@),
{
    crate::text::contains_char(&to_chars(spec), ':') || family_matches(spec, families)
}

/// Where resolving a `font` setting stands: the outside check it asks
/// for next, or what it settled on.
#[derive(Debug, Clone, Copy, PartialEq, Eq)]
pub enum FontStep {
    /// The setting is empty: ask fontconfig for a monospace font.
    AskMonospace,
    /// Check whether the setting, as a path, names a file.
    CheckPath,
    /// Check whether candidate `i` of `file_candidates` is a file in the
    /// fonts directory.
    CheckCandidate(usize),
    /// Ask fontconfig for the setting.
    AskFontconfig,
    /// Use the file the last check found (or fontconfig's answer).
    UseFile,
    /// Use the bundled font of this name.
    UseBundled(&'static str),
    /// Nothing fits: the font was not found.
    NotFound,
}

/// `name` is the bundled font a setting `spec` refers to: the first whose
/// normalized name equals the setting's.
pub open spec fn is_bundled_choice(spec: Seq<char>, name: Seq<char>) -> bool {
    exists|i: int|
        0 <= i < bundled_names().len() && name == bundled_names()[i] && normalized(bundled_names()[i])
            == normalized(spec) && forall|j: int|
            0 <= j < i ==> normalized(#[trigger] bundled_names()[j]) != normalized(spec)
}

/// Some bundled font answers to the setting `spec`.
pub open spec fn names_bundled(spec: Seq<char>) -> bool {
    exists|i: int| 0 <= i < bundled_names().len() && normalized(#[trigger] bundled_names()[i]) == normalized(spec)
}

/// The step after the path and every fonts-directory candidate failed: a
/// bundled font the setting names, else fontconfig.
pub open spec fn after_files(spec: Seq<char>, r: FontStep) -> bool {
    if names_bundled(spec) {
        r matches FontStep::UseBundled(n) && is_bundled_choice(spec, n@)
    } else {
        r == FontStep::AskFontconfig
    }
}

/// What resolving the (trimmed) setting `spec` does after `asked` was
/// answered with `found` (for fontconfig, with the `families` of its
/// answer): a file that exists is used; otherwise the path, then each
/// fonts-directory candidate, then a bundled font, then fontconfig's
/// answer (when it names what was asked for) is tried; an empty setting
/// takes fontconfig's monospace font or the first bundled one.
pub open spec fn spec_resolve_next(spec: Seq<char>, asked: FontStep, found: bool, families: Seq<char>, r: FontStep) -> bool {
    match asked {
        FontStep::AskMonospace => if found {
            r == FontStep::UseFile
        } else {
            r matches FontStep::UseBundled(n) && n@ == bundled_names()[0]
        },
        FontStep::CheckPath => if found {
            r == FontStep::UseFile
        } else {
            r == FontStep::CheckCandidate(0)
        },
        FontStep::CheckCandidate(i) => if found {
            r == FontStep::UseFile
        } else if i + 1 < spec_candidates(spec).len() {
            r == FontStep::CheckCandidate((i + 1) as usize)
        } else {
            after_files(spec, r)
        },
        FontStep::AskFontconfig => if found && spec_accept_match(spec, families) {
            r == FontStep::UseFile
        } else {
            r == FontStep::NotFound
        },
        _ => r == asked,
    }
}

/// The first step of resolving the (trimmed) setting `spec`.
pub fn resolve_start(spec: &str) -> (r: FontStep)
    ensures
        r == if spec@.len() == 0 {
            FontStep::AskMonospace
        } else {
            FontStep::CheckPath
        },
{
    if crate::text::to_chars(spec).len() == 0 {
        FontStep::AskMonospace
    } else {
        FontStep::CheckPath
    }
}

/// The step after `asked` was answered: `found` says whether the file
/// checked exists (or fontconfig answered), `families` what fontconfig
/// reported. A settled step stays as it is.
pub fn resolve_next(spec: &str, asked: FontStep, found: bool, families: &str) -> (r: FontStep)
    ensures
        spec_resolve_next(spec@, asked, found, families@, r),
{
    match asked {
        FontStep::AskMonospace => if found {
            FontStep::UseFile
        } else {
            FontStep::UseBundled(bundled_fonts()[0])
        },
        FontStep::CheckPath => if found {
            FontStep::UseFile
        } else {
            FontStep::CheckCandidate(0)
        },
        FontStep::CheckCandidate(i) => if found {
            FontStep::UseFile
        } else if i < 3 {
            FontStep::CheckCandidate(i + 1)
        } else {
            match bundled(spec) {
                Some(n) => FontStep::UseBundled(n),
                None => FontStep::AskFontconfig,
            }
        },
        FontStep::AskFontconfig => if found && accept_match(spec, families) {
            FontStep::UseFile
        } else {
            FontStep::NotFound
        },
        _ => asked,
    }
}

/// The message for a font that was not found.
pub fn not_found(spec: &str) -> (s: String)
    ensures
        s@ == "font `"@ + spec@ + "` not found"@,
{
    crate::text::message("font `", &to_chars(spec), "` not found")
}

} // verus!
