//! Themes: a small set of named color roles. Built-ins ship with the
//! library; user themes (read from TOML files by the application) are added
//! on top and override built-ins with the same name.

use vstd::prelude::*;

use crate::registry::{Catalog, Named};
use crate::text::{to_chars, to_string};

verus! {

#[derive(Debug, Clone, PartialEq, Eq)]
pub enum ThemeError {
    /// The theme file is not valid TOML for a theme (the parser's message).
    Parse(String),
    /// A color is not `#rrggbb`.
    Color(String),
}

/// A `#rrggbb` color.
#[derive(Debug, Clone, Copy, PartialEq, Eq, Structural)]
pub struct Hex(pub u8, pub u8, pub u8);

/// Color roles. Everything in the UI maps onto one of these.
#[derive(Debug, Clone, Copy, PartialEq, Eq, Structural)]
pub struct Colors {
    /// Screen background.
    pub bg: Hex,
    /// Primary text (headings, results numbers).
    pub fg: Hex,
    /// Dimmed UI: untyped words, mode line, help.
    pub sub: Hex,
    /// Accent: caret, timer, selected item, brand.
    pub main: Hex,
    /// Correctly typed characters.
    pub correct: Hex,
    /// Incorrectly typed characters.
    pub error: Hex,
    /// Characters typed past the end of a word.
    pub error_extra: Hex,
}

#[derive(Debug, Clone, PartialEq, Eq)]
pub struct Theme {
    pub name: String,
    pub colors: Colors,
}

/// The value of a hexadecimal digit.
pub open spec fn hex_digit(c: char) -> Option<nat> {
    if '0' <= c && c <= '9' {
        Some((c as int - 48) as nat)
    } else if 'a' <= c && c <= 'f' {
        Some((c as int - 87) as nat)
    } else if 'A' <= c && c <= 'F' {
        Some((c as int - 55) as nat)
    } else {
        None
    }
}

/// A two-character field as std's `u8::from_str_radix(_, 16)` reads it: two
/// digits, or a `+` sign and one digit.
pub open spec fn hex_pair(a: char, b: char) -> Option<u8> {
    if a == '+' {
        match hex_digit(b) {
            Some(v) => Some(v as u8),
            None => None,
        }
    } else {
        match (hex_digit(a), hex_digit(b)) {
            (Some(x), Some(y)) => Some((16 * x + y) as u8),
            _ => None,
        }
    }
}

/// What `Hex::parse` accepts: six ASCII characters, optionally after a
/// `#`, read as three two-character fields.
pub open spec fn spec_hex(s: Seq<char>) -> Option<Hex> {
    let h = if s.len() > 0 && s[0] == '#' {
        s.drop_first()
    } else {
        s
    };
    if h.len() != 6 || !(forall|i: int| 0 <= i < h.len() ==> #[trigger] h[i] < '\u{80}') {
        None
    } else {
        match (hex_pair(h[0], h[1]), hex_pair(h[2], h[3]), hex_pair(h[4], h[5])) {
            (Some(r), Some(g), Some(b)) => Some(Hex(r, g, b)),
            _ => None,
        }
    }
}

fn hex_digit_exec(c: char) -> (r: Option<u8>)
    ensures
        r matches Some(v) ==> hex_digit(c) == Some(v as nat),
        r is None ==> hex_digit(c) is None,
{
    if '0' <= c && c <= '9' {
        Some((c as u32 - 48) as u8)
    } else if 'a' <= c && c <= 'f' {
        Some((c as u32 - 87) as u8)
    } else if 'A' <= c && c <= 'F' {
        Some((c as u32 - 55) as u8)
    } else {
        None
    }
}

fn hex_pair_exec(a: char, b: char) -> (r: Option<u8>)
    ensures
        r == hex_pair(a, b),
{
    if a == '+' {
        hex_digit_exec(b)
    } else {
        match (hex_digit_exec(a), hex_digit_exec(b)) {
            (Some(x), Some(y)) => Some(16 * x + y),
            _ => None,
        }
    }
}

impl Hex {
    /// Parses `#rrggbb` (the `#` is optional).
    pub fn parse(s: &str) -> (r: Result<Self, ThemeError>)
        ensures
            r is Ok <==> spec_hex(s@) is Some,
            r matches Ok(h) ==> h == spec_hex(s@).unwrap(),
            r matches Err(e) ==> e matches ThemeError::Color(m) && m@ == s@,
    {
        let all = to_chars(s);
        let start: usize = if all.len() > 0 && all[0] == '#' {
            1
        } else {
            0
        };
        let h = crate::text::slice_chars(&all, start, all.len());
        assert(h@ =~= (if s@.len() > 0 && s@[0] == '#' {
            s@.drop_first()
        } else {
            s@
        }));
        if h.len() != 6 {
            return Err(ThemeError::Color(to_string(s)));
        }
        let mut i: usize = 0;
        while i < 6
            invariant
                i <= 6,
                h@.len() == 6,
                h@ == (if s@.len() > 0 && s@[0] == '#' {
                    s@.drop_first()
                } else {
                    s@
                }),
                forall|j: int| 0 <= j < i ==> #[trigger] h@[j] < '\u{80}',
            decreases 6 - i,
        {
            if h[i] >= '\u{80}' {
                assert(!(h@[i as int] < '\u{80}'));
                return Err(ThemeError::Color(to_string(s)));
            }
            i = i + 1;
        }
        match (hex_pair_exec(h[0], h[1]), hex_pair_exec(h[2], h[3]), hex_pair_exec(h[4], h[5])) {
            (Some(r), Some(g), Some(b)) => Ok(Hex(r, g, b)),
            _ => Err(ThemeError::Color(to_string(s))),
        }
    }
}

/// The colours seven `#rrggbb` texts name (in the order bg, fg, sub,
/// main, correct, error, error_extra), or the first text that is not one.
pub open spec fn spec_colors_from(
    bg: Seq<char>,
    fg: Seq<char>,
    sub: Seq<char>,
    main: Seq<char>,
    correct: Seq<char>,
    error: Seq<char>,
    error_extra: Seq<char>,
) -> Result<Colors, Seq<char>> {
    if spec_hex(bg) is None {
        Err(bg)
    } else if spec_hex(fg) is None {
        Err(fg)
    } else if spec_hex(sub) is None {
        Err(sub)
    } else if spec_hex(main) is None {
        Err(main)
    } else if spec_hex(correct) is None {
        Err(correct)
    } else if spec_hex(error) is None {
        Err(error)
    } else if spec_hex(error_extra) is None {
        Err(error_extra)
    } else {
        Ok(
            Colors {
                bg: spec_hex(bg).unwrap(),
                fg: spec_hex(fg).unwrap(),
                sub: spec_hex(sub).unwrap(),
                main: spec_hex(main).unwrap(),
                correct: spec_hex(correct).unwrap(),
                error: spec_hex(error).unwrap(),
                error_extra: spec_hex(error_extra).unwrap(),
            },
        )
    }
}

impl Colors {
    /// The colours of a theme file, read from their `#rrggbb` texts; the
    /// first text that is not a colour is the error.
    pub fn from_texts(
        bg: &str,
        fg: &str,
        sub: &str,
        main: &str,
        correct: &str,
        error: &str,
        error_extra: &str,
    ) -> (r: Result<Colors, ThemeError>)
        ensures
            r is Ok <==> spec_colors_from(bg@, fg@, sub@, main@, correct@, error@, error_extra@) is Ok,
            r matches Ok(c) ==> c == spec_colors_from(
                bg@,
                fg@,
                sub@,
                main@,
                correct@,
                error@,
                error_extra@,
            )->Ok_0,
            r matches Err(e) ==> e matches ThemeError::Color(m) && m@ == spec_colors_from(
                bg@,
                fg@,
                sub@,
                main@,
                correct@,
                error@,
                error_extra@,
            )->Err_0,
    {
        let bg = match Hex::parse(bg) {
            Ok(h) => h,
            Err(e) => return Err(e),
        };
        let fg = match Hex::parse(fg) {
            Ok(h) => h,
            Err(e) => return Err(e),
        };
        let sub = match Hex::parse(sub) {
            Ok(h) => h,
            Err(e) => return Err(e),
        };
        let main = match Hex::parse(main) {
            Ok(h) => h,
            Err(e) => return Err(e),
        };
        let correct = match Hex::parse(correct) {
            Ok(h) => h,
            Err(e) => return Err(e),
        };
        let error = match Hex::parse(error) {
            Ok(h) => h,
            Err(e) => return Err(e),
        };
        let error_extra = match Hex::parse(error_extra) {
            Ok(h) => h,
            Err(e) => return Err(e),
        };
        Ok(Colors { bg, fg, sub, main, correct, error, error_extra })
    }
}

/// A theme with its name as characters.
pub struct ThemeView {
    pub name: Seq<char>,
    pub colors: Colors,
}

impl View for Theme {
    type V = ThemeView;

    open spec fn view(&self) -> ThemeView {
        ThemeView { name: self.name@, colors: self.colors }
    }
}

impl Named for Theme {
    open spec fn key(&self) -> Seq<char> {
        self.name@
    }

    fn name_chars(&self) -> (r: Vec<char>) {
        to_chars(self.name.as_str())
    }
}

/// All known themes, keyed by name.
pub struct ThemeRegistry {
    themes: Catalog<Theme>,
}

impl View for ThemeRegistry {
    type V = Map<Seq<char>, Theme>;

    closed spec fn view(&self) -> Map<Seq<char>, Theme> {
        self.themes.view()
    }
}

fn hex(r: u8, g: u8, b: u8) -> (h: Hex)
    ensures
        h == Hex(r, g, b),
{
    Hex(r, g, b)
}

fn theme(name: &str, bg: Hex, fg: Hex, sub: Hex, main: Hex, correct: Hex, error: Hex, extra: Hex) -> (t: Theme)
    ensures
        t.name@ == name@,
        t.colors == (Colors { bg, fg, sub, main, correct, error, error_extra: extra }),
{
    Theme {
        name: to_string(name),
        colors: Colors { bg, fg, sub, main, correct, error, error_extra: extra },
    }
}

/// The names of the built-in themes.
pub open spec fn builtin_theme_names() -> Set<Seq<char>> {
    set!["default"@, "gruvbox"@, "catppuccin-mocha"@, "nord"@, "rose-pine"@, "light"@]
}

/// The colours of the built-in theme `name` (the last one for any other
/// name).
pub open spec fn builtin_colors(name: Seq<char>) -> Colors {
    if name == "default"@ {
        Colors { bg: Hex(0x32, 0x34, 0x37), fg: Hex(0xd1, 0xd0, 0xc5), sub: Hex(0x64, 0x66, 0x69), main: Hex(0xe2, 0xb7, 0x14), correct: Hex(0xd1, 0xd0, 0xc5), error: Hex(0xca, 0x47, 0x54), error_extra: Hex(0x7e, 0x2a, 0x33) }
    } else if name == "gruvbox"@ {
        Colors { bg: Hex(0x28, 0x28, 0x28), fg: Hex(0xeb, 0xdb, 0xb2), sub: Hex(0x66, 0x5c, 0x54), main: Hex(0xd7, 0x99, 0x21), correct: Hex(0xeb, 0xdb, 0xb2), error: Hex(0xfb, 0x49, 0x34), error_extra: Hex(0xcc, 0x24, 0x1d) }
    } else if name == "catppuccin-mocha"@ {
        Colors { bg: Hex(0x1e, 0x1e, 0x2e), fg: Hex(0xcd, 0xd6, 0xf4), sub: Hex(0x6c, 0x70, 0x86), main: Hex(0xcb, 0xa6, 0xf7), correct: Hex(0xcd, 0xd6, 0xf4), error: Hex(0xf3, 0x8b, 0xa8), error_extra: Hex(0xeb, 0xa0, 0xac) }
    } else if name == "nord"@ {
        Colors { bg: Hex(0x2e, 0x34, 0x40), fg: Hex(0xec, 0xef, 0xf4), sub: Hex(0x4c, 0x56, 0x6a), main: Hex(0x88, 0xc0, 0xd0), correct: Hex(0xd8, 0xde, 0xe9), error: Hex(0xbf, 0x61, 0x6a), error_extra: Hex(0xd0, 0x87, 0x70) }
    } else if name == "rose-pine"@ {
        Colors { bg: Hex(0x19, 0x17, 0x24), fg: Hex(0xe0, 0xde, 0xf4), sub: Hex(0x6e, 0x6a, 0x86), main: Hex(0xeb, 0xbc, 0xba), correct: Hex(0xe0, 0xde, 0xf4), error: Hex(0xeb, 0x6f, 0x92), error_extra: Hex(0xf6, 0xc1, 0x77) }
    } else {
        Colors { bg: Hex(0xf5, 0xf5, 0xf5), fg: Hex(0x2c, 0x2c, 0x2c), sub: Hex(0x9a, 0x9a, 0x9a), main: Hex(0x00, 0x77, 0xcc), correct: Hex(0x2c, 0x2c, 0x2c), error: Hex(0xd3, 0x2f, 0x2f), error_extra: Hex(0xb7, 0x1c, 0x1c) }
    }
}

impl ThemeRegistry {
    pub closed spec fn wf(&self) -> bool {
        self.themes.wf()
    }

    /// An empty registry.
    pub fn new() -> (r: Self)
        ensures
            r.wf(),
            r@ == Map::<Seq<char>, Theme>::empty(),
    {
        ThemeRegistry { themes: Catalog::new() }
    }

    /// Built-ins only.
    pub fn builtin() -> (r: Self)
        ensures
            r.wf(),
            r@.dom() == builtin_theme_names(),
            forall|k: Seq<char>|
                #[trigger] builtin_theme_names().contains(k) ==> r@[k]@ == (ThemeView {
                    name: k,
                    colors: builtin_colors(k),
                }),
    {
        proof {
            reveal_strlit("default");
            reveal_strlit("gruvbox");
            reveal_strlit("catppuccin-mocha");
            reveal_strlit("nord");
            reveal_strlit("rose-pine");
            reveal_strlit("light");
            assert("default"@[0] == 'd');
            assert("gruvbox"@[0] == 'g');
            assert("catppuccin-mocha"@[0] == 'c');
            assert("nord"@[0] == 'n');
            assert("rose-pine"@[0] == 'r');
            assert("light"@[0] == 'l');
        }
        let mut reg = Self::new();
        reg.insert(
            theme(
                "default",
                hex(0x32, 0x34, 0x37),
                hex(0xd1, 0xd0, 0xc5),
                hex(0x64, 0x66, 0x69),
                hex(0xe2, 0xb7, 0x14),
                hex(0xd1, 0xd0, 0xc5),
                hex(0xca, 0x47, 0x54),
                hex(0x7e, 0x2a, 0x33),
            ),
        );
        assert(reg@["default"@]@ == (ThemeView { name: "default"@, colors: builtin_colors("default"@) }));
        reg.insert(
            theme(
                "gruvbox",
                hex(0x28, 0x28, 0x28),
                hex(0xeb, 0xdb, 0xb2),
                hex(0x66, 0x5c, 0x54),
                hex(0xd7, 0x99, 0x21),
                hex(0xeb, 0xdb, 0xb2),
                hex(0xfb, 0x49, 0x34),
                hex(0xcc, 0x24, 0x1d),
            ),
        );
        assert(reg@["gruvbox"@]@ == (ThemeView { name: "gruvbox"@, colors: builtin_colors("gruvbox"@) }));
        reg.insert(
            theme(
                "catppuccin-mocha",
                hex(0x1e, 0x1e, 0x2e),
                hex(0xcd, 0xd6, 0xf4),
                hex(0x6c, 0x70, 0x86),
                hex(0xcb, 0xa6, 0xf7),
                hex(0xcd, 0xd6, 0xf4),
                hex(0xf3, 0x8b, 0xa8),
                hex(0xeb, 0xa0, 0xac),
            ),
        );
        assert(reg@["catppuccin-mocha"@]@ == (ThemeView { name: "catppuccin-mocha"@, colors: builtin_colors("catppuccin-mocha"@) }));
        reg.insert(
            theme(
                "nord",
                hex(0x2e, 0x34, 0x40),
                hex(0xec, 0xef, 0xf4),
                hex(0x4c, 0x56, 0x6a),
                hex(0x88, 0xc0, 0xd0),
                hex(0xd8, 0xde, 0xe9),
                hex(0xbf, 0x61, 0x6a),
                hex(0xd0, 0x87, 0x70),
            ),
        );
        assert(reg@["nord"@]@ == (ThemeView { name: "nord"@, colors: builtin_colors("nord"@) }));
        reg.insert(
            theme(
                "rose-pine",
                hex(0x19, 0x17, 0x24),
                hex(0xe0, 0xde, 0xf4),
                hex(0x6e, 0x6a, 0x86),
                hex(0xeb, 0xbc, 0xba),
                hex(0xe0, 0xde, 0xf4),
                hex(0xeb, 0x6f, 0x92),
                hex(0xf6, 0xc1, 0x77),
            ),
        );
        assert(reg@["rose-pine"@]@ == (ThemeView { name: "rose-pine"@, colors: builtin_colors("rose-pine"@) }));
        reg.insert(
            theme(
                "light",
                hex(0xf5, 0xf5, 0xf5),
                hex(0x2c, 0x2c, 0x2c),
                hex(0x9a, 0x9a, 0x9a),
                hex(0x00, 0x77, 0xcc),
                hex(0x2c, 0x2c, 0x2c),
                hex(0xd3, 0x2f, 0x2f),
                hex(0xb7, 0x1c, 0x1c),
            ),
        );
        assert(reg@["light"@]@ == (ThemeView { name: "light"@, colors: builtin_colors("light"@) }));
        assert(reg@.dom() =~= builtin_theme_names());
        reg
    }

    /// Adds `theme`, replacing a theme of the same name.
    pub fn insert(&mut self, theme: Theme)
        requires
            old(self).wf(),
        ensures
            final(self).wf(),
            final(self)@ == old(self)@.insert(theme.name@, theme),
            final(self)@.dom().finite(),
            final(self)@.dom().len() == old(self)@.dom().len() + if old(self)@.contains_key(theme.name@) {
                0int
            } else {
                1int
            },
    {
        self.themes.insert(theme);
    }

    pub fn get(&self, name: &str) -> (r: Option<&Theme>)
        requires
            self.wf(),
        ensures
            r is Some <==> self@.contains_key(name@),
            r matches Some(t) ==> *t == self@[name@],
    {
        self.themes.get(name)
    }

    /// `name` if present, otherwise `default`.
    pub fn get_or_default(&self, name: &str) -> (t: &Theme)
        requires
            self.wf(),
            self@.contains_key(name@) || self@.contains_key("default"@),
        ensures
            *t == if self@.contains_key(name@) {
                self@[name@]
            } else {
                self@["default"@]
            },
    {
        match self.themes.get(name) {
            Some(t) => t,
            None => self.themes.get("default").unwrap(),
        }
    }

    /// The theme names, sorted.
    pub fn names(&self) -> (r: Vec<String>)
        requires
            self.wf(),
        ensures
            r@.len() == self@.dom().len(),
            forall|i: int| 0 <= i < r@.len() ==> self@.contains_key(#[trigger] r@[i]@),
            forall|i: int, j: int| 0 <= i < j < r@.len() ==> crate::text::lex_lt(#[trigger] r@[i]@, #[trigger] r@[j]@),
    {
        let keys = self.themes.keys();
        let n = self.themes.len();
        let mut r: Vec<String> = Vec::new();
        let mut i: usize = 0;
        while i < keys.len()
            invariant
                i <= keys@.len(),
                r@.len() == i,
                forall|j: int| 0 <= j < i ==> (#[trigger] r@[j])@ == keys@[j]@,
            decreases keys@.len() - i,
        {
            r.push(crate::text::from_chars(&keys[i]));
            i = i + 1;
        }
        proof {
            assert forall|j: int| 0 <= j < r@.len() implies self@.contains_key(#[trigger] r@[j]@) by {
                crate::registry::lemma_at_key_index(self.themes.items(), j);
            }
        }
        r
    }

    pub fn len(&self) -> (n: usize)
        requires
            self.wf(),
        ensures
            n == self@.dom().len(),
    {
        self.themes.len()
    }

    pub fn is_empty(&self) -> (b: bool)
        requires
            self.wf(),
        ensures
            b == (self@.dom().len() == 0),
    {
        self.themes.len() == 0
    }
}

} // verus!
