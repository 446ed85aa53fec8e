//! User configuration: every field has a default, and `:set key value`
//! edits any of them. Reading and writing the TOML file happens in the
//! application around this crate.

use vstd::prelude::*;

use crate::test::mode::Mode;
use crate::text::{decimal, eq_str, law_decimal_parses_back, message, parse_bounded, parse_uint, push_decimal, push_str,
    starts_with_str, slice_chars, to_chars, to_string, from_chars};

verus! {

/// Which sections of the results screen are shown.
#[derive(Debug, Clone, Copy, PartialEq, Eq, Structural)]
pub struct ResultsConfig {
    pub chart: bool,
    pub char_breakdown: bool,
    pub consistency: bool,
    pub raw: bool,
}

impl Default for ResultsConfig {
    fn default() -> (r: Self)
        ensures
            r == ResultsConfig::spec_default(),
    {
        ResultsConfig { chart: true, char_breakdown: true, consistency: true, raw: true }
    }
}

/// The section names `:results` accepts.
pub const SECTIONS: [&'static str; 4] = ["chart", "breakdown", "consistency", "raw"];

/// How many zoom levels `:zoom <n>` accepts (`0..ZOOM_LEVELS`).
pub const ZOOM_LEVELS: usize = 5;

impl ResultsConfig {
    pub open spec fn spec_default() -> ResultsConfig {
        ResultsConfig { chart: true, char_breakdown: true, consistency: true, raw: true }
    }

    /// The flag a section name refers to, if it names one.
    pub open spec fn spec_get(self, section: Seq<char>) -> Option<bool> {
        if section == "chart"@ {
            Some(self.chart)
        } else if section == "breakdown"@ || section == "char_breakdown"@ {
            Some(self.char_breakdown)
        } else if section == "consistency"@ {
            Some(self.consistency)
        } else if section == "raw"@ {
            Some(self.raw)
        } else {
            None
        }
    }

    /// The flags after setting `section` to `value`, if it names a section.
    pub open spec fn spec_set(self, section: Seq<char>, value: bool) -> Option<ResultsConfig> {
        if section == "chart"@ {
            Some(ResultsConfig { chart: value, ..self })
        } else if section == "breakdown"@ || section == "char_breakdown"@ {
            Some(ResultsConfig { char_breakdown: value, ..self })
        } else if section == "consistency"@ {
            Some(ResultsConfig { consistency: value, ..self })
        } else if section == "raw"@ {
            Some(ResultsConfig { raw: value, ..self })
        } else {
            None
        }
    }

    pub fn get(&self, section: &str) -> (r: Option<bool>)
        ensures
            r == self.spec_get(section@),
    {
        let s = to_chars(section);
        if eq_str(&s, "chart") {
            Some(self.chart)
        } else if eq_str(&s, "breakdown") || eq_str(&s, "char_breakdown") {
            Some(self.char_breakdown)
        } else if eq_str(&s, "consistency") {
            Some(self.consistency)
        } else if eq_str(&s, "raw") {
            Some(self.raw)
        } else {
            None
        }
    }

    /// Sets a section's flag; `false` (and no change) for an unknown name.
    pub fn set(&mut self, section: &str, value: bool) -> (r: bool)
        ensures
            r == old(self).spec_set(section@, value) is Some,
            r ==> *final(self) == old(self).spec_set(section@, value).unwrap(),
            !r ==> *final(self) == *old(self),
    {
        let s = to_chars(section);
        if eq_str(&s, "chart") {
            self.chart = value;
        } else if eq_str(&s, "breakdown") || eq_str(&s, "char_breakdown") {
            self.char_breakdown = value;
        } else if eq_str(&s, "consistency") {
            self.consistency = value;
        } else if eq_str(&s, "raw") {
            self.raw = value;
        } else {
            return false;
        }
        true
    }
}

/// How font sizes above 1 are drawn.
#[derive(Debug, Clone, Copy, PartialEq, Eq, Structural)]
pub enum Graphics {
    /// Real font images when the terminal is known to support them.
    Auto,
    /// Always use the kitty graphics protocol.
    Kitty,
    /// Always use block characters.
    Off,
}

impl Default for Graphics {
    fn default() -> (g: Self)
        ensures
            g == Graphics::Auto,
    {
        Graphics::Auto
    }
}

/// The names `graphics` takes.
pub const GRAPHICS_NAMES: [&'static str; 3] = ["auto", "kitty", "off"];

impl Graphics {
    pub open spec fn spec_parse(s: Seq<char>) -> Result<Graphics, Seq<char>> {
        if s == "auto"@ {
            Ok(Graphics::Auto)
        } else if s == "kitty"@ || s == "on"@ {
            Ok(Graphics::Kitty)
        } else if s == "off"@ || s == "blocks"@ {
            Ok(Graphics::Off)
        } else {
            Err("expected auto, kitty or off, got `"@ + s + "`"@)
        }
    }

    pub open spec fn spec_label(self) -> Seq<char> {
        match self {
            Graphics::Auto => "auto"@,
            Graphics::Kitty => "kitty"@,
            Graphics::Off => "off"@,
        }
    }

    pub fn parse(s: &str) -> (r: Result<Self, String>)
        ensures
            r is Ok <==> Self::spec_parse(s@) is Ok,
            r matches Ok(g) ==> g == Self::spec_parse(s@)->Ok_0,
            r matches Err(e) ==> e@ == Self::spec_parse(s@)->Err_0,
    {
        let v = to_chars(s);
        if eq_str(&v, "auto") {
            Ok(Graphics::Auto)
        } else if eq_str(&v, "kitty") || eq_str(&v, "on") {
            Ok(Graphics::Kitty)
        } else if eq_str(&v, "off") || eq_str(&v, "blocks") {
            Ok(Graphics::Off)
        } else {
            Err(message("expected auto, kitty or off, got `", &v, "`"))
        }
    }

    pub fn label(self) -> (s: &'static str)
        ensures
            s@ == self.spec_label(),
    {
        match self {
            Graphics::Auto => "auto",
            Graphics::Kitty => "kitty",
            Graphics::Off => "off",
        }
    }
}

pub const FONT_SIZE_RANGE: (u8, u8) = (1, 5);

pub const DEFAULT_FONT_SIZE: u8 = 2;

pub const WORDS_PER_LINE_RANGE: (u8, u8) = (4, 30);

/// The conventional word length used to turn words-per-line into columns.
pub const CHARS_PER_WORD: u16 = 6;

/// Which block characters rasterize the pixel font.
#[derive(Debug, Clone, Copy, PartialEq, Eq, Structural)]
pub enum BlockSet {
    /// 2×3 pixels per cell (Unicode 13 "Symbols for Legacy Computing").
    Sextant,
    /// 1×2 pixels per cell (`▀ ▄ █`), available everywhere.
    Half,
}

impl BlockSet {
    pub open spec fn spec_pixels_per_cell(self) -> (u16, u16) {
        match self {
            BlockSet::Sextant => (2, 3),
            BlockSet::Half => (1, 2),
        }
    }

    pub fn pixels_per_cell(self) -> (r: (u16, u16))
        ensures
            r == self.spec_pixels_per_cell(),
    {
        match self {
            BlockSet::Sextant => (2, 3),
            BlockSet::Half => (1, 2),
        }
    }
}

/// `v` clamped into `lo..=hi`.
pub open spec fn clamp(v: u8, lo: u8, hi: u8) -> u8 {
    if v < lo {
        lo
    } else if v > hi {
        hi
    } else {
        v
    }
}

fn clamp_u8(v: u8, lo: u8, hi: u8) -> (r: u8)
    requires
        lo <= hi,
    ensures
        r == clamp(v, lo, hi),
{
    if v < lo {
        lo
    } else if v > hi {
        hi
    } else {
        v
    }
}

/// How the typing text is drawn. Size 1 is the terminal's own font; the
/// rest rasterize the 4×6 pixel font at increasing scales, so glyphs are
/// 1, 2, 3, 4 and 6 rows tall.
#[derive(Debug, Clone, Copy, PartialEq, Eq, Structural)]
pub struct FontSize(u8);

/// Block set and pixel scale for a font-size level; `None` for native.
pub open spec fn raster_for(level: u8) -> Option<(BlockSet, u16)> {
    if level == 1 {
        None
    } else if level == 2 {
        Some((BlockSet::Sextant, 1))
    } else if level == 3 {
        Some((BlockSet::Half, 1))
    } else if level == 4 {
        Some((BlockSet::Sextant, 2))
    } else {
        Some((BlockSet::Half, 2))
    }
}

/// (columns, rows) one glyph occupies at a font-size level.
pub open spec fn cell_dims_for(level: u8) -> (u16, u16) {
    match raster_for(level) {
        None => (1, 1),
        Some((set, scale)) => {
            let (pw, ph) = set.spec_pixels_per_cell();
            ((4 * scale / (pw as int)) as u16, (6 * scale / (ph as int)) as u16)
        },
    }
}

impl FontSize {
    pub closed spec fn spec_level(self) -> u8 {
        self.0
    }

    /// Sizes always lie in `FONT_SIZE_RANGE`.
    pub open spec fn wf(self) -> bool {
        1 <= self.spec_level() <= 5
    }

    pub open spec fn spec_raster(self) -> Option<(BlockSet, u16)> {
        raster_for(self.spec_level())
    }

    pub open spec fn spec_cell_dims(self) -> (u16, u16) {
        cell_dims_for(self.spec_level())
    }

    pub fn from_level(level: u8) -> (f: Self)
        ensures
            f.spec_level() == clamp(level, 1, 5),
            f.wf(),
    {
        FontSize(clamp_u8(level, FONT_SIZE_RANGE.0, FONT_SIZE_RANGE.1))
    }

    pub fn level(self) -> (l: u8)
        ensures
            l == self.spec_level(),
    {
        self.0
    }

    pub fn is_native(self) -> (b: bool)
        ensures
            b == (self.spec_level() == 1),
    {
        self.0 == 1
    }

    /// Block set and pixel scale for rasterized sizes; `None` for native.
    pub fn raster(self) -> (r: Option<(BlockSet, u16)>)
        ensures
            r == self.spec_raster(),
    {
        match self.0 {
            1 => None,
            2 => Some((BlockSet::Sextant, 1)),
            3 => Some((BlockSet::Half, 1)),
            4 => Some((BlockSet::Sextant, 2)),
            _ => Some((BlockSet::Half, 2)),
        }
    }

    /// (columns, rows) one glyph occupies.
    pub fn cell_dims(self) -> (r: (u16, u16))
        ensures
            r == self.spec_cell_dims(),
            1 <= r.0 <= 8,
            1 <= r.1 <= 6,
    {
        match self.raster() {
            None => (1, 1),
            Some((set, scale)) => {
                let (pw, ph) = set.pixels_per_cell();
                (4 * scale / pw, 6 * scale / ph)
            },
        }
    }
}

#[derive(Debug, Clone, PartialEq, Eq)]
pub struct Config {
    pub theme: String,
    pub language: String,
    pub mode: Mode,
    pub punctuation: bool,
    pub numbers: bool,
    /// Glyph scale for the typing text, see `FontSize`.
    pub font_size: u8,
    /// Width of the word box, in words (× 6 characters per word).
    pub words_per_line: u8,
    /// Words only: hide brand, timer and mode line while typing.
    pub zen: bool,
    /// Font for enlarged text when drawn as images: a family name, a file in
    /// the config `fonts/` dir, or a path. Empty uses the system monospace.
    pub font: String,
    pub graphics: Graphics,
    pub results: ResultsConfig,
}

/// `Config` with its strings as character sequences.
pub struct ConfigView {
    pub theme: Seq<char>,
    pub language: Seq<char>,
    pub mode: Mode,
    pub punctuation: bool,
    pub numbers: bool,
    pub font_size: u8,
    pub words_per_line: u8,
    pub zen: bool,
    pub font: Seq<char>,
    pub graphics: Graphics,
    pub results: ResultsConfig,
}

impl View for Config {
    type V = ConfigView;

    open spec fn view(&self) -> ConfigView {
        ConfigView {
            theme: self.theme@,
            language: self.language@,
            mode: self.mode,
            punctuation: self.punctuation,
            numbers: self.numbers,
            font_size: self.font_size,
            words_per_line: self.words_per_line,
            zen: self.zen,
            font: self.font@,
            graphics: self.graphics,
            results: self.results,
        }
    }
}

/// The boolean spellings settings accept.
pub open spec fn on_off(v: Seq<char>) -> Option<bool> {
    if v == "true"@ || v == "on"@ || v == "yes"@ || v == "1"@ {
        Some(true)
    } else if v == "false"@ || v == "off"@ || v == "no"@ || v == "0"@ {
        Some(false)
    } else {
        None
    }
}

/// The message for a value that is not a boolean.
pub open spec fn on_off_error(v: Seq<char>) -> Seq<char> {
    "expected on/off, got `"@ + v + "`"@
}

/// Parses on/off, true/false, yes/no or 1/0.
pub fn parse_bool(v: &Vec<char>) -> (r: Result<bool, String>)
    ensures
        r is Ok <==> on_off(v@) is Some,
        r matches Ok(b) ==> b == on_off(v@).unwrap(),
        r matches Err(e) ==> e@ == on_off_error(v@),
{
    if eq_str(v, "true") || eq_str(v, "on") || eq_str(v, "yes") || eq_str(v, "1") {
        Ok(true)
    } else if eq_str(v, "false") || eq_str(v, "off") || eq_str(v, "no") || eq_str(v, "0") {
        Ok(false)
    } else {
        Err(message("expected on/off, got `", v, "`"))
    }
}

/// What `parse_range` returns: the number if it lies in `lo..=hi`.
pub open spec fn spec_parse_range(value: Seq<char>, lo: u8, hi: u8) -> Result<u8, Seq<char>> {
    match parse_bounded(value, 255) {
        None => Err(
            "expected a number "@ + decimal(lo as nat) + "-"@ + decimal(hi as nat) + ", got `"@
                + value + "`"@,
        ),
        Some(n) => if n < lo || n > hi {
            Err("must be between "@ + decimal(lo as nat) + " and "@ + decimal(hi as nat))
        } else {
            Ok(n as u8)
        },
    }
}

/// Parse an integer and check it lies in `range` (inclusive).
pub fn parse_range(value: &str, range: (u8, u8)) -> (r: Result<u8, String>)
    ensures
        r is Ok <==> spec_parse_range(value@, range.0, range.1) is Ok,
        r matches Ok(n) ==> n == spec_parse_range(value@, range.0, range.1)->Ok_0,
        r matches Err(e) ==> e@ == spec_parse_range(value@, range.0, range.1)->Err_0,
{
    let v = to_chars(value);
    match parse_uint(&v, 255) {
        None => {
            let mut m: Vec<char> = Vec::new();
            push_str(&mut m, "expected a number ");
            push_decimal(&mut m, range.0 as u64);
            push_str(&mut m, "-");
            push_decimal(&mut m, range.1 as u64);
            push_str(&mut m, ", got `");
            crate::text::push_all(&mut m, &v);
            push_str(&mut m, "`");
            Err(from_chars(&m))
        },
        Some(n) => {
            if n < range.0 as u64 || n > range.1 as u64 {
                let mut m: Vec<char> = Vec::new();
                push_str(&mut m, "must be between ");
                push_decimal(&mut m, range.0 as u64);
                push_str(&mut m, " and ");
                push_decimal(&mut m, range.1 as u64);
                Err(from_chars(&m))
            } else {
                Ok(n as u8)
            }
        },
    }
}

/// What `Config::set` does to the settings, or the message it reports.
pub open spec fn spec_set(c: ConfigView, key: Seq<char>, value: Seq<char>) -> Result<
    ConfigView,
    Seq<char>,
> {
    if key == "theme"@ {
        Ok(ConfigView { theme: value, ..c })
    } else if key == "language"@ || key == "lang"@ {
        Ok(ConfigView { language: value, ..c })
    } else if key == "punctuation"@ || key == "numbers"@ || key == "zen"@ {
        match on_off(value) {
            None => Err(on_off_error(value)),
            Some(b) => Ok(
                if key == "punctuation"@ {
                    ConfigView { punctuation: b, ..c }
                } else if key == "numbers"@ {
                    ConfigView { numbers: b, ..c }
                } else {
                    ConfigView { zen: b, ..c }
                },
            ),
        }
    } else if key == "font"@ {
        Ok(ConfigView { font: value, ..c })
    } else if key == "graphics"@ {
        match Graphics::spec_parse(value) {
            Ok(g) => Ok(ConfigView { graphics: g, ..c }),
            Err(e) => Err(e),
        }
    } else if key == "font_size"@ || key == "fontsize"@ {
        match spec_parse_range(value, 1, 5) {
            Ok(n) => Ok(ConfigView { font_size: n, ..c }),
            Err(e) => Err(e),
        }
    } else if key == "words_per_line"@ || key == "wpl"@ {
        match spec_parse_range(value, 4, 30) {
            Ok(n) => Ok(ConfigView { words_per_line: n, ..c }),
            Err(e) => Err(e),
        }
    } else if key == "time"@ {
        match parse_bounded(value, 0xffff) {
            Some(n) => Ok(ConfigView { mode: Mode::Time(n as u16), ..c }),
            None => Err("bad seconds `"@ + value + "`"@),
        }
    } else if key == "words"@ {
        match parse_bounded(value, 0xffff) {
            Some(n) => Ok(ConfigView { mode: Mode::Words(n as u16), ..c }),
            None => Err("bad count `"@ + value + "`"@),
        }
    } else if key.len() >= 8 && key.take(8) == "results."@ {
        let section = key.skip(8);
        match on_off(value) {
            None => Err(on_off_error(value)),
            Some(b) => match c.results.spec_set(section, b) {
                Some(r) => Ok(ConfigView { results: r, ..c }),
                None => Err("unknown results section `"@ + section + "`"@),
            },
        }
    } else {
        Err("unknown setting `"@ + key + "`"@)
    }
}

impl Config {
    pub open spec fn spec_default() -> ConfigView {
        ConfigView {
            theme: "default"@,
            language: "english"@,
            mode: Mode::Time(30),
            punctuation: false,
            numbers: false,
            font_size: 2,
            words_per_line: 13,
            zen: false,
            font: Seq::empty(),
            graphics: Graphics::Auto,
            results: ResultsConfig::spec_default(),
        }
    }

    pub open spec fn spec_typing_width(self) -> u16 {
        (self.words_per_line * 6 * cell_dims_for(clamp(self.font_size, 1, 5)).0) as u16
    }

    pub open spec fn spec_content_width(self) -> u16 {
        let w = self.words_per_line * 6;
        if w > 80 {
            w as u16
        } else {
            80
        }
    }

    pub fn font_size(&self) -> (f: FontSize)
        ensures
            f.spec_level() == clamp(self.font_size, 1, 5),
            f.wf(),
    {
        FontSize::from_level(self.font_size)
    }

    pub fn set_font_size(&mut self, level: u8)
        ensures
            final(self)@ == (ConfigView { font_size: clamp(level, 1, 5), ..old(self)@ }),
    {
        self.font_size = clamp_u8(level, FONT_SIZE_RANGE.0, FONT_SIZE_RANGE.1);
    }

    pub fn set_words_per_line(&mut self, n: u8)
        ensures
            final(self)@ == (ConfigView { words_per_line: clamp(n, 4, 30), ..old(self)@ }),
    {
        self.words_per_line = clamp_u8(n, WORDS_PER_LINE_RANGE.0, WORDS_PER_LINE_RANGE.1);
    }

    /// Width of the typing box in terminal columns.
    pub fn typing_width(&self) -> (w: u16)
        ensures
            w == self.spec_typing_width(),
    {
        let (gw, _) = self.font_size().cell_dims();
        let w = self.words_per_line as u16 * CHARS_PER_WORD;
        assert(w * gw <= 255 * 6 * 8) by (nonlinear_arith)
            requires
                w <= 255 * 6,
                gw <= 8,
        ;
        w * gw
    }

    /// Width of every other screen: at least room for the results row.
    pub fn content_width(&self) -> (w: u16)
        ensures
            w == self.spec_content_width(),
    {
        let w = self.words_per_line as u16 * CHARS_PER_WORD;
        if w > 80 {
            w
        } else {
            80
        }
    }

    /// Generic `:set key value` escape hatch. Returns an error message for the
    /// user on unknown keys or unparsable values, and then changes nothing.
    pub fn set(&mut self, key: &str, value: &str) -> (r: Result<(), String>)
        ensures
            r is Ok <==> spec_set(old(self)@, key@, value@) is Ok,
            r is Ok ==> final(self)@ == spec_set(old(self)@, key@, value@)->Ok_0,
            r matches Err(e) ==> e@ == spec_set(old(self)@, key@, value@)->Err_0 && *final(self)
                == *old(self),
    {
        let k = to_chars(key);
        let v = to_chars(value);
        if eq_str(&k, "theme") {
            self.theme = to_string(value);
        } else if eq_str(&k, "language") || eq_str(&k, "lang") {
            self.language = to_string(value);
        } else if eq_str(&k, "punctuation") || eq_str(&k, "numbers") || eq_str(&k, "zen") {
            let b = parse_bool(&v)?;
            if eq_str(&k, "punctuation") {
                self.punctuation = b;
            } else if eq_str(&k, "numbers") {
                self.numbers = b;
            } else {
                self.zen = b;
            }
        } else if eq_str(&k, "font") {
            self.font = to_string(value);
        } else if eq_str(&k, "graphics") {
            self.graphics = Graphics::parse(value)?;
        } else if eq_str(&k, "font_size") || eq_str(&k, "fontsize") {
            let n = parse_range(value, FONT_SIZE_RANGE)?;
            self.set_font_size(n);
        } else if eq_str(&k, "words_per_line") || eq_str(&k, "wpl") {
            let n = parse_range(value, WORDS_PER_LINE_RANGE)?;
            self.set_words_per_line(n);
        } else if eq_str(&k, "time") {
            match parse_uint(&v, 0xffff) {
                Some(n) => self.mode = Mode::Time(n as u16),
                None => return Err(message("bad seconds `", &v, "`")),
            }
        } else if eq_str(&k, "words") {
            match parse_uint(&v, 0xffff) {
                Some(n) => self.mode = Mode::Words(n as u16),
                None => return Err(message("bad count `", &v, "`")),
            }
        } else if starts_with_str(&k, "results.") {
            proof {
                reveal_strlit("results.");
            }
            let section = slice_chars(&k, 8, k.len());
            let b = parse_bool(&v)?;
            let sec = from_chars(&section);
            if !self.results.set(sec.as_str(), b) {
                return Err(message("unknown results section `", &section, "`"));
            }
        } else {
            return Err(message("unknown setting `", &k, "`"));
        }
        Ok(())
    }
}

impl Default for Config {
    fn default() -> (c: Self)
        ensures
            c@ == Config::spec_default(),
    {
        Config {
            theme: to_string("default"),
            language: to_string("english"),
            mode: Mode::Time(30),
            punctuation: false,
            numbers: false,
            font_size: DEFAULT_FONT_SIZE,
            words_per_line: 13,
            zen: false,
            font: from_chars(&Vec::new()),
            graphics: Graphics::Auto,
            results: ResultsConfig::default(),
        }
    }
}


/// Reading a section after setting it gives the value set, and setting a
/// section to the value it has changes nothing.
pub proof fn law_results_get_after_set(r: ResultsConfig, section: Seq<char>, value: bool)
    ensures
        r.spec_set(section, value) is Some <==> r.spec_get(section) is Some,
        r.spec_set(section, value) matches Some(n) ==> n.spec_get(section) == Some(value),
        r.spec_get(section) matches Some(cur) ==> r.spec_set(section, cur) == Some(r),
{
}

/// Toggling a results section twice restores the flags.
pub proof fn law_results_toggle_twice(r: ResultsConfig, section: Seq<char>)
    requires
        r.spec_get(section) is Some,
    ensures
        ({
            let cur = r.spec_get(section).unwrap();
            let once = r.spec_set(section, !cur).unwrap();
            once.spec_set(section, !once.spec_get(section).unwrap()) == Some(r)
        }),
{
}

/// `set theme` accepts any name (an unknown one is reported by the app)
/// and changes nothing but the theme.
pub proof fn law_set_theme_only_changes_theme(c: ConfigView, value: Seq<char>)
    ensures
        spec_set(c, "theme"@, value) == Ok::<ConfigView, Seq<char>>(ConfigView { theme: value, ..c }),
{
}


/// The results flags a settings file gives; a missing one keeps its
/// default.
#[derive(Debug, Clone, Copy, Default, PartialEq, Eq, Structural)]
pub struct ResultsPatch {
    pub chart: Option<bool>,
    pub char_breakdown: Option<bool>,
    pub consistency: Option<bool>,
    pub raw: Option<bool>,
}

/// The settings a file gives; every field is optional.
#[derive(Debug, Clone, Default)]
pub struct ConfigPatch {
    pub theme: Option<String>,
    pub language: Option<String>,
    pub mode: Option<Mode>,
    pub punctuation: Option<bool>,
    pub numbers: Option<bool>,
    pub font_size: Option<u8>,
    pub words_per_line: Option<u8>,
    pub zen: Option<bool>,
    pub font: Option<String>,
    pub graphics: Option<Graphics>,
    pub results: Option<ResultsPatch>,
}

pub open spec fn or_default<T>(v: Option<T>, d: T) -> T {
    match v {
        Some(x) => x,
        None => d,
    }
}

pub open spec fn or_default_str(v: Option<String>, d: Seq<char>) -> Seq<char> {
    match v {
        Some(x) => x@,
        None => d,
    }
}

impl ResultsConfig {
    /// The flags a file gives, defaults for the missing ones.
    pub open spec fn spec_from_patch(p: ResultsPatch) -> ResultsConfig {
        let d = ResultsConfig::spec_default();
        ResultsConfig {
            chart: or_default(p.chart, d.chart),
            char_breakdown: or_default(p.char_breakdown, d.char_breakdown),
            consistency: or_default(p.consistency, d.consistency),
            raw: or_default(p.raw, d.raw),
        }
    }

    pub fn from_patch(p: ResultsPatch) -> (r: Self)
        ensures
            r == ResultsConfig::spec_from_patch(p),
    {
        let d = ResultsConfig::default();
        ResultsConfig {
            chart: match p.chart {
                Some(b) => b,
                None => d.chart,
            },
            char_breakdown: match p.char_breakdown {
                Some(b) => b,
                None => d.char_breakdown,
            },
            consistency: match p.consistency {
                Some(b) => b,
                None => d.consistency,
            },
            raw: match p.raw {
                Some(b) => b,
                None => d.raw,
            },
        }
    }
}

impl Config {
    /// The settings a file gives, defaults for the missing ones.
    pub open spec fn spec_from_patch(p: ConfigPatch) -> ConfigView {
        let d = Config::spec_default();
        ConfigView {
            theme: or_default_str(p.theme, d.theme),
            language: or_default_str(p.language, d.language),
            mode: or_default(p.mode, d.mode),
            punctuation: or_default(p.punctuation, d.punctuation),
            numbers: or_default(p.numbers, d.numbers),
            font_size: or_default(p.font_size, d.font_size),
            words_per_line: or_default(p.words_per_line, d.words_per_line),
            zen: or_default(p.zen, d.zen),
            font: or_default_str(p.font, d.font),
            graphics: or_default(p.graphics, d.graphics),
            results: match p.results {
                Some(r) => ResultsConfig::spec_from_patch(r),
                None => d.results,
            },
        }
    }

    /// Settings from a file's fields: every missing one takes its default.
    pub fn from_patch(p: ConfigPatch) -> (c: Self)
        ensures
            c@ == Config::spec_from_patch(p),
    {
        let d = Config::default();
        Config {
            theme: match p.theme {
                Some(s) => s,
                None => d.theme,
            },
            language: match p.language {
                Some(s) => s,
                None => d.language,
            },
            mode: match p.mode {
                Some(m) => m,
                None => d.mode,
            },
            punctuation: match p.punctuation {
                Some(b) => b,
                None => d.punctuation,
            },
            numbers: match p.numbers {
                Some(b) => b,
                None => d.numbers,
            },
            font_size: match p.font_size {
                Some(n) => n,
                None => d.font_size,
            },
            words_per_line: match p.words_per_line {
                Some(n) => n,
                None => d.words_per_line,
            },
            zen: match p.zen {
                Some(b) => b,
                None => d.zen,
            },
            font: match p.font {
                Some(s) => s,
                None => d.font,
            },
            graphics: match p.graphics {
                Some(g) => g,
                None => d.graphics,
            },
            results: match p.results {
                Some(r) => ResultsConfig::from_patch(r),
                None => d.results,
            },
        }
    }
}

impl ResultsConfig {
    /// Every flag, given.
    pub open spec fn spec_to_patch(self) -> ResultsPatch {
        ResultsPatch {
            chart: Some(self.chart),
            char_breakdown: Some(self.char_breakdown),
            consistency: Some(self.consistency),
            raw: Some(self.raw),
        }
    }

    /// The flags as a file writes them: every one given.
    pub fn to_patch(&self) -> (p: ResultsPatch)
        ensures
            p == self.spec_to_patch(),
    {
        ResultsPatch {
            chart: Some(self.chart),
            char_breakdown: Some(self.char_breakdown),
            consistency: Some(self.consistency),
            raw: Some(self.raw),
        }
    }
}

/// `p` gives every setting, with the values of `c`.
pub open spec fn patch_of(p: ConfigPatch, c: ConfigView) -> bool {
    &&& p.theme matches Some(t) && t@ == c.theme
    &&& p.language matches Some(l) && l@ == c.language
    &&& p.mode == Some(c.mode)
    &&& p.punctuation == Some(c.punctuation)
    &&& p.numbers == Some(c.numbers)
    &&& p.font_size == Some(c.font_size)
    &&& p.words_per_line == Some(c.words_per_line)
    &&& p.zen == Some(c.zen)
    &&& p.font matches Some(f) && f@ == c.font
    &&& p.graphics == Some(c.graphics)
    &&& p.results == Some(c.results.spec_to_patch())
}

impl Config {
    /// The settings as a file writes them: every field given.
    pub fn to_patch(&self) -> (p: ConfigPatch)
        ensures
            patch_of(p, self@),
    {
        ConfigPatch {
            theme: Some(self.theme.clone()),
            language: Some(self.language.clone()),
            mode: Some(self.mode),
            punctuation: Some(self.punctuation),
            numbers: Some(self.numbers),
            font_size: Some(self.font_size),
            words_per_line: Some(self.words_per_line),
            zen: Some(self.zen),
            font: Some(self.font.clone()),
            graphics: Some(self.graphics),
            results: Some(self.results.to_patch()),
        }
    }
}

/// Writing the settings out and reading them back gives the same
/// settings.
pub proof fn law_patch_round_trip(p: ConfigPatch, c: ConfigView)
    requires
        patch_of(p, c),
    ensures
        Config::spec_from_patch(p) == c,
{
}

/// `set time N` and `set words N` choose the mode the key names, with the
/// number given, and change nothing else: the same number under the two
/// keys gives a timed test and a word-count test.
pub proof fn law_set_mode_follows_key(c: ConfigView, n: u16)
    ensures
        spec_set(c, "time"@, decimal(n as nat)) == Ok::<ConfigView, Seq<char>>(
            ConfigView { mode: Mode::Time(n), ..c },
        ),
        spec_set(c, "words"@, decimal(n as nat)) == Ok::<ConfigView, Seq<char>>(
            ConfigView { mode: Mode::Words(n), ..c },
        ),
{
    law_decimal_parses_back(n as nat, 0xffff);
    reveal_strlit("time");
    reveal_strlit("words");
    reveal_strlit("theme");
    reveal_strlit("language");
    reveal_strlit("lang");
    reveal_strlit("punctuation");
    reveal_strlit("numbers");
    reveal_strlit("zen");
    reveal_strlit("font");
    reveal_strlit("graphics");
    reveal_strlit("font_size");
    reveal_strlit("fontsize");
    reveal_strlit("words_per_line");
    reveal_strlit("wpl");
    assert("time"@ != "theme"@ && "time"@ != "zen"@ && "time"@ != "wpl"@ && "time"@ != "words"@) by {
        assert("time"@.len() == 4);
        assert("time"@[1] == 'i');
    }
    assert("time"@ != "language"@ && "time"@ != "lang"@ && "time"@ != "punctuation"@ && "time"@
        != "numbers"@ && "time"@ != "font"@ && "time"@ != "graphics"@ && "time"@ != "font_size"@
        && "time"@ != "fontsize"@ && "time"@ != "words_per_line"@) by {
        assert("time"@[0] == 't');
    }
    assert("words"@ != "words_per_line"@ && "words"@ != "wpl"@ && "words"@ != "time"@) by {
        assert("words"@.len() == 5);
        assert("words"@[1] == 'o');
    }
    assert("words"@ != "theme"@ && "words"@ != "language"@ && "words"@ != "lang"@ && "words"@
        != "punctuation"@ && "words"@ != "numbers"@ && "words"@ != "zen"@ && "words"@ != "font"@
        && "words"@ != "graphics"@ && "words"@ != "font_size"@ && "words"@ != "fontsize"@) by {
        assert("words"@[0] == 'w');
    }
}

/// A file that sets nothing gives the default settings.
pub proof fn law_empty_patch_is_default(p: ConfigPatch)
    requires
        p.theme is None && p.language is None && p.mode is None && p.punctuation is None
            && p.numbers is None && p.font_size is None && p.words_per_line is None && p.zen is None
            && p.font is None && p.graphics is None && p.results is None,
    ensures
        Config::spec_from_patch(p) == Config::spec_default(),
{
}

} // verus!
