//! The `:` command language: a static registry of command specs (for the
//! palette) and a parser from a typed line to a `Command`.

pub mod palette;



use vstd::prelude::*;

use crate::config::{
    on_off, on_off_error, parse_range, spec_parse_range, FONT_SIZE_RANGE, SECTIONS,
    WORDS_PER_LINE_RANGE, ZOOM_LEVELS,
};
use crate::test::mode::{TIME_PRESETS, WORD_PRESETS};
use crate::text::{
    concat, decimal, eq_str, from_chars, is_ws, message, parse_bounded, parse_uint, push_all,
    push_decimal, push_str, split_first_blank, split_first_blank_chars, to_chars, to_string, trim,
    trim_chars, trim_start, trim_start_chars, word_end, word_len, slice_chars,
};

verus! {

/// Parsed, validated command ready for the app to execute.
#[derive(Debug, Clone, PartialEq, Eq)]
pub enum Command {
    Time(u16),
    Words(u16),
    Language(String),
    Theme(String),
    /// `None` toggles.
    Punctuation(Option<bool>),
    Numbers(Option<bool>),
    Zoom(ZoomArg),
    /// `None` opens the slider.
    FontSize(Option<u8>),
    /// `None` opens the slider.
    WordsPerLine(Option<u8>),
    Zen(Option<bool>),
    Restart,
    Stats,
    Help,
    Quit,
    Results { section: String, value: Option<bool> },
    SetKey { key: String, value: String },
}

#[derive(Debug, Clone, Copy, PartialEq, Eq, Structural)]
pub enum ZoomArg {
    In,
    Out,
    Level(u8),
}

/// `Command` with its strings as character sequences.
pub enum CommandView {
    Time(u16),
    Words(u16),
    Language(Seq<char>),
    Theme(Seq<char>),
    Punctuation(Option<bool>),
    Numbers(Option<bool>),
    Zoom(ZoomArg),
    FontSize(Option<u8>),
    WordsPerLine(Option<u8>),
    Zen(Option<bool>),
    Restart,
    Stats,
    Help,
    Quit,
    Results { section: Seq<char>, value: Option<bool> },
    SetKey { key: Seq<char>, value: Seq<char> },
}

impl View for Command {
    type V = CommandView;

    open spec fn view(&self) -> CommandView {
        match self {
            Command::Time(n) => CommandView::Time(*n),
            Command::Words(n) => CommandView::Words(*n),
            Command::Language(s) => CommandView::Language(s@),
            Command::Theme(s) => CommandView::Theme(s@),
            Command::Punctuation(v) => CommandView::Punctuation(*v),
            Command::Numbers(v) => CommandView::Numbers(*v),
            Command::Zoom(z) => CommandView::Zoom(*z),
            Command::FontSize(v) => CommandView::FontSize(*v),
            Command::WordsPerLine(v) => CommandView::WordsPerLine(*v),
            Command::Zen(v) => CommandView::Zen(*v),
            Command::Restart => CommandView::Restart,
            Command::Stats => CommandView::Stats,
            Command::Help => CommandView::Help,
            Command::Quit => CommandView::Quit,
            Command::Results { section, value } => CommandView::Results {
                section: section@,
                value: *value,
            },
            Command::SetKey { key, value } => CommandView::SetKey { key: key@, value: value@ },
        }
    }
}

/// What the palette should offer for a command's argument.
#[derive(Debug, Clone, Copy, PartialEq, Eq, Structural)]
pub enum ArgKind {
    NoArg,
    Themes,
    Languages,
    TimePresets,
    WordPresets,
    OnOff,
    ResultSections,
    ZoomArgs,
    /// Free-form; no completion.
    Free,
}

impl ArgKind {
    pub open spec fn spec_accepts_free_text(self) -> bool {
        self == ArgKind::TimePresets || self == ArgKind::WordPresets || self == ArgKind::Free
    }

    /// Whether values outside the suggested candidates are valid (presets
    /// are only suggestions; any number works).
    pub fn accepts_free_text(self) -> (b: bool)
        ensures
            b == self.spec_accepts_free_text(),
    {
        match self {
            ArgKind::TimePresets | ArgKind::WordPresets | ArgKind::Free => true,
            _ => false,
        }
    }
}

#[derive(Debug, Clone, Copy)]
pub struct CommandSpec {
    pub name: &'static str,
    pub aliases: &'static [&'static str],
    /// Usage shown in the palette, e.g. `<seconds>`.
    pub usage: &'static str,
    pub help: &'static str,
    pub arg: ArgKind,
    /// If true the command is meaningless without an argument, so Enter on
    /// the bare name completes it instead of running.
    pub requires_arg: bool,
}

/// Every command, in the order the palette lists them.
pub open spec fn spec_commands() -> Seq<CommandSpec> {
    seq![
    CommandSpec {
        name: "time",
        aliases: &["t"],
        usage: "<seconds>",
        help: "timed test",
        arg: ArgKind::TimePresets,
        requires_arg: true,
    },
    CommandSpec {
        name: "words",
        aliases: &["w"],
        usage: "<count>",
        help: "fixed word-count test",
        arg: ArgKind::WordPresets,
        requires_arg: true,
    },
    CommandSpec {
        name: "language",
        aliases: &["lang", "l"],
        usage: "<name>",
        help: "switch word list",
        arg: ArgKind::Languages,
        requires_arg: true,
    },
    CommandSpec {
        name: "theme",
        aliases: &["th"],
        usage: "<name>",
        help: "switch color theme",
        arg: ArgKind::Themes,
        requires_arg: true,
    },
    CommandSpec {
        name: "punctuation",
        aliases: &["punc", "p"],
        usage: "[on|off]",
        help: "toggle punctuation",
        arg: ArgKind::OnOff,
        requires_arg: false,
    },
    CommandSpec {
        name: "numbers",
        aliases: &["num", "n"],
        usage: "[on|off]",
        help: "toggle numbers",
        arg: ArgKind::OnOff,
        requires_arg: false,
    },
    CommandSpec {
        name: "zoom",
        aliases: &["z"],
        usage: "[in|out|0-4]",
        help: "scale the layout",
        arg: ArgKind::ZoomArgs,
        requires_arg: false,
    },
    CommandSpec {
        name: "fontsize",
        aliases: &["fs", "font"],
        usage: "[1-5]",
        help: "text size (no number: slider)",
        arg: ArgKind::Free,
        requires_arg: false,
    },
    CommandSpec {
        name: "wordsperline",
        aliases: &["wpl", "width"],
        usage: "[4-30]",
        help: "width of the word box (no number: slider)",
        arg: ArgKind::Free,
        requires_arg: false,
    },
    CommandSpec {
        name: "zen",
        aliases: &[],
        usage: "[on|off]",
        help: "words only, no chrome",
        arg: ArgKind::OnOff,
        requires_arg: false,
    },
    CommandSpec {
        name: "restart",
        aliases: &["r"],
        usage: "",
        help: "new test",
        arg: ArgKind::NoArg,
        requires_arg: false,
    },
    CommandSpec {
        name: "stats",
        aliases: &["s"],
        usage: "",
        help: "show history",
        arg: ArgKind::NoArg,
        requires_arg: false,
    },
    CommandSpec {
        name: "results",
        aliases: &["res"],
        usage: "<section> [on|off]",
        help: "toggle results sections",
        arg: ArgKind::ResultSections,
        requires_arg: true,
    },
    CommandSpec {
        name: "set",
        aliases: &[],
        usage: "<key> <value>",
        help: "set any config key",
        arg: ArgKind::Free,
        requires_arg: true,
    },
    CommandSpec {
        name: "help",
        aliases: &["h", "?"],
        usage: "",
        help: "keys and commands",
        arg: ArgKind::NoArg,
        requires_arg: false,
    },
    CommandSpec {
        name: "quit",
        aliases: &["q", "exit"],
        usage: "",
        help: "exit ttyp",
        arg: ArgKind::NoArg,
        requires_arg: false,
    },
]
}

/// Every command, in the order the palette lists them.
pub fn commands() -> (r: &'static [CommandSpec])
    ensures
        r@ == spec_commands(),
{
    &[
    CommandSpec {
        name: "time",
        aliases: &["t"],
        usage: "<seconds>",
        help: "timed test",
        arg: ArgKind::TimePresets,
        requires_arg: true,
    },
    CommandSpec {
        name: "words",
        aliases: &["w"],
        usage: "<count>",
        help: "fixed word-count test",
        arg: ArgKind::WordPresets,
        requires_arg: true,
    },
    CommandSpec {
        name: "language",
        aliases: &["lang", "l"],
        usage: "<name>",
        help: "switch word list",
        arg: ArgKind::Languages,
        requires_arg: true,
    },
    CommandSpec {
        name: "theme",
        aliases: &["th"],
        usage: "<name>",
        help: "switch color theme",
        arg: ArgKind::Themes,
        requires_arg: true,
    },
    CommandSpec {
        name: "punctuation",
        aliases: &["punc", "p"],
        usage: "[on|off]",
        help: "toggle punctuation",
        arg: ArgKind::OnOff,
        requires_arg: false,
    },
    CommandSpec {
        name: "numbers",
        aliases: &["num", "n"],
        usage: "[on|off]",
        help: "toggle numbers",
        arg: ArgKind::OnOff,
        requires_arg: false,
    },
    CommandSpec {
        name: "zoom",
        aliases: &["z"],
        usage: "[in|out|0-4]",
        help: "scale the layout",
        arg: ArgKind::ZoomArgs,
        requires_arg: false,
    },
    CommandSpec {
        name: "fontsize",
        aliases: &["fs", "font"],
        usage: "[1-5]",
        help: "text size (no number: slider)",
        arg: ArgKind::Free,
        requires_arg: false,
    },
    CommandSpec {
        name: "wordsperline",
        aliases: &["wpl", "width"],
        usage: "[4-30]",
        help: "width of the word box (no number: slider)",
        arg: ArgKind::Free,
        requires_arg: false,
    },
    CommandSpec {
        name: "zen",
        aliases: &[],
        usage: "[on|off]",
        help: "words only, no chrome",
        arg: ArgKind::OnOff,
        requires_arg: false,
    },
    CommandSpec {
        name: "restart",
        aliases: &["r"],
        usage: "",
        help: "new test",
        arg: ArgKind::NoArg,
        requires_arg: false,
    },
    CommandSpec {
        name: "stats",
        aliases: &["s"],
        usage: "",
        help: "show history",
        arg: ArgKind::NoArg,
        requires_arg: false,
    },
    CommandSpec {
        name: "results",
        aliases: &["res"],
        usage: "<section> [on|off]",
        help: "toggle results sections",
        arg: ArgKind::ResultSections,
        requires_arg: true,
    },
    CommandSpec {
        name: "set",
        aliases: &[],
        usage: "<key> <value>",
        help: "set any config key",
        arg: ArgKind::Free,
        requires_arg: true,
    },
    CommandSpec {
        name: "help",
        aliases: &["h", "?"],
        usage: "",
        help: "keys and commands",
        arg: ArgKind::NoArg,
        requires_arg: false,
    },
    CommandSpec {
        name: "quit",
        aliases: &["q", "exit"],
        usage: "",
        help: "exit ttyp",
        arg: ArgKind::NoArg,
        requires_arg: false,
    },
]
}

/// `spec` answers to `name`, by its name or one of its aliases.
pub open spec fn spec_names(spec: CommandSpec, name: Seq<char>) -> bool {
    spec.name@ == name || exists|j: int| 0 <= j < spec.aliases@.len() && (#[trigger] spec.aliases@[j])@
        == name
}

/// Index of the first command at or after `i` answering to `name`.
pub open spec fn find_from(name: Seq<char>, i: int) -> Option<int>
    decreases spec_commands().len() - i,
{
    if i < 0 || i >= spec_commands().len() {
        None
    } else if spec_names(spec_commands()[i], name) {
        Some(i)
    } else {
        find_from(name, i + 1)
    }
}

/// Index of the first command answering to `name`.
pub open spec fn spec_find(name: Seq<char>) -> Option<int> {
    find_from(name, 0)
}

pub proof fn lemma_find_from_bounds(name: Seq<char>, i: int)
    requires
        0 <= i,
    ensures
        find_from(name, i) matches Some(k) ==> i <= k < spec_commands().len() && spec_names(
            spec_commands()[k],
            name,
        ),
    decreases spec_commands().len() - i,
{
    if i < spec_commands().len() && !spec_names(spec_commands()[i], name) {
        lemma_find_from_bounds(name, i + 1);
    }
}

fn answers_to(spec: &CommandSpec, name: &Vec<char>) -> (b: bool)
    ensures
        b == spec_names(*spec, name@),
{
    if eq_str(name, spec.name) {
        return true;
    }
    let mut j: usize = 0;
    while j < spec.aliases.len()
        invariant
            j <= spec.aliases@.len(),
            forall|k: int| 0 <= k < j ==> (#[trigger] spec.aliases@[k])@ != name@,
        decreases spec.aliases@.len() - j,
    {
        if eq_str(name, spec.aliases[j]) {
            return true;
        }
        j = j + 1;
    }
    false
}

/// Index into `COMMANDS` of the command answering to `name`.
pub fn find_index(name: &Vec<char>) -> (r: Option<usize>)
    ensures
        r matches Some(i) ==> spec_find(name@) == Some(i as int) && i < spec_commands().len(),
        r is None ==> spec_find(name@) is None,
{
    let mut i: usize = 0;
    while i < commands().len()
        invariant
            i <= spec_commands().len(),
            spec_find(name@) == find_from(name@, i as int),
        decreases spec_commands().len() - i,
    {
        if answers_to(&commands()[i], name) {
            return Some(i);
        }
        i = i + 1;
    }
    None
}

/// The spec of the command answering to `name`.
pub fn find_spec(name: &str) -> (r: Option<&'static CommandSpec>)
    ensures
        r is Some <==> spec_find(name@) is Some,
        r matches Some(s) ==> *s == spec_commands()[spec_find(name@).unwrap()],
{
    let v = to_chars(name);
    match find_index(&v) {
        Some(i) => Some(&commands()[i]),
        None => None,
    }
}

/// `on`/`off` for the toggles: empty means "toggle".
pub open spec fn spec_opt_on_off(rest: Seq<char>) -> Result<Option<bool>, Seq<char>> {
    if rest.len() == 0 {
        Ok(None)
    } else {
        match on_off(rest) {
            Some(b) => Ok(Some(b)),
            None => Err(on_off_error(rest)),
        }
    }
}

/// A positive `u16`.
pub open spec fn spec_parse_num(s: Seq<char>, what: Seq<char>) -> Result<u16, Seq<char>> {
    match parse_bounded(s, 0xffff) {
        Some(n) => if n > 0 {
            Ok(n as u16)
        } else {
            Err("bad "@ + what + " `"@ + s + "`"@)
        },
        None => Err("bad "@ + what + " `"@ + s + "`"@),
    }
}

/// The first whitespace-separated token of `s`.
pub open spec fn first_token(s: Seq<char>) -> Option<Seq<char>> {
    let t = trim_start(s);
    if t.len() == 0 {
        None
    } else {
        Some(t.take(word_len(t) as int))
    }
}

/// What follows the first token of `s`.
pub open spec fn after_first_token(s: Seq<char>) -> Seq<char> {
    let t = trim_start(s);
    t.skip(word_len(t) as int)
}

pub open spec fn is_section(s: Seq<char>) -> bool {
    s == "chart"@ || s == "breakdown"@ || s == "consistency"@ || s == "raw"@
}

/// The arguments of a command line after its name, for the command `spec`.
pub open spec fn spec_parse_args(spec: CommandSpec, rest: Seq<char>) -> Result<
    CommandView,
    Seq<char>,
> {
    let name = spec.name@;
    let usage = "usage: "@ + name + " "@ + spec.usage@;
    if name == "time"@ || name == "words"@ {
        if rest.len() == 0 {
            Err(usage)
        } else {
            let what = if name == "time"@ {
                "seconds"@
            } else {
                "count"@
            };
            match spec_parse_num(rest, what) {
                Ok(n) => Ok(
                    if name == "time"@ {
                        CommandView::Time(n)
                    } else {
                        CommandView::Words(n)
                    },
                ),
                Err(e) => Err(e),
            }
        }
    } else if name == "language"@ || name == "theme"@ {
        if rest.len() == 0 {
            Err(usage)
        } else if name == "language"@ {
            Ok(CommandView::Language(rest))
        } else {
            Ok(CommandView::Theme(rest))
        }
    } else if name == "punctuation"@ || name == "numbers"@ || name == "zen"@ {
        match spec_opt_on_off(rest) {
            Ok(v) => Ok(
                if name == "punctuation"@ {
                    CommandView::Punctuation(v)
                } else if name == "numbers"@ {
                    CommandView::Numbers(v)
                } else {
                    CommandView::Zen(v)
                },
            ),
            Err(e) => Err(e),
        }
    } else if name == "zoom"@ {
        if rest.len() == 0 || rest == "in"@ || rest == "+"@ {
            Ok(CommandView::Zoom(ZoomArg::In))
        } else if rest == "out"@ || rest == "-"@ {
            Ok(CommandView::Zoom(ZoomArg::Out))
        } else {
            match parse_bounded(rest, 255) {
                Some(n) => if n < ZOOM_LEVELS {
                    Ok(CommandView::Zoom(ZoomArg::Level(n as u8)))
                } else {
                    Err("usage: zoom "@ + spec.usage@)
                },
                None => Err("usage: zoom "@ + spec.usage@),
            }
        }
    } else if name == "fontsize"@ || name == "wordsperline"@ {
        let fs = name == "fontsize"@;
        if rest.len() == 0 {
            Ok(
                if fs {
                    CommandView::FontSize(None)
                } else {
                    CommandView::WordsPerLine(None)
                },
            )
        } else {
            match spec_parse_range(rest, if fs { 1 } else { 4 }, if fs { 5 } else { 30 }) {
                Ok(n) => Ok(
                    if fs {
                        CommandView::FontSize(Some(n))
                    } else {
                        CommandView::WordsPerLine(Some(n))
                    },
                ),
                Err(e) => Err(e),
            }
        }
    } else if name == "restart"@ {
        Ok(CommandView::Restart)
    } else if name == "stats"@ {
        Ok(CommandView::Stats)
    } else if name == "help"@ {
        Ok(CommandView::Help)
    } else if name == "quit"@ {
        Ok(CommandView::Quit)
    } else if name == "results"@ {
        match first_token(rest) {
            None => Err("usage: results "@ + spec.usage@),
            Some(section) => if !is_section(section) {
                Err(
                    "unknown section `"@ + section
                        + "` (one of chart, breakdown, consistency, raw)"@,
                )
            } else {
                match first_token(after_first_token(rest)) {
                    None => Ok(CommandView::Results { section, value: None }),
                    Some(v) => match on_off(v) {
                        Some(b) => Ok(CommandView::Results { section, value: Some(b) }),
                        None => Err(on_off_error(v)),
                    },
                }
            },
        }
    } else if name == "set"@ {
        let (key, tail) = split_first_blank(rest);
        match tail {
            Some(t) => if key.len() > 0 && trim(t).len() > 0 {
                Ok(CommandView::SetKey { key, value: trim(t) })
            } else {
                Err("usage: set "@ + spec.usage@)
            },
            None => Err("usage: set "@ + spec.usage@),
        }
    } else {
        Err("unknown command `"@ + name + "`"@)
    }
}

/// What `parse` makes of a full command line (without the leading `:`).
/// An empty line is an error with an empty message.
pub open spec fn spec_parse(line: Seq<char>) -> Result<CommandView, Seq<char>> {
    let (name, tail) = split_first_blank(trim(line));
    let rest = match tail {
        Some(r) => trim(r),
        None => Seq::empty(),
    };
    if name.len() == 0 {
        Err(Seq::empty())
    } else {
        match spec_find(name) {
            None => Err("unknown command `"@ + name + "`"@),
            Some(i) => spec_parse_args(spec_commands()[i], rest),
        }
    }
}

fn parse_on_off(s: &Vec<char>) -> (r: Result<bool, String>)
    ensures
        r is Ok <==> on_off(s@) is Some,
        r matches Ok(b) ==> b == on_off(s@).unwrap(),
        r matches Err(e) ==> e@ == on_off_error(s@),
{
    crate::config::parse_bool(s)
}

fn parse_num(s: &Vec<char>, what: &str) -> (r: Result<u16, String>)
    ensures
        r is Ok <==> spec_parse_num(s@, what@) is Ok,
        r matches Ok(n) ==> n == spec_parse_num(s@, what@)->Ok_0,
        r matches Err(e) ==> e@ == spec_parse_num(s@, what@)->Err_0,
{
    match parse_uint(s, 0xffff) {
        Some(n) => if n > 0 {
            return Ok(n as u16);
        },
        None => {},
    }
    let mut m: Vec<char> = Vec::new();
    push_str(&mut m, "bad ");
    push_str(&mut m, what);
    push_str(&mut m, " `");
    push_all(&mut m, s);
    push_str(&mut m, "`");
    assert(m@ =~= "bad "@ + what@ + " `"@ + s@ + "`"@);
    Err(from_chars(&m))
}

fn opt_on_off(rest: &Vec<char>) -> (r: Result<Option<bool>, String>)
    ensures
        r is Ok <==> spec_opt_on_off(rest@) is Ok,
        r matches Ok(v) ==> v == spec_opt_on_off(rest@)->Ok_0,
        r matches Err(e) ==> e@ == spec_opt_on_off(rest@)->Err_0,
{
    if rest.len() == 0 {
        Ok(None)
    } else {
        match parse_on_off(rest) {
            Ok(b) => Ok(Some(b)),
            Err(e) => Err(e),
        }
    }
}

/// Splits off the first whitespace-separated token.
fn next_token(s: &Vec<char>) -> (r: (Option<Vec<char>>, Vec<char>))
    ensures
        r.0 is Some <==> first_token(s@) is Some,
        r.0 matches Some(t) ==> t@ == first_token(s@).unwrap(),
        r.1@ == after_first_token(s@),
{
    let t = trim_start_chars(s);
    let k = word_end(&t);
    let after = slice_chars(&t, k, t.len());
    if t.len() == 0 {
        (None, after)
    } else {
        (Some(slice_chars(&t, 0, k)), after)
    }
}

fn usage_error(spec: &CommandSpec) -> (s: String)
    ensures
        s@ == "usage: "@ + spec.name@ + " "@ + spec.usage@,
{
    let mut m: Vec<char> = Vec::new();
    push_str(&mut m, "usage: ");
    push_str(&mut m, spec.name);
    push_str(&mut m, " ");
    push_str(&mut m, spec.usage);
    assert(m@ =~= "usage: "@ + spec.name@ + " "@ + spec.usage@);
    from_chars(&m)
}

fn parse_args(spec: &CommandSpec, rest: &Vec<char>) -> (r: Result<Command, String>)
    ensures
        r is Ok <==> spec_parse_args(*spec, rest@) is Ok,
        r matches Ok(c) ==> c@ == spec_parse_args(*spec, rest@)->Ok_0,
        r matches Err(e) ==> e@ == spec_parse_args(*spec, rest@)->Err_0,
{
    let name = to_chars(spec.name);
    if eq_str(&name, "time") || eq_str(&name, "words") {
        if rest.len() == 0 {
            return Err(usage_error(spec));
        }
        let is_time = eq_str(&name, "time");
        let n = if is_time {
            parse_num(rest, "seconds")?
        } else {
            parse_num(rest, "count")?
        };
        Ok(
            if is_time {
                Command::Time(n)
            } else {
                Command::Words(n)
            },
        )
    } else if eq_str(&name, "language") || eq_str(&name, "theme") {
        if rest.len() == 0 {
            Err(usage_error(spec))
        } else if eq_str(&name, "language") {
            Ok(Command::Language(from_chars(rest)))
        } else {
            Ok(Command::Theme(from_chars(rest)))
        }
    } else if eq_str(&name, "punctuation") || eq_str(&name, "numbers") || eq_str(&name, "zen") {
        let v = opt_on_off(rest)?;
        Ok(
            if eq_str(&name, "punctuation") {
                Command::Punctuation(v)
            } else if eq_str(&name, "numbers") {
                Command::Numbers(v)
            } else {
                Command::Zen(v)
            },
        )
    } else if eq_str(&name, "zoom") {
        if rest.len() == 0 || eq_str(rest, "in") || eq_str(rest, "+") {
            Ok(Command::Zoom(ZoomArg::In))
        } else if eq_str(rest, "out") || eq_str(rest, "-") {
            Ok(Command::Zoom(ZoomArg::Out))
        } else {
            match parse_uint(rest, 255) {
                Some(n) => if n < ZOOM_LEVELS as u64 {
                    return Ok(Command::Zoom(ZoomArg::Level(n as u8)));
                },
                None => {},
            }
            let u = to_chars(spec.usage);
            Err(concat("usage: zoom ", &u))
        }
    } else if eq_str(&name, "fontsize") || eq_str(&name, "wordsperline") {
        let fs = eq_str(&name, "fontsize");
        if rest.len() == 0 {
            return Ok(
                if fs {
                    Command::FontSize(None)
                } else {
                    Command::WordsPerLine(None)
                },
            );
        }
        let value = from_chars(rest);
        let range = if fs {
            FONT_SIZE_RANGE
        } else {
            WORDS_PER_LINE_RANGE
        };
        let n = parse_range(value.as_str(), range)?;
        Ok(
            if fs {
                Command::FontSize(Some(n))
            } else {
                Command::WordsPerLine(Some(n))
            },
        )
    } else if eq_str(&name, "restart") {
        Ok(Command::Restart)
    } else if eq_str(&name, "stats") {
        Ok(Command::Stats)
    } else if eq_str(&name, "help") {
        Ok(Command::Help)
    } else if eq_str(&name, "quit") {
        Ok(Command::Quit)
    } else if eq_str(&name, "results") {
        let (first, after) = next_token(rest);
        let section = match first {
            None => {
                let u = to_chars(spec.usage);
                return Err(concat("usage: results ", &u));
            },
            Some(s) => s,
        };
        if !(eq_str(&section, "chart") || eq_str(&section, "breakdown") || eq_str(
            &section,
            "consistency",
        ) || eq_str(&section, "raw")) {
            return Err(
                message(
                    "unknown section `",
                    &section,
                    "` (one of chart, breakdown, consistency, raw)",
                ),
            );
        }
        let (second, _) = next_token(&after);
        let value = match second {
            None => None,
            Some(v) => Some(parse_on_off(&v)?),
        };
        Ok(Command::Results { section: from_chars(&section), value })
    } else if eq_str(&name, "set") {
        let (key, tail) = split_first_blank_chars(rest);
        match tail {
            Some(t) => {
                let value = trim_chars(&t);
                if key.len() > 0 && value.len() > 0 {
                    return Ok(Command::SetKey { key: from_chars(&key), value: from_chars(&value) });
                }
            },
            None => {},
        }
        let u = to_chars(spec.usage);
        Err(concat("usage: set ", &u))
    } else {
        Err(message("unknown command `", &name, "`"))
    }
}

/// Parse a full command line (without the leading `:`).
pub fn parse(line: &str) -> (r: Result<Command, String>)
    ensures
        r is Ok <==> spec_parse(line@) is Ok,
        r matches Ok(c) ==> c@ == spec_parse(line@)->Ok_0,
        r matches Err(e) ==> e@ == spec_parse(line@)->Err_0,
{
    let all = to_chars(line);
    let t = trim_chars(&all);
    let (name, tail) = split_first_blank_chars(&t);
    let rest = match tail {
        Some(r) => trim_chars(&r),
        None => Vec::new(),
    };
    if name.len() == 0 {
        return Err(from_chars(&Vec::new()));
    }
    match find_index(&name) {
        None => Err(message("unknown command `", &name, "`")),
        Some(i) => {
            proof {
                lemma_find_from_bounds(name@, 0);
            }
            parse_args(&commands()[i], &rest)
        },
    }
}

/// The candidate values `arg_candidates` offers.
pub open spec fn spec_candidates(kind: ArgKind, themes: Seq<Seq<char>>, languages: Seq<Seq<char>>) -> Seq<
    Seq<char>,
> {
    match kind {
        ArgKind::NoArg | ArgKind::Free => Seq::empty(),
        ArgKind::Themes => themes,
        ArgKind::Languages => languages,
        ArgKind::TimePresets => seq![decimal(15), decimal(30), decimal(60), decimal(120)],
        ArgKind::WordPresets => seq![decimal(10), decimal(25), decimal(50), decimal(100)],
        ArgKind::OnOff => seq!["on"@, "off"@],
        ArgKind::ResultSections => seq!["chart"@, "breakdown"@, "consistency"@, "raw"@],
        ArgKind::ZoomArgs => seq![
            "in"@,
            "out"@,
            decimal(0),
            decimal(1),
            decimal(2),
            decimal(3),
            decimal(4),
        ],
    }
}

/// The views of a list of strings.
pub open spec fn views(v: Seq<String>) -> Seq<Seq<char>> {
    v.map_values(|s: String| s@)
}

fn clone_all(v: &[String]) -> (r: Vec<String>)
    ensures
        views(r@) == views(v@),
{
    let mut r: Vec<String> = Vec::new();
    let mut i: usize = 0;
    while i < v.len()
        invariant
            i <= v@.len(),
            r@.len() == i,
            forall|j: int| 0 <= j < i ==> (#[trigger] r@[j])@ == v@[j]@,
        decreases v@.len() - i,
    {
        r.push(v[i].clone());
        i = i + 1;
    }
    assert(views(r@) =~= views(v@));
    r
}

fn strings2(a: &str, b: &str) -> (r: Vec<String>)
    ensures
        views(r@) == seq![a@, b@],
        r@.len() == 2,
        r@[0]@ == a@,
        r@[1]@ == b@,
{
    let mut r: Vec<String> = Vec::new();
    r.push(to_string(a));
    r.push(to_string(b));
    assert(views(r@) =~= seq![a@, b@]);
    r
}

fn numbers4(a: u64, b: u64, c: u64, d: u64) -> (r: Vec<String>)
    ensures
        views(r@) == seq![decimal(a as nat), decimal(b as nat), decimal(c as nat), decimal(d as nat)],
{
    let mut r: Vec<String> = Vec::new();
    r.push(crate::text::decimal_string(a));
    r.push(crate::text::decimal_string(b));
    r.push(crate::text::decimal_string(c));
    r.push(crate::text::decimal_string(d));
    assert(views(r@) =~= seq![decimal(a as nat), decimal(b as nat), decimal(c as nat), decimal(d as nat)]);
    r
}

/// Candidate argument values for a command, given the live registries.
pub fn arg_candidates(kind: ArgKind, themes: &[String], languages: &[String]) -> (r: Vec<String>)
    ensures
        views(r@) == spec_candidates(kind, views(themes@), views(languages@)),
{
    match kind {
        ArgKind::NoArg | ArgKind::Free => {
            let r: Vec<String> = Vec::new();
            assert(views(r@) =~= Seq::<Seq<char>>::empty());
            r
        },
        ArgKind::Themes => clone_all(themes),
        ArgKind::Languages => clone_all(languages),
        ArgKind::TimePresets => numbers4(15, 30, 60, 120),
        ArgKind::WordPresets => numbers4(10, 25, 50, 100),
        ArgKind::OnOff => strings2("on", "off"),
        ArgKind::ResultSections => {
            let mut r = strings2("chart", "breakdown");
            r.push(to_string("consistency"));
            r.push(to_string("raw"));
            assert(views(r@) =~= seq!["chart"@, "breakdown"@, "consistency"@, "raw"@]);
            r
        },
        ArgKind::ZoomArgs => {
            let mut r = strings2("in", "out");
            let mut l: usize = 0;
            while l < ZOOM_LEVELS
                invariant
                    l <= ZOOM_LEVELS,
                    r@.len() == 2 + l,
                    r@[0]@ == "in"@,
                    r@[1]@ == "out"@,
                    forall|j: int| 2 <= j < 2 + l ==> (#[trigger] r@[j])@ == decimal((j - 2) as nat),
                decreases ZOOM_LEVELS - l,
            {
                r.push(crate::text::decimal_string(l as u64));
                l = l + 1;
            }
            assert(views(r@) =~= spec_candidates(kind, views(themes@), views(languages@)));
            r
        },
    }
}

/// Text with no blank at either end is its own trim.
proof fn lemma_trim_unblanked(s: Seq<char>)
    requires
        s.len() > 0,
        !is_ws(s[0]),
        !is_ws(s.last()),
    ensures
        trim(s) == s,
{
    assert(trim_start(s) == s);
}

/// A line made of a blank-free name, one space and an argument with no
/// blank at its ends parses as that name applied to that argument.
proof fn lemma_parse_name_then_arg(name: Seq<char>, rest: Seq<char>)
    requires
        name.len() > 0,
        forall|j: int| 0 <= j < name.len() ==> !is_ws(#[trigger] name[j]),
        rest.len() > 0,
        !is_ws(rest[0]),
        !is_ws(rest.last()),
    ensures
        spec_parse(name + " "@ + rest) == match spec_find(name) {
            None => Err("unknown command `"@ + name + "`"@),
            Some(i) => spec_parse_args(spec_commands()[i], rest),
        },
{
    reveal_strlit(" ");
    let line = name + " "@ + rest;
    assert(line[0] == name[0]);
    assert(line.last() == rest.last());
    lemma_trim_unblanked(line);
    let k = name.len() as int;
    assert forall|j: int| 0 <= j < k implies !is_ws(#[trigger] line[j]) by {
        assert(line[j] == name[j]);
    }
    assert(line[k] == ' ');
    crate::text::lemma_word_len_at(line, k);
    assert(line.take(k) =~= name);
    assert(line.skip(k + 1) =~= rest);
    lemma_trim_unblanked(rest);
}

/// Any positive count works for `time` (also as `t`) and `words`: the
/// presets the palette offers are only suggestions.
pub proof fn law_any_positive_count_parses(n: u16)
    requires
        n > 0,
    ensures
        spec_parse("time "@ + decimal(n as nat)) == Ok::<CommandView, Seq<char>>(CommandView::Time(n)),
        spec_parse("t "@ + decimal(n as nat)) == Ok::<CommandView, Seq<char>>(CommandView::Time(n)),
        spec_parse("words "@ + decimal(n as nat)) == Ok::<CommandView, Seq<char>>(CommandView::Words(n)),
{
    reveal_strlit("time ");
    reveal_strlit("time");
    reveal_strlit("t ");
    reveal_strlit("t");
    reveal_strlit("words ");
    reveal_strlit("words");
    reveal_strlit(" ");
    let d = decimal(n as nat);
    crate::text::law_decimal_parses_back(n as nat, 0xffff);
    crate::text::lemma_decimal_digits(n as nat);
    assert(crate::text::is_digit(d[0]));
    assert(crate::text::is_digit(d[d.len() - 1]));
    assert("time "@ =~= "time"@ + " "@);
    assert("t "@ =~= "t"@ + " "@);
    assert("words "@ =~= "words"@ + " "@);
    lemma_parse_name_then_arg("time"@, d);
    lemma_parse_name_then_arg("t"@, d);
    lemma_parse_name_then_arg("words"@, d);
    let time = spec_commands()[0];
    let words = spec_commands()[1];
    assert(spec_names(time, "time"@));
    assert(time.aliases@[0]@ == "t"@);
    assert(spec_names(time, "t"@));
    assert(!spec_names(time, "words"@)) by {
        assert(time.aliases@.len() == 1);
        assert("words"@ != "time"@);
        assert("words"@ != "t"@);
    }
    assert(spec_names(words, "words"@));
    assert(spec_find("time"@) == Some(0int));
    assert(spec_find("t"@) == Some(0int));
    assert(find_from("words"@, 1) == Some(1int));
    assert(find_from("words"@, 0) == find_from("words"@, 1));
    assert(spec_find("words"@) == Some(1int));
    assert("time"@ != "words"@);
    assert((n as nat) as u16 == n);
}

} // verus!
