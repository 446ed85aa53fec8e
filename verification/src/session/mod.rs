//! The application's state and its decisions. Every event the terminal
//! loop sees becomes an `Action`; `Session::dispatch` applies it and says,
//! in the `Effects` it returns, which outside work the loop must do next
//! (record a finished test, write the config file, reload the history).

pub mod action;
pub mod input;
pub mod slider;

use vstd::prelude::*;

pub use action::Action;
pub use input::{map_key, map_slider_key, InputContext, KeyCode, KeyEvent};
pub use slider::{Slider, SliderTarget};

use crate::command::palette::{
    refreshed, spec_accept, spec_selected, spec_submit, word_start, CommandLine, CommandLineView,
    Completions, Stage,
};
use crate::command::{
    parse, spec_parse, spec_parse_args, views, ArgKind, Command, CommandSpec, CommandView, ZoomArg,
};
use crate::config::{clamp, spec_set, Config, ConfigView};
use crate::language::{string_views, Language, LanguageRegistry};
use crate::test::engine::{fed, fresh, initial_count, targets, EngineView, Status, TestEngine, LOOKAHEAD};
use crate::test::generator::{random_batch, GeneratorView, Modifiers, RandomGenerator};
use crate::test::mode::Mode;
use crate::text::{concat, from_chars, message, push_str, starts_with_str, to_chars, to_string};
use crate::theme::{Theme, ThemeRegistry};
use input::{spec_map_key, spec_map_slider};
use slider::{moved, spec_opened};

verus! {

/// How long a transient notice stays on the bottom line, in milliseconds.
pub const NOTICE_TTL: u64 = 2500;

/// Redraw cadence while a timed test is running, in milliseconds.
pub const TIMER_TICK: u64 = 100;

/// The shortest wait before a notice is checked again.
pub const MIN_WAIT: u64 = 50;

#[derive(Debug, Clone, Copy, PartialEq, Eq, Structural)]
pub enum Screen {
    Typing,
    Results,
    Stats,
    Help,
}

/// A message on the bottom line and when it was posted.
pub struct Notice {
    pub text: String,
    pub at: u64,
}

/// The outside work an action asks of the event loop.
#[derive(Debug, Clone, Copy, PartialEq, Eq, Structural)]
pub struct Effects {
    /// The test just finished: compute its metrics, record and show them.
    pub finish_test: bool,
    /// The configuration changed: write it out.
    pub save_config: bool,
    /// The stats screen opens: reload the history summary.
    pub refresh_summary: bool,
    /// A new test started: forget the last outcome.
    pub restarted: bool,
}

impl Effects {
    pub open spec fn none() -> Effects {
        Effects { finish_test: false, save_config: false, refresh_summary: false, restarted: false }
    }

    fn nothing() -> (e: Effects)
        ensures
            e == Effects::none(),
    {
        Effects { finish_test: false, save_config: false, refresh_summary: false, restarted: false }
    }
}

pub struct Session {
    pub config: Config,
    pub themes: ThemeRegistry,
    pub languages: LanguageRegistry,
    pub engine: TestEngine<RandomGenerator>,
    pub screen: Screen,
    /// Screen to return to from stats/help.
    pub previous_screen: Screen,
    pub cmdline: CommandLine,
    pub cmd_open: bool,
    pub completions: Completions,
    pub notice: Option<Notice>,
    pub scroll: usize,
    pub should_quit: bool,
    /// Something changed since the last draw.
    pub dirty: bool,
    /// The bottom-line picker, while one is open.
    pub slider: Option<Slider>,
    /// A theme for this session only: shown in place of the configured one
    /// until a command picks a theme, and never part of the settings.
    pub theme_override: Option<String>,
}

// ---------------------------------------------------------------------------
// Spec vocabulary
// ---------------------------------------------------------------------------

/// Every language can feed a test and `english` is there to fall back on.
pub open spec fn languages_ok(langs: Map<Seq<char>, Language>) -> bool {
    &&& langs.contains_key("english"@)
    &&& forall|k: Seq<char>| #[trigger] langs.contains_key(k) ==> langs[k].words@.len() > 0
}

/// A test that has not started, with its words queued for `mode`.
pub open spec fn fresh_engine(e: EngineView, mode: Mode) -> bool {
    &&& e.mode == mode
    &&& e.words.len() == match mode {
        Mode::Words(n) => n as int,
        Mode::Time(_) => LOOKAHEAD as int,
    }
    &&& forall|i: int| 0 <= i < e.words.len() ==> fresh(#[trigger] e.words[i])
    &&& e.current == 0
    &&& e.status == Status::Idle
    &&& e.started_at is None
    &&& e.finished_at is None
    &&& e.keystrokes.len() == 0
}

/// The word list a test for the settings `c` draws from: the configured
/// language's, or `english`'s when that language does not exist.
pub open spec fn language_words(c: ConfigView, langs: Map<Seq<char>, Language>) -> Seq<Seq<char>> {
    if langs.contains_key(c.language) {
        string_views(langs[c.language].words@)
    } else {
        string_views(langs["english"@].words@)
    }
}

/// The words of `e` are one batch of a new generator over the settings'
/// word list, with their punctuation and numbers, and `e` keeps drawing
/// from that generator.
pub open spec fn drawn_for(e: TestEngine<RandomGenerator>, c: ConfigView, langs: Map<Seq<char>, Language>) -> bool {
    random_batch(
        GeneratorView {
            words: language_words(c, langs),
            mods: Modifiers { punctuation: c.punctuation, numbers: c.numbers },
            last: None,
            sentence_start: true,
        },
        initial_count(c.mode),
        targets(e@.words),
        e.spec_generator()@,
    )
}

/// The notice `msg`, posted at `now`.
pub open spec fn posted(n: Option<Notice>, msg: Seq<char>, now: u64) -> bool {
    n matches Some(x) && x.text@ == msg && x.at == now
}

/// `a - b`, or zero when `b` is later.
pub open spec fn since(a: u64, b: u64) -> u64 {
    if a >= b {
        (a - b) as u64
    } else {
        0
    }
}

/// The notice still showing at `now`.
pub open spec fn live_notice(n: Option<Notice>, now: u64) -> Option<Seq<char>> {
    match n {
        Some(x) => if since(now, x.at) < NOTICE_TTL {
            Some(x.text@)
        } else {
            None
        },
        None => None,
    }
}

/// The palette emptied (what closing the command line leaves).
pub open spec fn cleared(v: CommandLineView) -> CommandLineView {
    CommandLineView { input: Seq::empty(), cursor: 0, suggestions: Seq::empty(), selected: 0, ..v }
}

/// The name of the theme the session asks for: the session's own, else
/// the configured one.
pub open spec fn active_theme(s: Session) -> Seq<char> {
    match s.theme_override {
        Some(o) => o@,
        None => s.config@.theme,
    }
}

/// The theme hovered in an open `theme ...` completion, when it exists.
pub open spec fn previewed(s: Session) -> Option<Seq<char>> {
    if s.cmd_open && s.cmdline@.stage == Stage::Arg(ArgKind::Themes) {
        match spec_selected(s.cmdline@) {
            Some(sel) => if s.themes@.contains_key(sel.label) {
                Some(sel.label)
            } else {
                None
            },
            None => None,
        }
    } else {
        None
    }
}

/// `on` or `off`.
pub open spec fn on_off_word(b: bool) -> Seq<char> {
    if b {
        "on"@
    } else {
        "off"@
    }
}

/// Opening an overlay screen remembers the typing or results screen
/// underneath (an overlay over an overlay keeps the first one's).
pub open spec fn return_screen(screen: Screen, previous: Screen) -> Screen {
    if screen == Screen::Typing || screen == Screen::Results {
        screen
    } else {
        previous
    }
}

/// The font size a zoom argument asks for: in and out step the current
/// size, level `l` is size `l + 1` (all within 1..=5).
pub open spec fn zoomed(arg: ZoomArg, size: u8) -> u8 {
    match arg {
        ZoomArg::In => clamp((clamp(size, 1, 5) + 1) as u8, 1, 5),
        ZoomArg::Out => clamp((clamp(size, 1, 5) - 1) as u8, 1, 5),
        ZoomArg::Level(l) => clamp(
            if l < 255 {
                (l + 1) as u8
            } else {
                l
            },
            1,
            5,
        ),
    }
}

impl Session {
    /// What every state keeps: the registries are well formed with their
    /// fallbacks present, the palette keeps its invariant, and a test with
    /// words is well formed.
    pub open spec fn wf(&self) -> bool {
        &&& self.themes.wf()
        &&& self.themes@.contains_key("default"@)
        &&& self.languages.wf()
        &&& languages_ok(self.languages@)
        &&& self.cmdline.wf()
        &&& self.engine@.words.len() > 0 ==> self.engine@.wf()
        &&& self.slider matches Some(sl) ==> sl.wf()
    }

    /// The state a command leaves the config in.
    pub open spec fn exec_config(self, cmd: CommandView) -> ConfigView {
        let c = self.config@;
        match cmd {
            CommandView::Time(s) => ConfigView { mode: Mode::Time(s), ..c },
            CommandView::Words(n) => ConfigView { mode: Mode::Words(n), ..c },
            CommandView::Language(name) => if self.languages@.contains_key(name) {
                ConfigView { language: name, ..c }
            } else {
                c
            },
            CommandView::Theme(name) => if self.themes@.contains_key(name) {
                ConfigView { theme: name, ..c }
            } else {
                c
            },
            CommandView::Punctuation(v) => ConfigView {
                punctuation: match v {
                    Some(b) => b,
                    None => !c.punctuation,
                },
                ..c
            },
            CommandView::Numbers(v) => ConfigView {
                numbers: match v {
                    Some(b) => b,
                    None => !c.numbers,
                },
                ..c
            },
            CommandView::Zen(v) => ConfigView {
                zen: match v {
                    Some(b) => b,
                    None => !c.zen,
                },
                ..c
            },
            CommandView::Zoom(arg) => ConfigView { font_size: zoomed(arg, c.font_size), ..c },
            CommandView::FontSize(Some(n)) => SliderTarget::FontSize.applied(c, n),
            CommandView::WordsPerLine(Some(n)) => SliderTarget::WordsPerLine.applied(c, n),
            CommandView::Results { section, value } => {
                let new = match value {
                    Some(b) => b,
                    None => match c.results.spec_get(section) {
                        Some(cur) => !cur,
                        None => false,
                    },
                };
                match c.results.spec_set(section, new) {
                    Some(r) => ConfigView { results: r, ..c },
                    None => c,
                }
            },
            CommandView::SetKey { key, value } => match spec_set(c, key, value) {
                Ok(n) => n,
                Err(_) => c,
            },
            _ => c,
        }
    }

    /// Whether a command starts a new test.
    pub open spec fn exec_restarts(self, cmd: CommandView) -> bool {
        match cmd {
            CommandView::Time(_) | CommandView::Words(_) | CommandView::Punctuation(_)
            | CommandView::Numbers(_) | CommandView::Restart => true,
            CommandView::Language(name) => self.languages@.contains_key(name),
            CommandView::SetKey { key, value } => spec_set(self.config@, key, value) is Ok && key
                != "theme"@ && !(key.len() >= 8 && key.take(8) == "results."@),
            _ => false,
        }
    }

    /// Whether the config is written out after a command (every command
    /// but a refused language, theme or setting).
    pub open spec fn exec_saves(self, cmd: CommandView) -> bool {
        match cmd {
            CommandView::Language(name) => self.languages@.contains_key(name),
            CommandView::Theme(name) => self.themes@.contains_key(name),
            CommandView::SetKey { key, value } => spec_set(self.config@, key, value) is Ok,
            CommandView::FontSize(v) => v is Some,
            CommandView::WordsPerLine(v) => v is Some,
            _ => true,
        }
    }

    /// Whether a command picks a theme, which ends a session's own theme.
    pub open spec fn exec_picks_theme(self, cmd: CommandView) -> bool {
        match cmd {
            CommandView::Theme(name) => self.themes@.contains_key(name),
            CommandView::SetKey { key, value } => key == "theme"@ && spec_set(self.config@, key, value)
                is Ok,
            _ => false,
        }
    }

    /// The slider a command leaves: a size command without a number opens
    /// one on its setting.
    pub open spec fn exec_slider(self, cmd: CommandView) -> Option<Slider> {
        match cmd {
            CommandView::FontSize(None) => Some(spec_opened(SliderTarget::FontSize, self.config@)),
            CommandView::WordsPerLine(None) => Some(
                spec_opened(SliderTarget::WordsPerLine, self.config@),
            ),
            _ => self.slider,
        }
    }

    /// The notice a command posts, if any.
    pub open spec fn exec_message(self, cmd: CommandView) -> Option<Seq<char>> {
        let after = self.exec_config(cmd);
        match cmd {
            CommandView::Language(name) => if self.languages@.contains_key(name) {
                None
            } else {
                Some("unknown language `"@ + name + "`"@)
            },
            CommandView::Theme(name) => if self.themes@.contains_key(name) {
                None
            } else {
                Some("unknown theme `"@ + name + "`"@)
            },
            CommandView::Punctuation(_) => Some("punctuation "@ + on_off_word(after.punctuation)),
            CommandView::Numbers(_) => Some("numbers "@ + on_off_word(after.numbers)),
            CommandView::Zen(_) => Some("zen "@ + on_off_word(after.zen)),
            CommandView::Results { section, value } => {
                let new = match value {
                    Some(b) => b,
                    None => match self.config@.results.spec_get(section) {
                        Some(cur) => !cur,
                        None => false,
                    },
                };
                Some("results "@ + section + " "@ + on_off_word(new))
            },
            CommandView::SetKey { key, value } => match spec_set(self.config@, key, value) {
                Err(e) => Some(e),
                Ok(n) => if self.themes@.contains_key(n.theme) {
                    None
                } else {
                    Some("unknown theme `"@ + n.theme + "`"@)
                },
            },
            _ => None,
        }
    }
}

/// What executing `cmd` does: `t` is the state after, `fx` the work asked
/// of the loop.
pub open spec fn execute_post(s: Session, t: Session, cmd: CommandView, now: u64, fx: Effects) -> bool {
    let cfg = s.exec_config(cmd);
    let restart = s.exec_restarts(cmd);
    &&& t.config@ == cfg
    &&& t.themes == s.themes
    &&& t.languages == s.languages
    &&& t.completions == s.completions
    &&& t.cmdline == s.cmdline
    &&& t.cmd_open == s.cmd_open
    &&& t.slider == s.exec_slider(cmd)
    &&& t.theme_override == if s.exec_picks_theme(cmd) {
        None
    } else {
        s.theme_override
    }
    &&& t.should_quit == (s.should_quit || cmd is Quit)
    &&& restart ==> fresh_engine(t.engine@, cfg.mode) && drawn_for(t.engine, cfg, s.languages@)
        && t.screen == Screen::Typing
        && t.previous_screen == Screen::Typing && t.scroll == 0
    &&& !restart ==> t.engine == s.engine && match cmd {
        CommandView::Stats => t.screen == Screen::Stats && t.previous_screen == return_screen(
            s.screen,
            s.previous_screen,
        ) && t.scroll == 0,
        CommandView::Help => t.screen == Screen::Help && t.previous_screen == return_screen(
            s.screen,
            s.previous_screen,
        ) && t.scroll == 0,
        _ => t.screen == s.screen && t.previous_screen == s.previous_screen && t.scroll == s.scroll,
    }
    &&& match s.exec_message(cmd) {
        Some(msg) => posted(t.notice, msg, now),
        None => t.notice == s.notice,
    }
    &&& fx == (Effects {
        finish_test: false,
        save_config: s.exec_saves(cmd),
        refresh_summary: cmd is Stats,
        restarted: restart,
    })
}

/// What running a typed line does: parse it, run the command or report
/// the parse error (an empty line does nothing).
pub open spec fn execute_line_post(s: Session, t: Session, line: Seq<char>, now: u64, fx: Effects) -> bool {
    match spec_parse(line) {
        Ok(cmd) => execute_post(s, t, cmd, now, fx),
        Err(msg) => {
            &&& t.config == s.config
            &&& t.themes == s.themes
            &&& t.languages == s.languages
            &&& t.completions == s.completions
            &&& t.cmdline == s.cmdline
            &&& t.cmd_open == s.cmd_open
            &&& t.slider == s.slider
            &&& t.theme_override == s.theme_override
            &&& t.should_quit == s.should_quit
            &&& t.engine == s.engine
            &&& t.screen == s.screen
            &&& t.previous_screen == s.previous_screen
            &&& t.scroll == s.scroll
            &&& if msg.len() == 0 {
                t.notice == s.notice
            } else {
                posted(t.notice, msg, now)
            }
            &&& fx == Effects::none()
        },
    }
}

/// `t` is `s` after restarting the test.
pub open spec fn restarted(s: Session, t: Session) -> bool {
    &&& fresh_engine(t.engine@, s.config@.mode)
    &&& drawn_for(t.engine, s.config@, s.languages@)
    &&& t == Session {
        engine: t.engine,
        screen: Screen::Typing,
        previous_screen: Screen::Typing,
        scroll: 0,
        dirty: true,
        ..s
    }
}

/// What dispatching `action` at `now` does.
pub open spec fn dispatch_post(s: Session, t: Session, action: Action, now: u64, fx: Effects) -> bool {
    let th = views(s.completions.themes@);
    let la = views(s.completions.languages@);
    let cl = s.cmdline@;
    match action {
        Action::Nop => t == s && fx == Effects::none(),
        Action::Tick => {
            let (e, ended) = s.engine@.tick(now);
            &&& t.engine@ == e
            &&& t.engine.spec_generator() == s.engine.spec_generator()
            &&& t == Session {
                engine: t.engine,
                screen: if ended {
                    Screen::Results
                } else {
                    s.screen
                },
                notice: match s.notice {
                    Some(n) => if since(now, n.at) >= NOTICE_TTL {
                        None
                    } else {
                        s.notice
                    },
                    None => None,
                },
                dirty: true,
                ..s
            }
            &&& fx == Effects { finish_test: ended, ..Effects::none() }
        },
        Action::TypeChar(c) => {
            let (next, grow) = s.engine@.type_char(c, now);
            let ended = t.engine@.status == Status::Finished && s.engine@.status != Status::Finished;
            &&& EngineView::queued(next, t.engine@, grow)
            &&& fed(s.engine.spec_generator(), s.engine@.words.len() as int, t.engine, grow)
            &&& t == Session {
                engine: t.engine,
                screen: if ended {
                    Screen::Results
                } else {
                    s.screen
                },
                dirty: true,
                ..s
            }
            &&& fx == Effects { finish_test: ended, ..Effects::none() }
        },
        Action::Backspace => t.engine@ == s.engine@.backspace() && t.engine.spec_generator()
            == s.engine.spec_generator() && t == Session {
            engine: t.engine,
            dirty: true,
            ..s
        } && fx == Effects::none(),
        Action::DeleteWord => t.engine@ == s.engine@.delete_word() && t.engine.spec_generator()
            == s.engine.spec_generator() && t == Session {
            engine: t.engine,
            dirty: true,
            ..s
        } && fx == Effects::none(),
        Action::Restart => restarted(s, t) && fx == Effects { restarted: true, ..Effects::none() },
        Action::OpenCommandLine => t.cmdline@ == refreshed(
            (CommandLineView { input: Seq::empty(), cursor: 0, message: None, ..cl }),
            th,
            la,
        ) && t == Session { cmdline: t.cmdline, cmd_open: true, dirty: true, ..s } && fx
            == Effects::none(),
        Action::CloseCommandLine => t.cmdline@ == cleared(cl) && t == Session {
            cmdline: t.cmdline,
            cmd_open: false,
            dirty: true,
            ..s
        } && fx == Effects::none(),
        Action::CmdInsert(c) => t.cmdline@ == refreshed(
            (CommandLineView {
                input: cl.input.insert(cl.cursor as int, c),
                cursor: cl.cursor + 1,
                ..cl
            }),
            th,
            la,
        ) && t == Session { cmdline: t.cmdline, dirty: true, ..s } && fx == Effects::none(),
        Action::CmdBackspace => if cl.cursor > 0 {
            t.cmdline@ == refreshed(
                (CommandLineView {
                    input: cl.input.remove(cl.cursor - 1),
                    cursor: (cl.cursor - 1) as nat,
                    ..cl
                }),
                th,
                la,
            ) && t == Session { cmdline: t.cmdline, dirty: true, ..s } && fx == Effects::none()
        } else {
            t.cmdline@ == cleared(cl) && t == Session {
                cmdline: t.cmdline,
                cmd_open: false,
                dirty: true,
                ..s
            } && fx == Effects::none()
        },
        Action::CmdDeleteWord => t.cmdline@ == refreshed(
            (CommandLineView {
                input: cl.input.take(word_start(cl.input, cl.cursor as int)) + cl.input.skip(
                    cl.cursor as int,
                ),
                cursor: word_start(cl.input, cl.cursor as int) as nat,
                ..cl
            }),
            th,
            la,
        ) && t == Session { cmdline: t.cmdline, dirty: true, ..s } && fx == Effects::none(),
        Action::CmdLeft => t.cmdline@ == (CommandLineView {
            cursor: if cl.cursor > 0 {
                (cl.cursor - 1) as nat
            } else {
                0
            },
            ..cl
        }) && t == Session { cmdline: t.cmdline, dirty: true, ..s } && fx == Effects::none(),
        Action::CmdRight => t.cmdline@ == (CommandLineView {
            cursor: if cl.cursor < cl.input.len() {
                cl.cursor + 1
            } else {
                cl.input.len()
            },
            ..cl
        }) && t == Session { cmdline: t.cmdline, dirty: true, ..s } && fx == Effects::none(),
        Action::CmdHome => t.cmdline@ == (CommandLineView { cursor: 0, ..cl }) && t == Session {
            cmdline: t.cmdline,
            dirty: true,
            ..s
        } && fx == Effects::none(),
        Action::CmdEnd => t.cmdline@ == (CommandLineView { cursor: cl.input.len(), ..cl }) && t
            == Session { cmdline: t.cmdline, dirty: true, ..s } && fx == Effects::none(),
        Action::CmdSelectNext => t.cmdline@ == (CommandLineView {
            selected: if cl.suggestions.len() == 0 {
                cl.selected
            } else {
                (cl.selected + 1) % cl.suggestions.len()
            },
            ..cl
        }) && t == Session { cmdline: t.cmdline, dirty: true, ..s } && fx == Effects::none(),
        Action::CmdSelectPrev => t.cmdline@ == (CommandLineView {
            selected: if cl.suggestions.len() == 0 {
                cl.selected
            } else {
                ((cl.selected + cl.suggestions.len() - 1) % (cl.suggestions.len() as int)) as nat
            },
            ..cl
        }) && t == Session { cmdline: t.cmdline, dirty: true, ..s } && fx == Effects::none(),
        Action::CmdAccept => t.cmdline@ == spec_accept(cl, th, la).0 && t == Session {
            cmdline: t.cmdline,
            dirty: true,
            ..s
        } && fx == Effects::none(),
        Action::CmdSubmit => {
            let (after, line) = spec_submit(cl, th, la);
            match line {
                None => t.cmdline@ == after && t == Session { cmdline: t.cmdline, dirty: true, ..s }
                    && fx == Effects::none(),
                Some(l) => t.cmdline@ == cleared(after) && t.dirty && execute_line_post(
                    Session { cmd_open: false, cmdline: t.cmdline, ..s },
                    t,
                    l,
                    now,
                    fx,
                ),
            }
        },
        Action::Back => t == Session {
            screen: s.previous_screen,
            scroll: 0,
            dirty: true,
            ..s
        } && fx == Effects::none(),
        Action::ShowStats => t == Session {
            screen: Screen::Stats,
            previous_screen: return_screen(s.screen, s.previous_screen),
            scroll: 0,
            dirty: true,
            ..s
        } && fx == Effects { refresh_summary: true, ..Effects::none() },
        Action::ShowHelp => t == Session {
            screen: Screen::Help,
            previous_screen: return_screen(s.screen, s.previous_screen),
            scroll: 0,
            dirty: true,
            ..s
        } && fx == Effects::none(),
        Action::ScrollDown => t == Session { scroll: (s.scroll + 1) as usize, dirty: true, ..s }
            && fx == Effects::none(),
        Action::ScrollUp => t == Session {
            scroll: if s.scroll > 0 {
                (s.scroll - 1) as usize
            } else {
                0
            },
            dirty: true,
            ..s
        } && fx == Effects::none(),
        Action::FontBigger => t.config@ == (ConfigView {
            font_size: zoomed(ZoomArg::In, s.config@.font_size),
            ..s.config@
        }) && t == Session { config: t.config, dirty: true, ..s } && fx == Effects {
            save_config: true,
            ..Effects::none()
        },
        Action::FontSmaller => t.config@ == (ConfigView {
            font_size: zoomed(ZoomArg::Out, s.config@.font_size),
            ..s.config@
        }) && t == Session { config: t.config, dirty: true, ..s } && fx == Effects {
            save_config: true,
            ..Effects::none()
        },
        Action::Quit => t == Session { should_quit: true, dirty: true, ..s } && fx == Effects::none(),
        Action::Redraw => t == Session { dirty: true, ..s } && fx == Effects::none(),
        Action::SliderDec | Action::SliderInc | Action::SliderMin | Action::SliderMax => {
            &&& match s.slider {
                Some(sl) => t == Session { slider: Some(slider_after(sl, action)), dirty: true, ..s },
                None => t == Session { dirty: true, ..s },
            }
            &&& fx == Effects::none()
        },
        Action::SliderConfirm => match s.slider {
            Some(sl) => t.config@ == sl.target.applied(s.config@, sl.value) && t == Session {
                config: t.config,
                slider: None,
                dirty: true,
                ..s
            } && fx == Effects { save_config: true, ..Effects::none() },
            None => t == Session { dirty: true, ..s } && fx == Effects::none(),
        },
        Action::SliderCancel => t == Session { slider: None, dirty: true, ..s } && fx
            == Effects::none(),
    }
}

/// Where a slider key leaves an open slider: a step down or up, or the
/// end of the range.
pub open spec fn slider_after(sl: Slider, action: Action) -> Slider {
    match action {
        Action::SliderDec => moved(sl, sl.value - 1),
        Action::SliderInc => moved(sl, sl.value + 1),
        Action::SliderMin => moved(sl, sl.target.spec_min() as int),
        _ => moved(sl, sl.target.spec_max() as int),
    }
}

/// The settings the screen shows: the open slider's value previews in
/// place of its setting.
pub open spec fn shown(s: Session) -> ConfigView {
    match s.slider {
        Some(sl) => sl.target.applied(s.config@, sl.value),
        None => s.config@,
    }
}

/// What `dispatch` needs beyond the invariant: the test has words to type
/// into, the palette's line has room for a character, the scroll offset
/// room to grow.
pub open spec fn dispatch_ready(s: Session, action: Action) -> bool {
    match action {
        Action::TypeChar(_) | Action::Backspace | Action::DeleteWord => s.engine@.words.len() > 0,
        Action::CmdInsert(_) => s.cmdline@.input.len() < usize::MAX,
        Action::ScrollDown => s.scroll < usize::MAX,
        _ => true,
    }
}

// ---------------------------------------------------------------------------
// Implementation
// ---------------------------------------------------------------------------

/// A new test for `config`: words from the configured language (or
/// `english`), with the configured punctuation and numbers.
fn build_engine(config: &Config, languages: &LanguageRegistry) -> (e: TestEngine<RandomGenerator>)
    requires
        languages.wf(),
        languages_ok(languages@),
    ensures
        fresh_engine(e@, config@.mode),
        drawn_for(e, config@, languages@),
{
    let lang = languages.get_or_default(config.language.as_str());
    proof {
        if languages@.contains_key(config.language@) {
            assert(languages@[config.language@].words@.len() > 0);
        } else {
            assert(languages@["english"@].words@.len() > 0);
        }
    }
    let words = lang.words.clone();
    let generator = RandomGenerator::new(
        words,
        Modifiers { punctuation: config.punctuation, numbers: config.numbers },
    );
    TestEngine::new(config.mode, generator)
}

fn on_off(b: bool) -> (s: &'static str)
    ensures
        s@ == on_off_word(b),
{
    if b {
        "on"
    } else {
        "off"
    }
}

fn font_step(size: u8, up: bool) -> (r: u8)
    ensures
        r == zoomed(
            if up {
                ZoomArg::In
            } else {
                ZoomArg::Out
            },
            size,
        ),
{
    let cur = if size < 1 {
        1
    } else if size > 5 {
        5
    } else {
        size
    };
    let next = if up {
        cur + 1
    } else {
        cur - 1
    };
    if next < 1 {
        1
    } else if next > 5 {
        5
    } else {
        next
    }
}

fn zoom_size(arg: ZoomArg, size: u8) -> (r: u8)
    ensures
        r == zoomed(arg, size),
{
    match arg {
        ZoomArg::In => font_step(size, true),
        ZoomArg::Out => font_step(size, false),
        ZoomArg::Level(l) => {
            let n = if l < 255 {
                l + 1
            } else {
                l
            };
            if n < 1 {
                1
            } else if n > 5 {
                5
            } else {
                n
            }
        },
    }
}

impl Session {
    /// A session for the loaded settings, with `theme_override` (if any) as
    /// its own theme: builds the first test and posts the first of the load
    /// warnings, else a warning for a theme or language asked for that does
    /// not exist.
    pub fn new(
        config: Config,
        themes: ThemeRegistry,
        languages: LanguageRegistry,
        completions: Completions,
        warnings: Vec<String>,
        theme_override: Option<String>,
        now: u64,
    ) -> (s: Self)
        requires
            themes.wf(),
            themes@.contains_key("default"@),
            languages.wf(),
            languages_ok(languages@),
        ensures
            s.wf(),
            s.config == config,
            s.themes == themes,
            s.languages == languages,
            s.completions == completions,
            fresh_engine(s.engine@, config@.mode),
            drawn_for(s.engine, config@, languages@),
            s.screen == Screen::Typing,
            s.previous_screen == Screen::Typing,
            !s.cmd_open,
            s.cmdline@.input.len() == 0,
            s.scroll == 0,
            !s.should_quit,
            s.dirty,
            s.slider is None,
            s.theme_override == theme_override,
            warnings@.len() > 0 ==> posted(s.notice, warnings@[0]@, now),
            warnings@.len() == 0 && !themes@.contains_key(active_theme(s)) ==> posted(
                s.notice,
                "unknown theme `"@ + active_theme(s) + "`, using default"@,
                now,
            ),
            warnings@.len() == 0 && themes@.contains_key(active_theme(s)) && !languages@.contains_key(
                config.language@,
            ) ==> posted(s.notice, "unknown language `"@ + config.language@ + "`, using english"@, now),
            warnings@.len() == 0 && themes@.contains_key(active_theme(s)) && languages@.contains_key(
                config.language@,
            ) ==> s.notice is None,
    {
        let engine = build_engine(&config, &languages);
        let asked: String = match &theme_override {
            Some(t) => t.clone(),
            None => config.theme.clone(),
        };
        let mut first: Option<String> = None;
        if warnings.len() > 0 {
            first = Some(warnings[0].clone());
        } else if themes.get(asked.as_str()).is_none() {
            let t = to_chars(asked.as_str());
            first = Some(message("unknown theme `", &t, "`, using default"));
        } else if languages.get(config.language.as_str()).is_none() {
            let l = to_chars(config.language.as_str());
            first = Some(message("unknown language `", &l, "`, using english"));
        }
        let notice = match first {
            Some(text) => Some(Notice { text, at: now }),
            None => None,
        };
        Session {
            config,
            themes,
            languages,
            engine,
            screen: Screen::Typing,
            previous_screen: Screen::Typing,
            cmdline: CommandLine::new(),
            cmd_open: false,
            completions,
            notice,
            scroll: 0,
            should_quit: false,
            dirty: true,
            slider: None,
            theme_override,
        }
    }

    /// The theme to render with: a live palette preview wins over config.
    pub fn theme(&self) -> (t: &Theme)
        requires
            self.wf(),
        ensures
            *t == match previewed(*self) {
                Some(name) => self.themes@[name],
                None => if self.themes@.contains_key(active_theme(*self)) {
                    self.themes@[active_theme(*self)]
                } else {
                    self.themes@["default"@]
                },
            },
    {
        if self.cmd_open {
            if let Some(name) = self.cmdline.preview_theme() {
                if let Some(t) = self.themes.get(name) {
                    return t;
                }
            }
        }
        match &self.theme_override {
            Some(o) => self.themes.get_or_default(o.as_str()),
            None => self.themes.get_or_default(self.config.theme.as_str()),
        }
    }

    /// Posts a message on the bottom line.
    pub fn notify(&mut self, msg: String, now: u64)
        ensures
            posted(final(self).notice, msg@, now),
            *final(self) == (Session { notice: final(self).notice, dirty: true, ..*old(self) }),
    {
        self.notice = Some(Notice { text: msg, at: now });
        self.dirty = true;
    }

    /// Current notice text, if it hasn't expired.
    pub fn notice_text(&self, now: u64) -> (r: Option<&str>)
        ensures
            r is Some <==> live_notice(self.notice, now) is Some,
            r matches Some(t) ==> t@ == live_notice(self.notice, now).unwrap(),
    {
        match &self.notice {
            Some(n) => if now < n.at || now - n.at < NOTICE_TTL {
                Some(n.text.as_str())
            } else {
                None
            },
            None => None,
        }
    }

    /// How long the loop may wait for input before it must tick: the timer
    /// cadence during a timed test on the typing screen, else until the
    /// notice expires (at least `MIN_WAIT`), else indefinitely (`None`).
    pub fn poll_timeout(&self, now: u64) -> (r: Option<u64>)
        ensures
            self.engine@.status == Status::Running && self.engine@.mode is Time && self.screen
                == Screen::Typing ==> r == Some(TIMER_TICK),
            !(self.engine@.status == Status::Running && self.engine@.mode is Time && self.screen
                == Screen::Typing) ==> r == match self.notice {
                Some(n) => Some(
                    if NOTICE_TTL - since(now, n.at) > MIN_WAIT {
                        (NOTICE_TTL - since(now, n.at)) as u64
                    } else {
                        MIN_WAIT
                    },
                ),
                None => None,
            },
    {
        let timed = match self.engine.mode() {
            Mode::Time(_) => true,
            Mode::Words(_) => false,
        };
        if self.engine.status() == Status::Running && timed && self.screen == Screen::Typing {
            return Some(TIMER_TICK);
        }
        match &self.notice {
            Some(n) => {
                let age = if now >= n.at {
                    now - n.at
                } else {
                    0
                };
                let left = if age < NOTICE_TTL {
                    NOTICE_TTL - age
                } else {
                    0
                };
                Some(
                    if left > MIN_WAIT {
                        left
                    } else {
                        MIN_WAIT
                    },
                )
            },
            None => None,
        }
    }

    /// What the key mapper needs to know.
    pub fn input_context(&self) -> (c: InputContext)
        ensures
            c == (InputContext {
                screen: self.screen,
                command_line_open: self.cmd_open,
                test_status: self.engine@.status,
            }),
    {
        InputContext {
            screen: self.screen,
            command_line_open: self.cmd_open,
            test_status: self.engine.status(),
        }
    }

    /// What a key does now: an open slider takes the keys, otherwise they
    /// go by screen and command line.
    pub fn key_action(&self, key: KeyEvent) -> (a: Action)
        ensures
            a == if self.slider is Some {
                spec_map_slider(key)
            } else {
                spec_map_key(
                    key,
                    InputContext {
                        screen: self.screen,
                        command_line_open: self.cmd_open,
                        test_status: self.engine@.status,
                    },
                )
            },
    {
        if self.slider.is_some() {
            map_slider_key(key)
        } else {
            map_key(key, self.input_context())
        }
    }

    fn push_screen(&mut self, screen: Screen)
        ensures
            *final(self) == (Session {
                screen,
                previous_screen: return_screen(old(self).screen, old(self).previous_screen),
                scroll: 0,
                ..*old(self)
            }),
    {
        if self.screen == Screen::Typing || self.screen == Screen::Results {
            self.previous_screen = self.screen;
        }
        self.screen = screen;
        self.scroll = 0;
    }

    fn close_command_line(&mut self)
        requires
            old(self).wf(),
        ensures
            final(self).wf(),
            final(self).cmdline@ == cleared(old(self).cmdline@),
            *final(self) == (Session { cmdline: final(self).cmdline, cmd_open: false, ..*old(self) }),
    {
        self.cmd_open = false;
        self.cmdline.clear();
    }

    fn restart(&mut self)
        requires
            old(self).wf(),
        ensures
            final(self).wf(),
            restarted(*old(self), *final(self)),
    {
        self.engine = build_engine(&self.config, &self.languages);
        self.screen = Screen::Typing;
        self.previous_screen = Screen::Typing;
        self.scroll = 0;
        self.dirty = true;
    }

    fn exec_mode(&mut self, mode: Mode, now: u64) -> (fx: Effects)
        requires
            old(self).wf(),
        ensures
            final(self).wf(),
            mode matches Mode::Time(n) ==> execute_post(*old(self), *final(self), CommandView::Time(n), now, fx),
            mode matches Mode::Words(n) ==> execute_post(*old(self), *final(self), CommandView::Words(n), now, fx),
    {
        self.config.mode = mode;
        self.restart();
        Effects { finish_test: false, save_config: true, refresh_summary: false, restarted: true }
    }

    fn exec_language(&mut self, name: String, now: u64) -> (fx: Effects)
        requires
            old(self).wf(),
        ensures
            final(self).wf(),
            execute_post(*old(self), *final(self), CommandView::Language(name@), now, fx),
    {
        if self.languages.get(name.as_str()).is_none() {
            let v = to_chars(name.as_str());
            self.notify(message("unknown language `", &v, "`"), now);
            return Effects::nothing();
        }
        self.config.language = name;
        self.restart();
        Effects { finish_test: false, save_config: true, refresh_summary: false, restarted: true }
    }

    fn exec_theme(&mut self, name: String, now: u64) -> (fx: Effects)
        requires
            old(self).wf(),
        ensures
            final(self).wf(),
            execute_post(*old(self), *final(self), CommandView::Theme(name@), now, fx),
    {
        if self.themes.get(name.as_str()).is_none() {
            let v = to_chars(name.as_str());
            self.notify(message("unknown theme `", &v, "`"), now);
            return Effects::nothing();
        }
        self.config.theme = name;
        self.theme_override = None;
        Effects { finish_test: false, save_config: true, refresh_summary: false, restarted: false }
    }

    fn toggle_message(label: &str, b: bool) -> (m: String)
        ensures
            m@ == label@ + on_off_word(b),
    {
        let mut v: Vec<char> = Vec::new();
        push_str(&mut v, label);
        push_str(&mut v, on_off(b));
        from_chars(&v)
    }

    fn exec_punctuation(&mut self, v: Option<bool>, now: u64) -> (fx: Effects)
        requires
            old(self).wf(),
        ensures
            final(self).wf(),
            execute_post(*old(self), *final(self), CommandView::Punctuation(v), now, fx),
    {
        self.config.punctuation = match v {
            Some(b) => b,
            None => !self.config.punctuation,
        };
        let m = Self::toggle_message("punctuation ", self.config.punctuation);
        self.notify(m, now);
        self.restart();
        Effects { finish_test: false, save_config: true, refresh_summary: false, restarted: true }
    }

    fn exec_numbers(&mut self, v: Option<bool>, now: u64) -> (fx: Effects)
        requires
            old(self).wf(),
        ensures
            final(self).wf(),
            execute_post(*old(self), *final(self), CommandView::Numbers(v), now, fx),
    {
        self.config.numbers = match v {
            Some(b) => b,
            None => !self.config.numbers,
        };
        let m = Self::toggle_message("numbers ", self.config.numbers);
        self.notify(m, now);
        self.restart();
        Effects { finish_test: false, save_config: true, refresh_summary: false, restarted: true }
    }

    fn exec_zen(&mut self, v: Option<bool>, now: u64) -> (fx: Effects)
        requires
            old(self).wf(),
        ensures
            final(self).wf(),
            execute_post(*old(self), *final(self), CommandView::Zen(v), now, fx),
    {
        self.config.zen = match v {
            Some(b) => b,
            None => !self.config.zen,
        };
        let m = Self::toggle_message("zen ", self.config.zen);
        self.notify(m, now);
        Effects { finish_test: false, save_config: true, refresh_summary: false, restarted: false }
    }

    fn exec_zoom(&mut self, arg: ZoomArg, now: u64) -> (fx: Effects)
        requires
            old(self).wf(),
        ensures
            final(self).wf(),
            execute_post(*old(self), *final(self), CommandView::Zoom(arg), now, fx),
    {
        self.config.font_size = zoom_size(arg, self.config.font_size);
        Effects { finish_test: false, save_config: true, refresh_summary: false, restarted: false }
    }

    fn exec_size(&mut self, target: SliderTarget, v: Option<u8>, now: u64) -> (fx: Effects)
        requires
            old(self).wf(),
        ensures
            final(self).wf(),
            target == SliderTarget::FontSize ==> execute_post(
                *old(self),
                *final(self),
                CommandView::FontSize(v),
                now,
                fx,
            ),
            target == SliderTarget::WordsPerLine ==> execute_post(
                *old(self),
                *final(self),
                CommandView::WordsPerLine(v),
                now,
                fx,
            ),
    {
        match v {
            Some(n) => {
                Slider { target, value: n }.apply(&mut self.config);
                Effects { finish_test: false, save_config: true, refresh_summary: false, restarted: false }
            },
            None => {
                self.slider = Some(Slider::open(target, &self.config));
                Effects::nothing()
            },
        }
    }

    fn exec_results(&mut self, section: String, value: Option<bool>, now: u64) -> (fx: Effects)
        requires
            old(self).wf(),
        ensures
            final(self).wf(),
            execute_post(
                *old(self),
                *final(self),
                CommandView::Results { section: section@, value },
                now,
                fx,
            ),
    {
        let current = match self.config.results.get(section.as_str()) {
            Some(b) => b,
            None => true,
        };
        let new = match value {
            Some(b) => b,
            None => !current,
        };
        self.config.results.set(section.as_str(), new);
        let mut m: Vec<char> = Vec::new();
        push_str(&mut m, "results ");
        push_str(&mut m, section.as_str());
        push_str(&mut m, " ");
        push_str(&mut m, on_off(new));
        self.notify(from_chars(&m), now);
        Effects { finish_test: false, save_config: true, refresh_summary: false, restarted: false }
    }

    fn exec_set(&mut self, key: String, value: String, now: u64) -> (fx: Effects)
        requires
            old(self).wf(),
        ensures
            final(self).wf(),
            execute_post(
                *old(self),
                *final(self),
                CommandView::SetKey { key: key@, value: value@ },
                now,
                fx,
            ),
    {
        match self.config.set(key.as_str(), value.as_str()) {
            Err(e) => {
                self.notify(e, now);
                return Effects::nothing();
            },
            Ok(()) => {},
        }
        if self.themes.get(self.config.theme.as_str()).is_none() {
            let t = to_chars(self.config.theme.as_str());
            self.notify(message("unknown theme `", &t, "`"), now);
        }
        let k = to_chars(key.as_str());
        if crate::text::eq_str(&k, "theme") {
            self.theme_override = None;
        }
        proof {
            reveal_strlit("results.");
        }
        let changed_test = !crate::text::eq_str(&k, "theme") && !starts_with_str(&k, "results.");
        if changed_test {
            self.restart();
        }
        Effects {
            finish_test: false,
            save_config: true,
            refresh_summary: false,
            restarted: changed_test,
        }
    }

    /// Runs a parsed command.
    pub fn execute(&mut self, cmd: Command, now: u64) -> (fx: Effects)
        requires
            old(self).wf(),
        ensures
            final(self).wf(),
            execute_post(*old(self), *final(self), cmd@, now, fx),
    {
        match cmd {
            Command::Time(secs) => self.exec_mode(Mode::Time(secs), now),
            Command::Words(n) => self.exec_mode(Mode::Words(n), now),
            Command::Language(name) => self.exec_language(name, now),
            Command::Theme(name) => self.exec_theme(name, now),
            Command::Punctuation(v) => self.exec_punctuation(v, now),
            Command::Numbers(v) => self.exec_numbers(v, now),
            Command::Zen(v) => self.exec_zen(v, now),
            Command::Zoom(arg) => self.exec_zoom(arg, now),
            Command::FontSize(v) => self.exec_size(SliderTarget::FontSize, v, now),
            Command::WordsPerLine(v) => self.exec_size(SliderTarget::WordsPerLine, v, now),
            Command::Restart => {
                self.restart();
                Effects { finish_test: false, save_config: true, refresh_summary: false, restarted: true }
            },
            Command::Stats => {
                self.push_screen(Screen::Stats);
                Effects { finish_test: false, save_config: true, refresh_summary: true, restarted: false }
            },
            Command::Help => {
                self.push_screen(Screen::Help);
                Effects { finish_test: false, save_config: true, refresh_summary: false, restarted: false }
            },
            Command::Quit => {
                self.should_quit = true;
                Effects { finish_test: false, save_config: true, refresh_summary: false, restarted: false }
            },
            Command::Results { section, value } => self.exec_results(section, value, now),
            Command::SetKey { key, value } => self.exec_set(key, value, now),
        }
    }

    /// Parses and runs a typed line; reports a parse error (an empty line
    /// does nothing).
    pub fn execute_line(&mut self, line: &str, now: u64) -> (fx: Effects)
        requires
            old(self).wf(),
        ensures
            final(self).wf(),
            execute_line_post(*old(self), *final(self), line@, now, fx),
    {
        match parse(line) {
            Ok(cmd) => self.execute(cmd, now),
            Err(msg) => {
                if to_chars(msg.as_str()).len() > 0 {
                    self.notify(msg, now);
                }
                Effects::nothing()
            },
        }
    }

    fn on_tick(&mut self, now: u64) -> (fx: Effects)
        requires
            old(self).wf(),
        ensures
            final(self).wf(),
            dispatch_post(*old(self), *final(self), Action::Tick, now, fx),
    {
        let mut fx = Effects::nothing();
        if self.engine.tick(now) {
            self.screen = Screen::Results;
            fx.finish_test = true;
        }
        let expired = match &self.notice {
            Some(n) => now >= n.at && now - n.at >= NOTICE_TTL,
            None => false,
        };
        if expired {
            self.notice = None;
        }
        self.dirty = true;
        fx
    }

    fn on_type_char(&mut self, c: char, now: u64) -> (fx: Effects)
        requires
            old(self).wf(),
            old(self).engine@.words.len() > 0,
        ensures
            final(self).wf(),
            dispatch_post(*old(self), *final(self), Action::TypeChar(c), now, fx),
    {
        let mut fx = Effects::nothing();
        let was_finished = self.engine.is_finished();
        self.engine.type_char_at(c, now);
        if self.engine.is_finished() && !was_finished {
            self.screen = Screen::Results;
            fx.finish_test = true;
        }
        self.dirty = true;
        fx
    }

    fn on_engine_edit(&mut self, action: Action) -> (fx: Effects)
        requires
            old(self).wf(),
            old(self).engine@.words.len() > 0,
            action == Action::Backspace || action == Action::DeleteWord,
        ensures
            final(self).wf(),
            dispatch_post(*old(self), *final(self), action, 0, fx),
    {
        if action == Action::Backspace {
            self.engine.backspace();
        } else {
            self.engine.delete_word();
        }
        self.dirty = true;
        Effects::nothing()
    }

    fn on_command_line(&mut self, action: Action) -> (fx: Effects)
        requires
            old(self).wf(),
            dispatch_ready(*old(self), action),
            match action {
                Action::OpenCommandLine | Action::CloseCommandLine | Action::CmdInsert(_)
                | Action::CmdBackspace | Action::CmdDeleteWord | Action::CmdLeft | Action::CmdRight
                | Action::CmdHome | Action::CmdEnd | Action::CmdSelectNext | Action::CmdSelectPrev
                | Action::CmdAccept => true,
                _ => false,
            },
        ensures
            final(self).wf(),
            dispatch_post(*old(self), *final(self), action, 0, fx),
    {
        match action {
            Action::OpenCommandLine => {
                self.cmd_open = true;
                self.cmdline.open(&self.completions);
            },
            Action::CloseCommandLine => self.close_command_line(),
            Action::CmdInsert(c) => self.cmdline.insert(c, &self.completions),
            Action::CmdBackspace => {
                if !self.cmdline.backspace(&self.completions) {
                    self.close_command_line();
                }
            },
            Action::CmdDeleteWord => self.cmdline.delete_word(&self.completions),
            Action::CmdLeft => self.cmdline.move_left(),
            Action::CmdRight => self.cmdline.move_right(),
            Action::CmdHome => self.cmdline.move_home(),
            Action::CmdEnd => self.cmdline.move_end(),
            Action::CmdSelectNext => self.cmdline.select_next(),
            Action::CmdSelectPrev => self.cmdline.select_prev(),
            _ => {
                self.cmdline.accept(&self.completions);
            },
        }
        self.dirty = true;
        Effects::nothing()
    }

    fn on_submit(&mut self, now: u64) -> (fx: Effects)
        requires
            old(self).wf(),
        ensures
            final(self).wf(),
            dispatch_post(*old(self), *final(self), Action::CmdSubmit, now, fx),
    {
        let mut fx = Effects::nothing();
        if let Some(line) = self.cmdline.submit(&self.completions) {
            self.close_command_line();
            fx = self.execute_line(line.as_str(), now);
        }
        self.dirty = true;
        fx
    }

    fn on_navigation(&mut self, action: Action) -> (fx: Effects)
        requires
            old(self).wf(),
            dispatch_ready(*old(self), action),
            match action {
                Action::Back | Action::ShowStats | Action::ShowHelp | Action::ScrollDown
                | Action::ScrollUp => true,
                _ => false,
            },
        ensures
            final(self).wf(),
            dispatch_post(*old(self), *final(self), action, 0, fx),
    {
        let mut fx = Effects::nothing();
        match action {
            Action::Back => {
                self.screen = self.previous_screen;
                self.scroll = 0;
            },
            Action::ShowStats => {
                self.push_screen(Screen::Stats);
                fx.refresh_summary = true;
            },
            Action::ShowHelp => self.push_screen(Screen::Help),
            Action::ScrollDown => {
                self.scroll = self.scroll + 1;
            },
            _ => {
                if self.scroll > 0 {
                    self.scroll = self.scroll - 1;
                }
            },
        }
        self.dirty = true;
        fx
    }

    fn on_housekeeping(&mut self, action: Action) -> (fx: Effects)
        requires
            old(self).wf(),
            match action {
                Action::Redraw | Action::Quit | Action::Restart | Action::FontBigger
                | Action::FontSmaller | Action::SliderDec | Action::SliderInc | Action::SliderMin
                | Action::SliderMax | Action::SliderConfirm | Action::SliderCancel => true,
                _ => false,
            },
        ensures
            final(self).wf(),
            dispatch_post(*old(self), *final(self), action, 0, fx),
    {
        let mut fx = Effects::nothing();
        match action {
            Action::Quit => {
                self.should_quit = true;
            },
            Action::Restart => {
                self.restart();
                fx.restarted = true;
            },
            Action::FontBigger => {
                self.config.font_size = font_step(self.config.font_size, true);
                fx.save_config = true;
            },
            Action::FontSmaller => {
                self.config.font_size = font_step(self.config.font_size, false);
                fx.save_config = true;
            },
            Action::Redraw => {},
            _ => {
                fx = self.on_slider(action);
            },
        }
        self.dirty = true;
        fx
    }

    fn on_slider(&mut self, action: Action) -> (fx: Effects)
        requires
            old(self).wf(),
            match action {
                Action::SliderDec | Action::SliderInc | Action::SliderMin | Action::SliderMax
                | Action::SliderConfirm | Action::SliderCancel => true,
                _ => false,
            },
        ensures
            final(self).wf(),
            dispatch_post(*old(self), *final(self), action, 0, fx),
    {
        self.dirty = true;
        let sl = match self.slider {
            Some(sl) => sl,
            None => return Effects::nothing(),
        };
        match action {
            Action::SliderDec => {
                self.slider = Some(sl.dec());
            },
            Action::SliderInc => {
                self.slider = Some(sl.inc());
            },
            Action::SliderMin => {
                self.slider = Some(Slider { target: sl.target, value: sl.min() });
            },
            Action::SliderMax => {
                self.slider = Some(Slider { target: sl.target, value: sl.max() });
            },
            Action::SliderConfirm => {
                sl.apply(&mut self.config);
                self.slider = None;
                return Effects {
                    finish_test: false,
                    save_config: true,
                    refresh_summary: false,
                    restarted: false,
                };
            },
            _ => {
                self.slider = None;
            },
        }
        Effects::nothing()
    }

    /// The settings to draw with: the open slider's value previews in place
    /// of its setting.
    pub fn shown_config(&self) -> (c: Config)
        ensures
            c@ == shown(*self),
    {
        let mut c = Config {
            theme: self.config.theme.clone(),
            language: self.config.language.clone(),
            mode: self.config.mode,
            punctuation: self.config.punctuation,
            numbers: self.config.numbers,
            font_size: self.config.font_size,
            words_per_line: self.config.words_per_line,
            zen: self.config.zen,
            font: self.config.font.clone(),
            graphics: self.config.graphics,
            results: self.config.results,
        };
        if let Some(sl) = self.slider {
            sl.apply(&mut c);
        }
        c
    }

    /// Applies one action at time `now` and says what outside work follows.
    pub fn dispatch(&mut self, action: Action, now: u64) -> (fx: Effects)
        requires
            old(self).wf(),
            dispatch_ready(*old(self), action),
        ensures
            final(self).wf(),
            dispatch_post(*old(self), *final(self), action, now, fx),
    {
        match action {
            Action::Nop => Effects::nothing(),
            Action::Tick => self.on_tick(now),
            Action::TypeChar(c) => self.on_type_char(c, now),
            Action::Backspace | Action::DeleteWord => self.on_engine_edit(action),
            Action::CmdSubmit => self.on_submit(now),
            Action::OpenCommandLine | Action::CloseCommandLine | Action::CmdInsert(_)
            | Action::CmdBackspace | Action::CmdDeleteWord | Action::CmdLeft | Action::CmdRight
            | Action::CmdHome | Action::CmdEnd | Action::CmdSelectNext | Action::CmdSelectPrev
            | Action::CmdAccept => self.on_command_line(action),
            Action::Back | Action::ShowStats | Action::ShowHelp | Action::ScrollDown
            | Action::ScrollUp => self.on_navigation(action),
            _ => self.on_housekeeping(action),
        }
    }
}


// ---------------------------------------------------------------------------
// Laws
// ---------------------------------------------------------------------------

/// Every change to the settings is written out immediately: a command
/// that changes the config asks for it to be saved.
pub proof fn law_config_changes_are_saved(s: Session, t: Session, cmd: CommandView, now: u64, fx: Effects)
    requires
        execute_post(s, t, cmd, now, fx),
    ensures
        t.config@ != s.config@ ==> fx.save_config,
{
}

/// The same, for every action.
pub proof fn law_dispatch_saves_changes(s: Session, t: Session, action: Action, now: u64, fx: Effects)
    requires
        dispatch_post(s, t, action, now, fx),
    ensures
        t.config@ != s.config@ ==> fx.save_config,
{
    if action == Action::CmdSubmit {
        let th = views(s.completions.themes@);
        let la = views(s.completions.languages@);
        let (after, line) = spec_submit(s.cmdline@, th, la);
        if let Some(l) = line {
            let m = Session { cmd_open: false, cmdline: t.cmdline, ..s };
            if let Ok(cmd) = spec_parse(l) {
                law_config_changes_are_saved(m, t, cmd, now, fx);
            }
        }
    }
}

/// Leaving stats or help returns to the typing or results screen they
/// were opened from, even when one was opened over the other.
pub proof fn law_back_returns_to_underlying_screen(
    s: Session,
    m: Session,
    t: Session,
    first: Action,
    now: u64,
    fx1: Effects,
    fx2: Effects,
)
    requires
        s.screen == Screen::Typing || s.screen == Screen::Results,
        first == Action::ShowStats || first == Action::ShowHelp,
        dispatch_post(s, m, first, now, fx1),
        dispatch_post(m, t, Action::Back, now, fx2),
    ensures
        t.screen == s.screen,
        t.scroll == 0,
{
}

/// An overlay opened over another still returns to the screen under both.
pub proof fn law_back_skips_stacked_overlay(
    s: Session,
    m1: Session,
    m2: Session,
    t: Session,
    now: u64,
    fx1: Effects,
    fx2: Effects,
    fx3: Effects,
)
    requires
        s.screen == Screen::Typing || s.screen == Screen::Results,
        dispatch_post(s, m1, Action::ShowStats, now, fx1),
        dispatch_post(m1, m2, Action::ShowHelp, now, fx2),
        dispatch_post(m2, t, Action::Back, now, fx3),
    ensures
        t.screen == s.screen,
{
}

/// Restarting gives a fresh test of the configured mode, drawn from the
/// configured language with the configured punctuation and numbers, on the
/// typing screen, and tells the loop to forget the last result.
pub proof fn law_restart_is_fresh(s: Session, t: Session, now: u64, fx: Effects)
    requires
        dispatch_post(s, t, Action::Restart, now, fx),
    ensures
        fresh_engine(t.engine@, s.config@.mode),
        drawn_for(t.engine, s.config@, s.languages@),
        t.screen == Screen::Typing,
        fx.restarted,
        t.config == s.config,
{
}

/// A slider previews without touching the settings: stepping it or
/// closing it with esc leaves them as they were (so nothing is saved), and
/// enter applies exactly the value the screen was showing and saves it.
pub proof fn law_slider_previews_until_confirmed(
    s: Session,
    t: Session,
    action: Action,
    now: u64,
    fx: Effects,
)
    requires
        s.slider is Some,
        dispatch_post(s, t, action, now, fx),
    ensures
        action == Action::SliderDec || action == Action::SliderInc || action == Action::SliderMin
            || action == Action::SliderMax ==> t.config == s.config && !fx.save_config && shown(t)
            == s.slider.unwrap().target.applied(s.config@, t.slider.unwrap().value),
        action == Action::SliderCancel ==> t.config == s.config && t.slider is None
            && !fx.save_config,
        action == Action::SliderConfirm ==> t.config@ == shown(s) && t.slider is None
            && fx.save_config,
{
}

/// A size command without a number opens the slider at the current value
/// and changes nothing; closing it again with esc leaves the settings as
/// they were.
pub proof fn law_slider_cancel_restores(
    s: Session,
    m: Session,
    t: Session,
    fs: bool,
    now: u64,
    fx1: Effects,
    fx2: Effects,
)
    requires
        execute_post(
            s,
            m,
            if fs {
                CommandView::FontSize(None)
            } else {
                CommandView::WordsPerLine(None)
            },
            now,
            fx1,
        ),
        dispatch_post(m, t, Action::SliderCancel, now, fx2),
    ensures
        m.config@ == s.config@,
        m.slider is Some,
        !fx1.save_config,
        t.config@ == s.config@,
        t.slider is None,
        !fx2.save_config,
{
}

/// The session's own theme (`--theme`) never reaches the settings: two
/// sessions that differ only in it end any action with the same settings
/// and the same request to save them.
pub proof fn law_theme_override_never_saved(
    s1: Session,
    s2: Session,
    t1: Session,
    t2: Session,
    action: Action,
    now: u64,
    fx1: Effects,
    fx2: Effects,
)
    requires
        s2 == (Session { theme_override: s2.theme_override, ..s1 }),
        dispatch_post(s1, t1, action, now, fx1),
        dispatch_post(s2, t2, action, now, fx2),
    ensures
        t1.config@ == t2.config@,
        fx1.save_config == fx2.save_config,
{
    if action == Action::CmdSubmit {
        let th = views(s1.completions.themes@);
        let la = views(s1.completions.languages@);
        let (after, line) = spec_submit(s1.cmdline@, th, la);
        if let Some(l) = line {
            if let Ok(cmd) = spec_parse(l) {
                lemma_execute_ignores_override(
                    Session { cmd_open: false, cmdline: t1.cmdline, ..s1 },
                    Session { cmd_open: false, cmdline: t2.cmdline, ..s2 },
                    t1,
                    t2,
                    cmd,
                    now,
                    fx1,
                    fx2,
                );
            }
        }
    }
}

proof fn lemma_execute_ignores_override(
    s1: Session,
    s2: Session,
    t1: Session,
    t2: Session,
    cmd: CommandView,
    now: u64,
    fx1: Effects,
    fx2: Effects,
)
    requires
        s1.config == s2.config,
        s1.themes == s2.themes,
        s1.languages == s2.languages,
        execute_post(s1, t1, cmd, now, fx1),
        execute_post(s2, t2, cmd, now, fx2),
    ensures
        t1.config@ == t2.config@,
        fx1.save_config == fx2.save_config,
{
}

/// ctrl+= then ctrl+- gives back the font size it started from whenever
/// there was room to grow (and the same for the other order and room to
/// shrink).
pub proof fn law_font_step_round_trip(
    s: Session,
    m: Session,
    t: Session,
    up_first: bool,
    now: u64,
    fx1: Effects,
    fx2: Effects,
)
    requires
        up_first ==> 1 <= s.config@.font_size < 5,
        !up_first ==> 1 < s.config@.font_size <= 5,
        dispatch_post(
            s,
            m,
            if up_first {
                Action::FontBigger
            } else {
                Action::FontSmaller
            },
            now,
            fx1,
        ),
        dispatch_post(
            m,
            t,
            if up_first {
                Action::FontSmaller
            } else {
                Action::FontBigger
            },
            now,
            fx2,
        ),
    ensures
        t.config@ == s.config@,
        fx1.save_config && fx2.save_config,
{
}

/// `zoom in` is the same command as a bare `zoom` or `zoom +`, and `zoom
/// out` the same as `zoom -`: the first steps the font size up and the
/// second down, within 1..=5.
pub proof fn law_zoom_in_and_out(zs: CommandSpec, size: u8)
    requires
        zs.name@ == "zoom"@,
    ensures
        spec_parse_args(zs, "in"@) == spec_parse_args(zs, Seq::empty()),
        spec_parse_args(zs, "in"@) == spec_parse_args(zs, "+"@),
        spec_parse_args(zs, "out"@) == spec_parse_args(zs, "-"@),
        spec_parse_args(zs, "in"@) matches Ok(CommandView::Zoom(a)) && (1 <= size < 5 ==> zoomed(a, size)
            == size + 1) && (size == 5 ==> zoomed(a, size) == 5),
        spec_parse_args(zs, "out"@) matches Ok(CommandView::Zoom(b)) && (1 < size <= 5 ==> zoomed(
            b,
            size,
        ) == size - 1) && (size == 1 ==> zoomed(b, size) == 1),
{
    reveal_strlit("zoom");
    reveal_strlit("in");
    reveal_strlit("out");
    reveal_strlit("+");
    reveal_strlit("-");
    reveal_strlit("time");
    reveal_strlit("words");
    reveal_strlit("language");
    reveal_strlit("theme");
    reveal_strlit("punctuation");
    reveal_strlit("numbers");
    reveal_strlit("zen");
    assert("zoom"@ != "time"@ && "zoom"@ != "words"@ && "zoom"@ != "language"@ && "zoom"@ != "theme"@
        && "zoom"@ != "punctuation"@ && "zoom"@ != "numbers"@) by {
        assert("zoom"@[0] == 'z');
    }
    assert("zoom"@ != "zen"@) by {
        assert("zoom"@.len() == 4);
    }
    assert("in"@ != "+"@ && "in"@ != "out"@ && "in"@ != "-"@) by {
        assert("in"@[0] == 'i');
    }
    assert("out"@ != "+"@ && "out"@ != "-"@ && "out"@ != "in"@) by {
        assert("out"@[0] == 'o');
    }
    assert("-"@ != "+"@ && "-"@ != "in"@) by {
        assert("-"@[0] == '-');
    }
    assert(Seq::<char>::empty() != "out"@ && Seq::<char>::empty() != "-"@);
}

/// A finished test is reported once: the action that finishes it asks for
/// its result to be recorded and shows the results screen.
pub proof fn law_finish_reported_once(s: Session, t: Session, c: char, now: u64, fx: Effects)
    requires
        dispatch_post(s, t, Action::TypeChar(c), now, fx),
    ensures
        fx.finish_test <==> (s.engine@.status != Status::Finished && t.engine@.status
            == Status::Finished),
        fx.finish_test ==> t.screen == Screen::Results,
        s.engine@.status == Status::Finished ==> !fx.finish_test,
{
}

} // verus!
