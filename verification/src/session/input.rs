//! Key event → Action mapping, per screen.

use vstd::prelude::*;

use super::action::Action;
use super::Screen;
use crate::test::engine::Status;

verus! {

/// The keys the app distinguishes (the terminal layer converts its own
/// key events into these).
#[derive(Debug, Clone, Copy, PartialEq, Eq, Structural)]
pub enum KeyCode {
    Char(char),
    Esc,
    Tab,
    BackTab,
    Enter,
    Backspace,
    Left,
    Right,
    Up,
    Down,
    Home,
    End,
    /// Any key the app has no use for.
    Other,
}

/// A key press or release with the modifiers that matter.
#[derive(Debug, Clone, Copy, PartialEq, Eq, Structural)]
pub struct KeyEvent {
    pub code: KeyCode,
    pub ctrl: bool,
    pub alt: bool,
    /// A key release (terminals that report them); releases do nothing.
    pub release: bool,
}

/// Context needed to interpret a key.
#[derive(Debug, Clone, Copy, PartialEq, Eq, Structural)]
pub struct InputContext {
    pub screen: Screen,
    pub command_line_open: bool,
    pub test_status: Status,
}

/// The keys on the typing screen.
pub open spec fn spec_map_typing(key: KeyEvent, status: Status) -> Action {
    let (ctrl, alt) = (key.ctrl, key.alt);
    match key.code {
        KeyCode::Esc => Action::OpenCommandLine,
        KeyCode::Tab => Action::Restart,
        KeyCode::Backspace => if ctrl || alt {
            Action::DeleteWord
        } else {
            Action::Backspace
        },
        KeyCode::Char(c) => if (c == 'w' || c == 'h') && ctrl {
            Action::DeleteWord
        } else if c == ':' && status != Status::Running {
            Action::OpenCommandLine
        } else if c == '?' && status != Status::Running {
            Action::ShowHelp
        } else if !ctrl && !alt {
            Action::TypeChar(c)
        } else {
            Action::Nop
        },
        _ => Action::Nop,
    }
}

/// The keys while the command line is open.
pub open spec fn spec_map_command_line(key: KeyEvent) -> Action {
    let (ctrl, alt) = (key.ctrl, key.alt);
    match key.code {
        KeyCode::Esc => Action::CloseCommandLine,
        KeyCode::Enter => Action::CmdSubmit,
        KeyCode::Tab => Action::CmdAccept,
        KeyCode::BackTab => Action::CmdSelectPrev,
        KeyCode::Down => Action::CmdSelectNext,
        KeyCode::Up => Action::CmdSelectPrev,
        KeyCode::Backspace => if ctrl || alt {
            Action::CmdDeleteWord
        } else {
            Action::CmdBackspace
        },
        KeyCode::Left => Action::CmdLeft,
        KeyCode::Right => Action::CmdRight,
        KeyCode::Home => Action::CmdHome,
        KeyCode::End => Action::CmdEnd,
        KeyCode::Char(c) => if ctrl && (c == 'n' || c == 'j') {
            Action::CmdSelectNext
        } else if ctrl && (c == 'p' || c == 'k') {
            Action::CmdSelectPrev
        } else if ctrl && (c == 'w' || c == 'h' || c == 'u') {
            Action::CmdDeleteWord
        } else if ctrl && c == 'a' {
            Action::CmdHome
        } else if ctrl && c == 'e' {
            Action::CmdEnd
        } else if !ctrl && !alt {
            Action::CmdInsert(c)
        } else {
            Action::Nop
        },
        KeyCode::Other => Action::Nop,
    }
}

/// The keys on the results screen.
pub open spec fn spec_map_results(key: KeyEvent) -> Action {
    match key.code {
        KeyCode::Tab | KeyCode::Enter => Action::Restart,
        KeyCode::Esc => Action::OpenCommandLine,
        KeyCode::Char(c) => if c == ':' {
            Action::OpenCommandLine
        } else if c == 's' {
            Action::ShowStats
        } else if c == '?' {
            Action::ShowHelp
        } else if c == 'q' {
            Action::Quit
        } else {
            Action::Nop
        },
        _ => Action::Nop,
    }
}

/// The keys on the stats and help screens.
pub open spec fn spec_map_overlay(key: KeyEvent) -> Action {
    match key.code {
        KeyCode::Esc | KeyCode::Tab | KeyCode::Enter => Action::Back,
        KeyCode::Down => Action::ScrollDown,
        KeyCode::Up => Action::ScrollUp,
        KeyCode::Char(c) => if c == 'q' {
            Action::Back
        } else if c == ':' {
            Action::OpenCommandLine
        } else if c == 'j' {
            Action::ScrollDown
        } else if c == 'k' {
            Action::ScrollUp
        } else if c == '?' {
            Action::ShowHelp
        } else {
            Action::Nop
        },
        _ => Action::Nop,
    }
}

/// What a key means: releases do nothing; ctrl+c quits, ctrl+l redraws and
/// ctrl+= / ctrl+- step the font size from anywhere; otherwise the command
/// line, when open, takes the key, else the current screen does.
pub open spec fn spec_map_key(key: KeyEvent, ctx: InputContext) -> Action {
    if key.release {
        Action::Nop
    } else if key.ctrl && key.code == KeyCode::Char('c') {
        Action::Quit
    } else if key.ctrl && key.code == KeyCode::Char('l') {
        Action::Redraw
    } else if key.ctrl && (key.code == KeyCode::Char('=') || key.code == KeyCode::Char('+')) {
        Action::FontBigger
    } else if key.ctrl && (key.code == KeyCode::Char('-') || key.code == KeyCode::Char('_')) {
        Action::FontSmaller
    } else if ctx.command_line_open {
        spec_map_command_line(key)
    } else {
        match ctx.screen {
            Screen::Typing => spec_map_typing(key, ctx.test_status),
            Screen::Results => spec_map_results(key),
            Screen::Stats | Screen::Help => spec_map_overlay(key),
        }
    }
}

fn map_typing(key: KeyEvent, status: Status) -> (a: Action)
    ensures
        a == spec_map_typing(key, status),
{
    let (ctrl, alt) = (key.ctrl, key.alt);
    match key.code {
        KeyCode::Esc => Action::OpenCommandLine,
        KeyCode::Tab => Action::Restart,
        // Backspace with ctrl/alt, ctrl+w and ctrl+h all delete a word:
        // terminals disagree on which one they send.
        KeyCode::Backspace => if ctrl || alt {
            Action::DeleteWord
        } else {
            Action::Backspace
        },
        KeyCode::Char(c) => if (c == 'w' || c == 'h') && ctrl {
            Action::DeleteWord
        } else if c == ':' && status != Status::Running {
            // `:` opens the command line only when it can't be test input.
            Action::OpenCommandLine
        } else if c == '?' && status != Status::Running {
            Action::ShowHelp
        } else if !ctrl && !alt {
            Action::TypeChar(c)
        } else {
            Action::Nop
        },
        _ => Action::Nop,
    }
}

fn map_command_line(key: KeyEvent) -> (a: Action)
    ensures
        a == spec_map_command_line(key),
{
    let (ctrl, alt) = (key.ctrl, key.alt);
    match key.code {
        KeyCode::Esc => Action::CloseCommandLine,
        KeyCode::Enter => Action::CmdSubmit,
        KeyCode::Tab => Action::CmdAccept,
        KeyCode::BackTab => Action::CmdSelectPrev,
        KeyCode::Down => Action::CmdSelectNext,
        KeyCode::Up => Action::CmdSelectPrev,
        KeyCode::Backspace => if ctrl || alt {
            Action::CmdDeleteWord
        } else {
            Action::CmdBackspace
        },
        KeyCode::Left => Action::CmdLeft,
        KeyCode::Right => Action::CmdRight,
        KeyCode::Home => Action::CmdHome,
        KeyCode::End => Action::CmdEnd,
        KeyCode::Char(c) => if ctrl && (c == 'n' || c == 'j') {
            Action::CmdSelectNext
        } else if ctrl && (c == 'p' || c == 'k') {
            Action::CmdSelectPrev
        } else if ctrl && (c == 'w' || c == 'h' || c == 'u') {
            Action::CmdDeleteWord
        } else if ctrl && c == 'a' {
            Action::CmdHome
        } else if ctrl && c == 'e' {
            Action::CmdEnd
        } else if !ctrl && !alt {
            Action::CmdInsert(c)
        } else {
            Action::Nop
        },
        KeyCode::Other => Action::Nop,
    }
}

fn map_results(key: KeyEvent) -> (a: Action)
    ensures
        a == spec_map_results(key),
{
    match key.code {
        KeyCode::Tab | KeyCode::Enter => Action::Restart,
        KeyCode::Esc => Action::OpenCommandLine,
        KeyCode::Char(c) => if c == ':' {
            Action::OpenCommandLine
        } else if c == 's' {
            Action::ShowStats
        } else if c == '?' {
            Action::ShowHelp
        } else if c == 'q' {
            Action::Quit
        } else {
            Action::Nop
        },
        _ => Action::Nop,
    }
}

fn map_overlay(key: KeyEvent) -> (a: Action)
    ensures
        a == spec_map_overlay(key),
{
    match key.code {
        KeyCode::Esc | KeyCode::Tab | KeyCode::Enter => Action::Back,
        KeyCode::Down => Action::ScrollDown,
        KeyCode::Up => Action::ScrollUp,
        KeyCode::Char(c) => if c == 'q' {
            Action::Back
        } else if c == ':' {
            Action::OpenCommandLine
        } else if c == 'j' {
            Action::ScrollDown
        } else if c == 'k' {
            Action::ScrollUp
        } else if c == '?' {
            Action::ShowHelp
        } else {
            Action::Nop
        },
        _ => Action::Nop,
    }
}

pub fn map_key(key: KeyEvent, ctx: InputContext) -> (a: Action)
    ensures
        a == spec_map_key(key, ctx),
{
    if key.release {
        return Action::Nop;
    }
    let ctrl = key.ctrl;
    if ctrl && key.code == KeyCode::Char('c') {
        return Action::Quit;
    }
    if ctrl && key.code == KeyCode::Char('l') {
        return Action::Redraw;
    }
    if ctrl && (key.code == KeyCode::Char('=') || key.code == KeyCode::Char('+')) {
        return Action::FontBigger;
    }
    if ctrl && (key.code == KeyCode::Char('-') || key.code == KeyCode::Char('_')) {
        return Action::FontSmaller;
    }
    if ctx.command_line_open {
        return map_command_line(key);
    }
    match ctx.screen {
        Screen::Typing => map_typing(key, ctx.test_status),
        Screen::Results => map_results(key),
        Screen::Stats | Screen::Help => map_overlay(key),
    }
}

/// The keys while a slider is open: left/right (or h/l) step, home/end
/// jump to the ends, enter applies, esc reverts; ctrl+c and ctrl+l keep
/// their meaning and everything else is ignored.
pub open spec fn spec_map_slider(key: KeyEvent) -> Action {
    if key.release {
        Action::Nop
    } else if key.ctrl && key.code == KeyCode::Char('c') {
        Action::Quit
    } else if key.ctrl && key.code == KeyCode::Char('l') {
        Action::Redraw
    } else if key.ctrl || key.alt {
        Action::Nop
    } else {
        match key.code {
            KeyCode::Left | KeyCode::Char('h') => Action::SliderDec,
            KeyCode::Right | KeyCode::Char('l') => Action::SliderInc,
            KeyCode::Home => Action::SliderMin,
            KeyCode::End => Action::SliderMax,
            KeyCode::Enter => Action::SliderConfirm,
            KeyCode::Esc => Action::SliderCancel,
            _ => Action::Nop,
        }
    }
}

pub fn map_slider_key(key: KeyEvent) -> (a: Action)
    ensures
        a == spec_map_slider(key),
{
    if key.release {
        return Action::Nop;
    }
    if key.ctrl && key.code == KeyCode::Char('c') {
        return Action::Quit;
    }
    if key.ctrl && key.code == KeyCode::Char('l') {
        return Action::Redraw;
    }
    if key.ctrl || key.alt {
        return Action::Nop;
    }
    match key.code {
        KeyCode::Left | KeyCode::Char('h') => Action::SliderDec,
        KeyCode::Right | KeyCode::Char('l') => Action::SliderInc,
        KeyCode::Home => Action::SliderMin,
        KeyCode::End => Action::SliderMax,
        KeyCode::Enter => Action::SliderConfirm,
        KeyCode::Esc => Action::SliderCancel,
        _ => Action::Nop,
    }
}

/// ctrl+c quits whatever the screen, and a key release never does
/// anything.
pub proof fn law_ctrl_c_quits(key: KeyEvent, ctx: InputContext)
    ensures
        !key.release && key.ctrl && key.code == KeyCode::Char('c') ==> spec_map_key(key, ctx)
            == Action::Quit,
        key.release ==> spec_map_key(key, ctx) == Action::Nop,
        !key.release && key.ctrl && key.code == KeyCode::Char('c') ==> spec_map_slider(key)
            == Action::Quit,
        key.release ==> spec_map_slider(key) == Action::Nop,
{
}

/// On the typing screen `:` opens the command line only while no test is
/// running; during a test it is typed like any other character.
pub proof fn law_colon_is_input_while_running(ctx: InputContext)
    requires
        ctx.screen == Screen::Typing,
        !ctx.command_line_open,
    ensures
        spec_map_key(KeyEvent { code: KeyCode::Char(':'), ctrl: false, alt: false, release: false }, ctx)
            == if ctx.test_status == Status::Running {
            Action::TypeChar(':')
        } else {
            Action::OpenCommandLine
        },
{
}

/// While the command line is open, every plain character goes into it.
pub proof fn law_command_line_captures_chars(c: char, ctx: InputContext)
    requires
        ctx.command_line_open,
    ensures
        spec_map_key(KeyEvent { code: KeyCode::Char(c), ctrl: false, alt: false, release: false }, ctx)
            == Action::CmdInsert(c),
{
}

} // verus!
