use ttyp::session::{map_key, Action, InputContext, KeyCode, KeyEvent, Screen};
use ttyp::test::Status;

fn key(code: KeyCode, ctrl: bool, alt: bool) -> KeyEvent {
    KeyEvent { code, ctrl, alt, release: false }
}

fn plain(code: KeyCode) -> KeyEvent {
    key(code, false, false)
}

fn ctx(screen: Screen, open: bool, status: Status) -> InputContext {
    InputContext { screen, command_line_open: open, test_status: status }
}

#[test]
fn colon_is_input_while_running() {
    let c = ctx(Screen::Typing, false, Status::Running);
    assert_eq!(map_key(plain(KeyCode::Char(':')), c), Action::TypeChar(':'));
    let c = ctx(Screen::Typing, false, Status::Idle);
    assert_eq!(map_key(plain(KeyCode::Char(':')), c), Action::OpenCommandLine);
}

#[test]
fn word_delete_variants() {
    let c = ctx(Screen::Typing, false, Status::Running);
    for k in [
        key(KeyCode::Backspace, true, false),
        key(KeyCode::Backspace, false, true),
        key(KeyCode::Char('w'), true, false),
    ] {
        assert_eq!(map_key(k, c), Action::DeleteWord);
    }
}

#[test]
fn command_line_captures_keys() {
    let c = ctx(Screen::Typing, true, Status::Running);
    assert_eq!(map_key(plain(KeyCode::Char('x')), c), Action::CmdInsert('x'));
    assert_eq!(map_key(plain(KeyCode::Enter), c), Action::CmdSubmit);
    assert_eq!(map_key(key(KeyCode::Char('c'), true, false), c), Action::Quit);
}

#[test]
fn global_keys_and_releases() {
    let c = ctx(Screen::Stats, false, Status::Idle);
    assert_eq!(map_key(key(KeyCode::Char('='), true, false), c), Action::FontBigger);
    assert_eq!(map_key(key(KeyCode::Char('-'), true, false), c), Action::FontSmaller);
    assert_eq!(map_key(key(KeyCode::Char('l'), true, false), c), Action::Redraw);
    let release = KeyEvent { code: KeyCode::Char('c'), ctrl: true, alt: false, release: true };
    assert_eq!(map_key(release, c), Action::Nop);
}

#[test]
fn screen_specific_keys() {
    let r = ctx(Screen::Results, false, Status::Finished);
    assert_eq!(map_key(plain(KeyCode::Tab), r), Action::Restart);
    assert_eq!(map_key(plain(KeyCode::Char('s')), r), Action::ShowStats);
    assert_eq!(map_key(plain(KeyCode::Char('q')), r), Action::Quit);
    let h = ctx(Screen::Help, false, Status::Idle);
    assert_eq!(map_key(plain(KeyCode::Char('j')), h), Action::ScrollDown);
    assert_eq!(map_key(plain(KeyCode::Up), h), Action::ScrollUp);
    assert_eq!(map_key(plain(KeyCode::Esc), h), Action::Back);
    let t = ctx(Screen::Typing, false, Status::Idle);
    assert_eq!(map_key(plain(KeyCode::Tab), t), Action::Restart);
    assert_eq!(map_key(plain(KeyCode::Esc), t), Action::OpenCommandLine);
    assert_eq!(map_key(plain(KeyCode::Char('?')), t), Action::ShowHelp);
    assert_eq!(map_key(key(KeyCode::Char('a'), false, true), t), Action::Nop);
    let o = ctx(Screen::Results, true, Status::Idle);
    assert_eq!(map_key(key(KeyCode::Char('p'), true, false), o), Action::CmdSelectPrev);
    assert_eq!(map_key(key(KeyCode::Char('u'), true, false), o), Action::CmdDeleteWord);
    assert_eq!(map_key(plain(KeyCode::BackTab), o), Action::CmdSelectPrev);
}
