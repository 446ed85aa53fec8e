use ttyp::gfx::detect::{detect_with, TermEnv};
use ttyp::gfx::fonts::{
    accept_match, bundled, family_matches, file_candidates, not_found, resolve_next, resolve_start, FontStep,
};
use ttyp::config::Graphics;

#[test]
fn family_match_ignores_case_and_spacing() {
    let fams = "JetBrainsMono Nerd Font,JetBrainsMono NF";
    assert!(family_matches("jetbrainsmono nerd font", fams));
    assert!(family_matches("JetBrainsMono-NF", fams));
    assert!(!family_matches("Fira Code", fams));
}

#[test]
fn bundled_names_match_loosely() {
    assert_eq!(bundled("fira code"), Some("Fira Code"));
    assert_eq!(bundled("CascadiaCode"), Some("Cascadia Code"));
    assert_eq!(bundled("Comic Sans"), None);
}

#[test]
fn font_file_candidates_try_each_extension() {
    let c = file_candidates("MyFont");
    assert!(c.contains(&"MyFont.ttf".to_string()));
    assert!(c.contains(&"MyFont.otf".to_string()));
    assert!(accept_match("Fira Code", "Fira Code,Fira Code Retina"));
    assert!(not_found("Nope").contains("Nope"));
}

fn env(term: &str, tmux: &str, program: &str, kitty: &str, ghostty: &str) -> TermEnv {
    TermEnv {
        term: term.into(),
        tmux: tmux.into(),
        term_program: program.into(),
        kitty_window_id: kitty.into(),
        ghostty_resources_dir: ghostty.into(),
    }
}

#[test]
fn graphics_detection() {
    assert!(!detect_with(Graphics::Off, &env("xterm-kitty", "", "", "", "")));
    assert!(detect_with(Graphics::Kitty, &env("screen", "x", "", "", "")));
    assert!(detect_with(Graphics::Auto, &env("xterm-kitty", "", "", "", "")));
    assert!(detect_with(Graphics::Auto, &env("xterm-256color", "", "GhosTTY", "", "")));
    assert!(detect_with(Graphics::Auto, &env("xterm-256color", "", "", "3", "")));
    assert!(!detect_with(Graphics::Auto, &env("xterm-kitty", "/tmp/tmux", "", "3", "")));
    assert!(!detect_with(Graphics::Auto, &env("screen-256color", "", "", "3", "")));
    assert!(!detect_with(Graphics::Auto, &env("xterm-256color", "", "ghost", "", "")));
}

#[test]
fn resolve_steps_follow_the_lookup_order() {
    assert_eq!(resolve_start(""), FontStep::AskMonospace);
    assert_eq!(resolve_next("", FontStep::AskMonospace, false, ""), FontStep::UseBundled("JetBrains Mono"));
    assert_eq!(resolve_next("", FontStep::AskMonospace, true, "DejaVu Sans Mono"), FontStep::UseFile);
    assert_eq!(resolve_start("fira"), FontStep::CheckPath);
    assert_eq!(resolve_next("fira", FontStep::CheckPath, true, ""), FontStep::UseFile);
    assert_eq!(resolve_next("fira", FontStep::CheckPath, false, ""), FontStep::CheckCandidate(0));
    assert_eq!(resolve_next("fira", FontStep::CheckCandidate(2), false, ""), FontStep::CheckCandidate(3));
    assert_eq!(
        resolve_next("jetbrains  mono", FontStep::CheckCandidate(3), false, ""),
        FontStep::UseBundled("JetBrains Mono")
    );
    assert_eq!(resolve_next("nope", FontStep::CheckCandidate(3), false, ""), FontStep::AskFontconfig);
    assert_eq!(resolve_next("nope", FontStep::AskFontconfig, true, "DejaVu Sans"), FontStep::NotFound);
    assert_eq!(resolve_next("Nope", FontStep::AskFontconfig, true, "nope"), FontStep::UseFile);
    assert_eq!(resolve_next("x:y", FontStep::AskFontconfig, true, "Other"), FontStep::UseFile);
    assert_eq!(resolve_next("nope", FontStep::AskFontconfig, false, ""), FontStep::NotFound);
    assert_eq!(resolve_next("nope", FontStep::NotFound, true, ""), FontStep::NotFound);
}
