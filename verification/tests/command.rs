use ttyp::command::palette::{CommandLine, Completions, Stage, MAX_SUGGESTIONS};
use ttyp::command::{arg_candidates, commands, find_spec, parse, ArgKind, Command, ZoomArg};

#[test]
fn parses_commands_and_aliases() {
    assert_eq!(parse("time 30"), Ok(Command::Time(30)));
    assert_eq!(parse("t 15"), Ok(Command::Time(15)));
    assert_eq!(parse("w 25"), Ok(Command::Words(25)));
    assert_eq!(parse("lang english_1k"), Ok(Command::Language("english_1k".into())));
    assert_eq!(parse("th nord"), Ok(Command::Theme("nord".into())));
    assert_eq!(parse("punc"), Ok(Command::Punctuation(None)));
    assert_eq!(parse("numbers off"), Ok(Command::Numbers(Some(false))));
    assert_eq!(parse("q"), Ok(Command::Quit));
    assert_eq!(parse("zoom"), Ok(Command::Zoom(ZoomArg::In)));
    assert_eq!(parse("z out"), Ok(Command::Zoom(ZoomArg::Out)));
    assert_eq!(parse("zoom 4"), Ok(Command::Zoom(ZoomArg::Level(4))));
    assert!(parse("zoom 9").is_err());
    assert_eq!(parse("zen"), Ok(Command::Zen(None)));
    assert_eq!(
        parse("results chart off"),
        Ok(Command::Results { section: "chart".into(), value: Some(false) })
    );
    assert_eq!(
        parse("set results.raw on"),
        Ok(Command::SetKey { key: "results.raw".into(), value: "on".into() })
    );
}

#[test]
fn rejects_bad_input() {
    assert!(parse("time").is_err());
    assert!(parse("time abc").is_err());
    assert!(parse("time 0").is_err());
    assert!(parse("nope").is_err());
    assert!(parse("results bogus").is_err());
    assert!(parse("set onlykey").is_err());
    assert!(parse("").is_err());
}

#[test]
fn specs_are_unique() {
    let mut names: Vec<&str> = commands()
        .iter()
        .flat_map(|c| std::iter::once(c.name).chain(c.aliases.iter().copied()))
        .collect();
    let n = names.len();
    names.sort_unstable();
    names.dedup();
    assert_eq!(n, names.len());
}

#[test]
fn parse_error_messages() {
    assert_eq!(parse(""), Err(String::new()));
    assert_eq!(parse("   "), Err(String::new()));
    assert_eq!(parse("nope"), Err("unknown command `nope`".to_string()));
    assert_eq!(parse("time"), Err("usage: time <seconds>".to_string()));
    assert_eq!(parse("time abc"), Err("bad seconds `abc`".to_string()));
    assert_eq!(parse("words 0"), Err("bad count `0`".to_string()));
    assert_eq!(parse("numbers maybe"), Err("expected on/off, got `maybe`".to_string()));
    assert_eq!(parse("zoom 9"), Err("usage: zoom [in|out|0-4]".to_string()));
    assert_eq!(
        parse("results bogus"),
        Err("unknown section `bogus` (one of chart, breakdown, consistency, raw)".to_string())
    );
    assert_eq!(parse("set onlykey"), Err("usage: set <key> <value>".to_string()));
}

#[test]
fn parse_trims_and_keeps_arguments_whole() {
    assert_eq!(parse("  theme   rose-pine  "), Ok(Command::Theme("rose-pine".into())));
    assert_eq!(parse("time +30"), Ok(Command::Time(30)));
    assert_eq!(parse("z +"), Ok(Command::Zoom(ZoomArg::In)));
    assert_eq!(parse("zoom -"), Ok(Command::Zoom(ZoomArg::Out)));
    assert_eq!(
        parse("results breakdown"),
        Ok(Command::Results { section: "breakdown".into(), value: None })
    );
    assert_eq!(
        parse("set font  Fira   Code "),
        Ok(Command::SetKey { key: "font".into(), value: "Fira   Code".into() })
    );
    assert_eq!(parse("exit"), Ok(Command::Quit));
    assert_eq!(parse("?"), Ok(Command::Help));
}

#[test]
fn find_spec_by_name_and_alias() {
    assert_eq!(find_spec("lang").unwrap().name, "language");
    assert_eq!(find_spec("language").unwrap().name, "language");
    assert_eq!(find_spec("res").unwrap().name, "results");
    assert!(find_spec("bogus").is_none());
    assert!(find_spec("").is_none());
}

#[test]
fn candidates_per_kind() {
    let themes = vec!["default".to_string(), "nord".to_string()];
    let langs = vec!["english".to_string()];
    assert_eq!(arg_candidates(ArgKind::Themes, &themes, &langs), themes);
    assert_eq!(arg_candidates(ArgKind::Languages, &themes, &langs), langs);
    assert_eq!(arg_candidates(ArgKind::TimePresets, &themes, &langs), vec!["15", "30", "60", "120"]);
    assert_eq!(arg_candidates(ArgKind::WordPresets, &themes, &langs), vec!["10", "25", "50", "100"]);
    assert_eq!(arg_candidates(ArgKind::OnOff, &themes, &langs), vec!["on", "off"]);
    assert_eq!(
        arg_candidates(ArgKind::ZoomArgs, &themes, &langs),
        vec!["in", "out", "0", "1", "2", "3", "4"]
    );
    assert_eq!(
        arg_candidates(ArgKind::ResultSections, &themes, &langs),
        vec!["chart", "breakdown", "consistency", "raw"]
    );
    assert!(arg_candidates(ArgKind::Free, &themes, &langs).is_empty());
    assert!(arg_candidates(ArgKind::NoArg, &themes, &langs).is_empty());
    assert!(ArgKind::TimePresets.accepts_free_text());
    assert!(!ArgKind::Themes.accepts_free_text());
}

fn comps() -> Completions {
    Completions {
        themes: vec!["default".into(), "gruvbox".into(), "nord".into()],
        languages: vec!["english".into(), "english_1k".into()],
        fonts: vec![],
    }
}

fn type_in(cl: &mut CommandLine, s: &str) {
    for c in s.chars() {
        cl.insert(c, &comps());
    }
}

#[test]
fn empty_lists_all_commands() {
    let mut cl = CommandLine::new();
    cl.open(&comps());
    assert_eq!(cl.suggestions.len(), MAX_SUGGESTIONS);
    assert_eq!(cl.stage(), Stage::Command);
}

#[test]
fn fuzzy_command_then_arg_completion() {
    let mut cl = CommandLine::new();
    cl.open(&comps());
    type_in(&mut cl, "thm");
    assert_eq!(cl.selected().unwrap().label, "theme");
    assert!(cl.accept(&comps()));
    assert_eq!(cl.input, "theme ");
    assert_eq!(cl.stage(), Stage::Arg(ArgKind::Themes));
    assert_eq!(cl.suggestions.len(), 3);
    type_in(&mut cl, "gb");
    assert_eq!(cl.selected().unwrap().label, "gruvbox");
    assert_eq!(cl.preview_theme(), Some("gruvbox"));
    assert_eq!(cl.submit(&comps()), Some("theme gruvbox".into()));
}

#[test]
fn enter_on_arg_command_completes_instead_of_running() {
    let mut cl = CommandLine::new();
    cl.open(&comps());
    type_in(&mut cl, "time");
    assert_eq!(cl.submit(&comps()), None);
    assert_eq!(cl.input, "time ");
    type_in(&mut cl, "6");
    assert_eq!(cl.submit(&comps()), Some("time 6".into()));
    assert!(cl.accept(&comps()));
    assert_eq!(cl.submit(&comps()), Some("time 60".into()));
}

#[test]
fn typed_arg_wins_over_fuzzy_match() {
    let mut cl = CommandLine::new();
    cl.open(&comps());
    type_in(&mut cl, "t 3");
    assert_eq!(cl.selected().unwrap().label, "30");
    assert_eq!(cl.submit(&comps()), Some("t 3".into()));
    let mut cl = CommandLine::new();
    cl.open(&comps());
    type_in(&mut cl, "theme GRUV");
    assert_eq!(cl.submit(&comps()), Some("theme gruvbox".into()));
}

#[test]
fn enter_on_plain_command_runs() {
    let mut cl = CommandLine::new();
    cl.open(&comps());
    type_in(&mut cl, "q");
    assert_eq!(cl.submit(&comps()), Some("quit".into()));
}

#[test]
fn free_text_submits_verbatim() {
    let mut cl = CommandLine::new();
    cl.open(&comps());
    type_in(&mut cl, "set results.chart off");
    assert!(cl.suggestions.is_empty());
    assert_eq!(cl.submit(&comps()), Some("set results.chart off".into()));
}

#[test]
fn editing_keys() {
    let mut cl = CommandLine::new();
    cl.open(&comps());
    type_in(&mut cl, "theme nord");
    cl.delete_word(&comps());
    assert_eq!(cl.input, "theme ");
    cl.move_home();
    cl.insert('x', &comps());
    assert_eq!(cl.input, "xtheme ");
    assert!(cl.backspace(&comps()));
    assert_eq!(cl.input, "theme ");
    cl.move_end();
    assert_eq!(cl.cursor, 6);
}

#[test]
fn selection_wraps_both_ways() {
    let mut cl = CommandLine::new();
    cl.open(&comps());
    type_in(&mut cl, "theme ");
    assert_eq!(cl.suggestions.len(), 3);
    assert_eq!(cl.selected, 0);
    cl.select_prev();
    assert_eq!(cl.selected, 2);
    cl.select_next();
    assert_eq!(cl.selected, 0);
    cl.select_next();
    assert_eq!(cl.selected, 1);
}

#[test]
fn ranking_ties_sort_by_label_and_cap_at_eight() {
    let mut cl = CommandLine::new();
    cl.open(&comps());
    // An empty needle scores every command equally: the first eight by name.
    let labels: Vec<&str> = cl.suggestions.iter().map(|s| s.label.as_str()).collect();
    assert_eq!(
        labels,
        vec!["fontsize", "help", "language", "numbers", "punctuation", "quit", "restart", "results"]
    );
    let quit = cl.suggestions.iter().find(|s| s.label == "quit").unwrap();
    assert_eq!(quit.completion, "quit");
    assert_eq!(quit.detail, "exit ttyp");
    let fs = cl.suggestions.iter().find(|s| s.label == "fontsize").unwrap();
    assert_eq!(fs.completion, "fontsize ");
}

#[test]
fn unknown_command_has_no_argument_suggestions() {
    let mut cl = CommandLine::new();
    cl.open(&comps());
    type_in(&mut cl, "bogus x");
    assert!(cl.suggestions.is_empty());
    assert_eq!(cl.stage(), Stage::Command);
    assert_eq!(cl.submit(&comps()), Some("bogus x".into()));
}

#[test]
fn backspace_at_start_reports_nothing_deleted() {
    let mut cl = CommandLine::new();
    cl.open(&comps());
    assert!(!cl.backspace(&comps()));
    type_in(&mut cl, "ab");
    cl.move_left();
    cl.move_left();
    cl.move_left();
    assert_eq!(cl.cursor, 0);
    assert!(!cl.backspace(&comps()));
    cl.move_right();
    assert!(cl.backspace(&comps()));
    assert_eq!(cl.input, "b");
    cl.clear();
    assert_eq!(cl.input, "");
    assert!(cl.suggestions.is_empty());
}

#[test]
fn size_commands_take_a_number_or_open_the_slider() {
    assert_eq!(parse("fontsize"), Ok(Command::FontSize(None)));
    assert_eq!(parse("fs 3"), Ok(Command::FontSize(Some(3))));
    assert_eq!(parse("font 5"), Ok(Command::FontSize(Some(5))));
    assert_eq!(parse("fontsize 9"), Err("must be between 1 and 5".to_string()));
    assert_eq!(parse("fontsize big"), Err("expected a number 1-5, got `big`".to_string()));
    assert_eq!(parse("wordsperline"), Ok(Command::WordsPerLine(None)));
    assert_eq!(parse("wpl 20"), Ok(Command::WordsPerLine(Some(20))));
    assert_eq!(parse("width 30"), Ok(Command::WordsPerLine(Some(30))));
    assert_eq!(parse("width 3"), Err("must be between 4 and 30".to_string()));
    let spec = find_spec("wpl").unwrap();
    assert_eq!(spec.name, "wordsperline");
    assert!(!spec.requires_arg);
}
