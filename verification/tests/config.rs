use ttyp::config::{Config, ConfigPatch, FontSize, Graphics, ResultsConfig, ResultsPatch};
use ttyp::test::Mode;

#[test]
fn font_size_ladder_is_gentle() {
    let rows: Vec<u16> = (1..=5).map(|l| FontSize::from_level(l).cell_dims().1).collect();
    assert_eq!(rows, vec![1, 2, 3, 4, 6]);
    assert_eq!(FontSize::from_level(2).cell_dims(), (2, 2));
    assert_eq!(FontSize::from_level(5).cell_dims(), (8, 6));
}

/// Reads the fields a settings file gives, the way the application's
/// file loader does, into a patch.
fn patch_from_toml(text: &str) -> ConfigPatch {
    let t: toml::Table = text.parse().unwrap();
    let s = |k: &str| t.get(k).and_then(|v| v.as_str()).map(str::to_string);
    let b = |k: &str| t.get(k).and_then(|v| v.as_bool());
    let mode = t.get("mode").and_then(|m| m.as_table()).map(|m| {
        if let Some(n) = m.get("words") {
            Mode::Words(n.as_integer().unwrap() as u16)
        } else {
            Mode::Time(m.get("time").unwrap().as_integer().unwrap() as u16)
        }
    });
    let results = t.get("results").and_then(|r| r.as_table()).map(|r| ResultsPatch {
        chart: r.get("chart").and_then(|v| v.as_bool()),
        char_breakdown: r.get("char_breakdown").and_then(|v| v.as_bool()),
        consistency: r.get("consistency").and_then(|v| v.as_bool()),
        raw: r.get("raw").and_then(|v| v.as_bool()),
    });
    ConfigPatch {
        theme: s("theme"),
        language: s("language"),
        mode,
        punctuation: b("punctuation"),
        numbers: b("numbers"),
        font_size: t.get("font_size").and_then(|v| v.as_integer()).map(|n| n as u8),
        words_per_line: t.get("words_per_line").and_then(|v| v.as_integer()).map(|n| n as u8),
        zen: b("zen"),
        font: s("font"),
        graphics: s("graphics").map(|g| Graphics::parse(&g).unwrap()),
        results,
    }
}

#[test]
fn empty_file_is_default() {
    assert_eq!(Config::from_patch(patch_from_toml("")), Config::default());
}

#[test]
fn partial_file_fills_defaults() {
    let c = Config::from_patch(patch_from_toml(
        "theme = \"nord\"\nmode = { words = 25 }\n[results]\nchart = false\n",
    ));
    assert_eq!(c.theme, "nord");
    assert_eq!(c.mode, Mode::Words(25));
    assert!(!c.results.chart);
    assert!(c.results.raw);
    assert_eq!(c.language, "english");
}

#[test]
fn set_generic() {
    let mut c = Config::default();
    c.set("results.chart", "off").unwrap();
    assert!(!c.results.chart);
    c.set("time", "15").unwrap();
    assert_eq!(c.mode, Mode::Time(15));
    assert!(c.set("bogus", "1").is_err());
    c.set("wpl", "10").unwrap();
    c.set("fontsize", "1").unwrap();
    assert_eq!(c.typing_width(), 60);
    c.set("fontsize", "3").unwrap();
    assert_eq!(c.typing_width(), 240);
    assert!(c.set("fontsize", "9").is_err());
    assert!(c.set("wpl", "2").is_err());
    assert!(c.set("numbers", "maybe").is_err());
    c.set("graphics", "off").unwrap();
    assert_eq!(c.graphics, Graphics::Off);
    assert!(c.set("graphics", "sixel").is_err());
}

#[test]
fn set_errors_name_the_problem_and_change_nothing() {
    let mut c = Config::default();
    let before = c.clone();
    assert_eq!(c.set("bogus", "1"), Err("unknown setting `bogus`".to_string()));
    assert_eq!(c.set("numbers", "maybe"), Err("expected on/off, got `maybe`".to_string()));
    assert_eq!(c.set("fontsize", "9"), Err("must be between 1 and 5".to_string()));
    assert_eq!(c.set("wpl", "x"), Err("expected a number 4-30, got `x`".to_string()));
    assert_eq!(c.set("time", "-1"), Err("bad seconds `-1`".to_string()));
    assert_eq!(c.set("words", "70000"), Err("bad count `70000`".to_string()));
    assert_eq!(c.set("results.bogus", "on"), Err("unknown results section `bogus`".to_string()));
    assert_eq!(c.set("graphics", "sixel"), Err("expected auto, kitty or off, got `sixel`".to_string()));
    assert_eq!(c, before);
}

#[test]
fn results_get_and_set_by_section() {
    let mut r = ResultsConfig::default();
    assert_eq!(r.get("breakdown"), Some(true));
    assert!(r.set("char_breakdown", false));
    assert_eq!(r.get("breakdown"), Some(false));
    assert!(!r.set("nope", false));
    assert_eq!(r.get("nope"), None);
    // Toggling twice restores the flags.
    let before = r.clone();
    let cur = r.get("raw").unwrap();
    r.set("raw", !cur);
    let cur = r.get("raw").unwrap();
    r.set("raw", !cur);
    assert_eq!(r, before);
}

#[test]
fn widths_and_graphics_labels() {
    let mut c = Config::default();
    assert_eq!(c.typing_width(), 13 * 6 * 2);
    assert_eq!(c.content_width(), 80);
    c.set_words_per_line(20);
    assert_eq!(c.content_width(), 120);
    c.set_words_per_line(99);
    assert_eq!(c.words_per_line, 30);
    c.set_font_size(0);
    assert_eq!(c.font_size, 1);
    assert_eq!(Graphics::parse("on"), Ok(Graphics::Kitty));
    assert_eq!(Graphics::parse("blocks"), Ok(Graphics::Off));
    assert_eq!(Graphics::Auto.label(), "auto");
    assert!(FontSize::from_level(1).is_native());
    assert!(!FontSize::from_level(2).is_native());
    assert_eq!(FontSize::from_level(9).level(), 5);
}

#[test]
fn patch_roundtrip() {
    let mut c = Config::default();
    c.punctuation = true;
    c.mode = ttyp::test::Mode::Time(60);
    c.theme = "nord".into();
    c.results.raw = false;
    let back = Config::from_patch(c.to_patch());
    assert_eq!(back, c);
}
