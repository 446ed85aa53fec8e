use ttyp::language::{Language, LanguageError, LanguageRegistry};

#[test]
fn builtins_parse() {
    let reg = LanguageRegistry::builtin();
    assert_eq!(reg.get("english").unwrap().words.len(), 200);
    assert!(reg.get("english_1k").unwrap().words.len() > 900);
}

/// A language's fields as a file gives them, read the way the
/// application's loader does.
fn from_toml(text: &str) -> Result<Language, LanguageError> {
    let t: toml::Table = text.parse().unwrap();
    let name = t.get("name").and_then(|v| v.as_str()).unwrap().to_string();
    let display = t.get("display").and_then(|v| v.as_str()).unwrap_or("").to_string();
    let words = t
        .get("words")
        .and_then(|v| v.as_array())
        .unwrap()
        .iter()
        .map(|w| w.as_str().unwrap().to_string())
        .collect();
    Language::from_parts(name, display, words)
}

#[test]
fn empty_rejected() {
    assert!(from_toml("name = \"x\"\nwords = []").is_err());
}

#[test]
fn display_defaults_to_name() {
    let l = from_toml("name = \"x\"\nwords = [\"a\"]").unwrap();
    assert_eq!(l.display, "x");
}

#[test]
fn empty_error_names_the_language() {
    assert_eq!(
        Language::from_parts("x".into(), "X".into(), vec![]),
        Err(LanguageError::Empty("x".into()))
    );
    let l = Language::from_parts("x".into(), "Ex".into(), vec!["a".into()]).unwrap();
    assert_eq!(l.display, "Ex");
}

#[test]
fn user_language_overrides_and_falls_back() {
    let mut reg = LanguageRegistry::builtin();
    let l = Language::from_parts("english".into(), "".into(), vec!["zz".into()]).unwrap();
    reg.insert(l);
    assert_eq!(reg.get("english").unwrap().words, vec!["zz".to_string()]);
    assert_eq!(reg.get_or_default("klingon").name, "english");
    assert_eq!(reg.names(), vec!["english", "english_1k"]);
}

#[test]
fn builtin_display_names() {
    let reg = LanguageRegistry::builtin();
    assert_eq!(reg.get("english").unwrap().display, "English");
    assert_eq!(reg.get("english_1k").unwrap().display, "English 1k");
    assert_eq!(reg.get("english").unwrap().words[0], "the");
}
