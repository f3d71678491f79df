use bambusa::config::{Config, IBFlags, InputMode};
use bambusa::dict::Dictionary;
use bambusa::keysyms;
use bambusa::macros::MacroTable;
use bambusa::preedit::{offset_runes, Action, PreeditHandler};

fn handler() -> PreeditHandler {
    PreeditHandler::new(Config::default(), Dictionary::empty())
}

/// Drive a string of ASCII keysyms and return the actions for the last key.
fn type_keys(h: &mut PreeditHandler, keys: &str) -> Vec<Action> {
    let mut last = Vec::new();
    for c in keys.chars() {
        let (_, actions) = h.process_key_event(c as u32, 0, 0);
        last = actions;
    }
    last
}

fn preedit_of(actions: &[Action]) -> Option<&str> {
    actions.iter().find_map(|a| match a {
        Action::UpdatePreedit { text, .. } => Some(text.as_str()),
        _ => None,
    })
}

#[test]
fn composes_vietnamese_in_preedit() {
    let mut h = handler();
    let actions = type_keys(&mut h, "tieesng");
    assert_eq!(preedit_of(&actions), Some("tiếng"));
}

#[test]
fn commits_on_space() {
    let mut h = handler();
    type_keys(&mut h, "Vieejt");
    let (_, actions) = h.process_key_event(0x20, 0, 0); // space
    assert!(actions.iter().any(|a| matches!(a, Action::CommitText(s) if s == "Việt ")));
}

#[test]
fn backspace_edits_preedit() {
    let mut h = handler();
    type_keys(&mut h, "vieejt"); // việt
    let (_, actions) = h.process_key_event(keysyms::BACKSPACE, 0, 0);
    assert_eq!(preedit_of(&actions), Some("việ"));
}

#[test]
fn non_vietnamese_falls_back_to_english() {
    // "catr" is invalid (hook tone can't sit on a final stop consonant),
    // so auto-restore shows the raw keystrokes instead of a bad syllable.
    let mut h = handler();
    let actions = type_keys(&mut h, "catr");
    assert_eq!(preedit_of(&actions), Some("catr"));
}

#[test]
fn disabling_spell_check_keeps_the_composition() {
    // "tools" composes to the invalid "tôls"; with spell-check on it is
    // restored to the raw keystrokes, and with it off the composed form is
    // kept.
    let actions_on = type_keys(&mut handler(), "tools");
    assert_eq!(preedit_of(&actions_on), Some("tools"));

    let cfg = Config { ib_flags: IBFlags::STD.difference(IBFlags::SPELL_CHECK_ENABLED), ..Config::default() };
    let actions_off = type_keys(&mut PreeditHandler::new(cfg, Dictionary::empty()), "tools");
    assert_eq!(preedit_of(&actions_off), Some("tôls"));
}

#[test]
fn macro_expands_on_word_break() {
    let cfg = Config {
        ib_flags: (IBFlags::STD | IBFlags::MACRO_ENABLED).difference(IBFlags::AUTO_CAPITALIZE_MACRO),
        ..Config::default()
    };
    let mut h = PreeditHandler::new(cfg, Dictionary::empty());
    h.set_macros(MacroTable::from_pairs(&[("vn", "Vietnam")], false));
    type_keys(&mut h, "vn");
    let (_, actions) = h.process_key_event(0x20, 0, 0); // space triggers expansion
    assert!(actions.iter().any(|a| matches!(a, Action::CommitText(s) if s == "Vietnam ")));
}

#[test]
fn macro_auto_capitalizes_to_match_the_key() {
    let cfg = Config {
        ib_flags: IBFlags::STD | IBFlags::MACRO_ENABLED, // STD has AUTO_CAPITALIZE_MACRO
        ..Config::default()
    };
    let mut h = PreeditHandler::new(cfg, Dictionary::empty());
    h.set_macros(MacroTable::from_pairs(&[("vn", "Vietnam")], true));
    assert_eq!(h.expand_macro("vn"), "vietnam"); // all-lower key → lower
    assert_eq!(h.expand_macro("VN"), "VIETNAM"); // all-upper key → upper
    assert_eq!(h.expand_macro("Vn"), "Vietnam"); // mixed → unchanged
}

#[test]
fn offset_runes_computes_diff() {
    assert_eq!(offset_runes("á", "a"), ("á", 1));
    assert_eq!(offset_runes("tiếng ", "tiếng"), (" ", 0));
    assert_eq!(offset_runes("", "a"), ("", 1));
    assert_eq!(offset_runes("abc", "abc"), ("", 0));
}

#[test]
fn surrounding_text_rewrites_via_diff() {
    let cfg = Config { input_mode: InputMode::SurroundingText, ..Config::default() };
    let mut h = PreeditHandler::new(cfg, Dictionary::empty());
    // Telex: 'a' commits "a"; 's' (acute) deletes it and commits "á".
    let (_, a1) = h.process_key_event('a' as u32, 0, 0);
    let (_, a2) = h.process_key_event('s' as u32, 0, 0);
    assert!(a1.iter().any(|x| matches!(x, Action::CommitText(t) if t.as_str() == "a")));
    assert!(a2.iter().any(|x| matches!(x, Action::DeleteSurroundingText { nchars, .. } if *nchars == 1)));
    assert!(a2.iter().any(|x| matches!(x, Action::CommitText(t) if t.as_str() == "á")));
}
