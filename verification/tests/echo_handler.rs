use bambusa::preedit::{Action, EchoHandler};

#[test]
fn echo_commits_typed_char() {
    let mut h = EchoHandler;
    let (handled, actions) = h.process_key_event(0x61, 0, 0); // keysym 'a'
    assert!(handled);
    assert!(matches!(&actions[..], [Action::CommitText(s)] if s == "a"));
}

#[test]
fn echo_ignores_non_graphic() {
    let mut h = EchoHandler;
    let (handled, actions) = h.process_key_event(0xff08, 0, 0); // BackSpace keysym
    assert!(!handled);
    assert!(actions.is_empty());
}

#[test]
fn default_methods_are_noops() {
    let mut h = EchoHandler;
    assert!(h.focus_in().is_empty());
    assert!(h.reset().is_empty());
    assert!(h.set_surrounding_text("x".into(), 0, 0).is_empty());
}
