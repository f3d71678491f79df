use bambusa::{parse_input_method, BambooEngine, EngineFlags, Mode};

fn engine(im: &str) -> BambooEngine {
    BambooEngine::new(parse_input_method(im).unwrap(), EngineFlags::STD)
}

fn typed(im: &str, keys: &str) -> String {
    let mut e = engine(im);
    e.process_string(keys, Mode::VIETNAMESE);
    e.processed_string(Mode::VIETNAMESE)
}

#[test]
fn telex_words() {
    assert_eq!(typed("Telex", "tieesng"), "tiếng");
    assert_eq!(typed("Telex", "Vieejt"), "Việt");
    assert_eq!(typed("Telex", "nguoiwf"), "người");
    assert_eq!(typed("Telex", "chuyeenr"), "chuyển");
}

#[test]
fn vni_and_viqr() {
    assert_eq!(typed("VNI", "tie61ng"), "tiếng");
    assert_eq!(typed("VIQR", "tie^'ng"), "tiếng");
}

#[test]
fn remove_last_char_undoes_effects() {
    let mut e = engine("Telex");
    e.process_string("vieejt", Mode::VIETNAMESE);
    assert_eq!(e.processed_string(Mode::VIETNAMESE), "việt");
    e.remove_last_char(true);
    assert_eq!(e.processed_string(Mode::VIETNAMESE), "việ");
}

#[test]
fn restore_last_word_to_raw() {
    let mut e = engine("Telex");
    e.process_string("dddd", Mode::VIETNAMESE);
    e.restore_last_word(false);
    assert_eq!(e.processed_string(Mode::FULL_TEXT | Mode::ENGLISH), "dddd");
}

#[test]
fn english_mode_passes_through() {
    let mut e = engine("Telex");
    e.process_string("xin chao", Mode::ENGLISH);
    assert_eq!(e.processed_string(Mode::FULL_TEXT), "xin chao");
}

#[test]
fn restore_keeps_keystrokes_and_shows_them() {
    let mut e = engine("Telex 2");
    e.process_string("duwongj tooi", Mode::VIETNAMESE);
    let raw = e.processed_string(Mode::FULL_TEXT | Mode::ENGLISH);
    e.restore_last_word(false);
    assert_eq!(e.processed_string(Mode::FULL_TEXT | Mode::ENGLISH), raw);
    assert_eq!(e.processed_string(Mode::VIETNAMESE), "tooi");
    assert_eq!(e.processed_string(Mode::VIETNAMESE), e.processed_string(Mode::ENGLISH));
}

#[test]
fn reset_shows_nothing_and_keeps_the_method() {
    let mut e = engine("Telex");
    e.process_string("vieejt nam", Mode::VIETNAMESE);
    e.reset();
    assert_eq!(e.processed_string(Mode::VIETNAMESE), "");
    assert_eq!(e.processed_string(Mode::FULL_TEXT), "");
    assert_eq!(e.flags(), EngineFlags::STD);
    e.process_string("vieejt", Mode::VIETNAMESE);
    assert_eq!(e.processed_string(Mode::VIETNAMESE), "việt");
}

#[test]
fn ids_count_up_from_zero() {
    let mut g = bambusa::composition::IdGen::new();
    assert_eq!(g.next_id(), 0);
    assert_eq!(g.next_id(), 1);
    assert_eq!(g.next_id(), 2);
}

#[test]
fn concatenated_input_matches_two_calls() {
    let mut a = engine("Telex");
    a.process_string("xin chaof", Mode::VIETNAMESE);
    let mut b = engine("Telex");
    b.process_string("xin ", Mode::VIETNAMESE);
    b.process_string("chaof", Mode::VIETNAMESE);
    assert_eq!(a.processed_string(Mode::FULL_TEXT), b.processed_string(Mode::FULL_TEXT));
    assert_eq!(a.is_valid(true), b.is_valid(true));
}
