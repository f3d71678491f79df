use bambusa::{EngineFlags, Mode};

#[test]
fn mode_bit_values() {
    assert_eq!(Mode::VIETNAMESE.bits(), 1);
    assert_eq!(Mode::ENGLISH.bits(), 2);
    assert_eq!(Mode::TONELESS.bits(), 4);
    assert_eq!(Mode::MARKLESS.bits(), 8);
    assert_eq!(Mode::LOWERCASE.bits(), 16);
    assert_eq!(Mode::FULL_TEXT.bits(), 32);
    assert_eq!(Mode::PUNCTUATION.bits(), 64);
    assert_eq!(Mode::IN_REVERSE_ORDER.bits(), 128);
}

#[test]
fn engine_flag_values() {
    assert_eq!(EngineFlags::FREE_TONE_MARKING.bits(), 1);
    assert_eq!(EngineFlags::STD_TONE_STYLE.bits(), 2);
    assert_eq!(EngineFlags::AUTO_CORRECT.bits(), 4);
    assert_eq!(EngineFlags::STD.bits(), 7);
}
