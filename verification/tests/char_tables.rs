use bambusa::unicode_tables::{
    add_mark_to_char, add_tone_to_char, can_process_key, find_mark_from_char, find_tone_from_char,
    get_mark_family, is_vietnamese_rune, is_vowel, is_word_break_symbol, vowel_char, VOWEL_COUNT,
};
use bambusa::{has_any_vietnamese_rune, Mark, Tone};

#[test]
fn tone_arithmetic_stays_in_vowel_group() {
    // á (acute a) -> strip tone -> a -> add grave -> à
    assert_eq!(add_tone_to_char('á', 0), 'a');
    assert_eq!(add_tone_to_char('a', Tone::Grave as u8), 'à');
    assert_eq!(find_tone_from_char('ả'), Tone::Hook);
    assert_eq!(find_tone_from_char('z'), Tone::NoTone);
}

#[test]
fn mark_arithmetic_preserves_tone() {
    // add hat to 'a' -> 'â'; adding to a toned vowel keeps the tone.
    assert_eq!(add_mark_to_char('a', Mark::Hat as u8), 'â');
    assert_eq!(add_mark_to_char('á', Mark::Hat as u8), 'ấ');
    assert_eq!(add_mark_to_char('o', Mark::Horn as u8), 'ơ');
    assert_eq!(add_mark_to_char('d', Mark::Dash as u8), 'đ');
}

#[test]
fn mark_lookup() {
    assert_eq!(find_mark_from_char('â'), Some(Mark::Hat));
    assert_eq!(find_mark_from_char('ơ'), Some(Mark::Horn));
    assert_eq!(find_mark_from_char('đ'), Some(Mark::Dash));
    assert_eq!(find_mark_from_char('a'), Some(Mark::NoMark));
    assert_eq!(find_mark_from_char('z'), None);
    assert_eq!(get_mark_family('o'), vec!['o', 'ô', 'ơ']);
}

#[test]
fn vietnamese_rune_detection() {
    assert!(is_vietnamese_rune('â'));
    assert!(is_vietnamese_rune('đ'));
    assert!(is_vietnamese_rune('ạ'));
    assert!(!is_vietnamese_rune('a'));
    assert!(!is_vietnamese_rune('d'));
    assert!(has_any_vietnamese_rune("việt"));
    assert!(!has_any_vietnamese_rune("viet"));
}

#[test]
fn word_break_and_processable() {
    assert!(is_word_break_symbol('5'));
    assert!(is_word_break_symbol('.'));
    assert!(!is_word_break_symbol('a'));
    assert!(can_process_key('a', &[]));
    assert!(!can_process_key('5', &[]));
}

#[test]
fn every_vowel_is_a_vowel() {
    assert!(is_vowel('a'));
    assert!(is_vowel('á'));
    assert!(!is_vowel('b'));
    for i in 0..VOWEL_COUNT {
        let v = vowel_char(i);
        assert!(is_vowel(v), "{v} should be a vowel");
    }
}

#[test]
fn tone_from_char_each_tone() {
    assert_eq!(find_tone_from_char('e'), Tone::NoTone);
    assert_eq!(find_tone_from_char('è'), Tone::Grave);
    assert_eq!(find_tone_from_char('é'), Tone::Acute);
    assert_eq!(find_tone_from_char('ẽ'), Tone::Tilde);
    assert_eq!(find_tone_from_char('ẻ'), Tone::Hook);
    assert_eq!(find_tone_from_char('ạ'), Tone::Dot);
}

#[test]
fn tone_and_mark_identities() {
    assert_eq!(add_tone_to_char('a', Tone::Dot as u8), 'ạ');
    assert_eq!(add_tone_to_char('y', 0), 'y');
    assert_eq!(add_mark_to_char('y', 0), 'y');
    assert_eq!(add_mark_to_char('ạ', Mark::Breve as u8), 'ặ');
}

#[test]
fn whitespace_agrees_with_std_everywhere() {
    for u in 0u32..=0x10FFFF {
        if let Some(c) = char::from_u32(u) {
            assert_eq!(bambusa::text::is_whitespace(c), c.is_whitespace(), "U+{u:04X}");
        }
    }
}
