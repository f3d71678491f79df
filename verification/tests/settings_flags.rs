use bambusa::config::{Config, IBFlags, InputMode, StoredSettings};

#[test]
fn xtest_mode_is_remapped() {
    assert_eq!(InputMode::from_stored(6), InputMode::BackspaceForwarding);
    assert_eq!(InputMode::from_stored(1), InputMode::Preedit);
    assert_eq!(InputMode::from_stored(99), InputMode::Preedit);
}

#[test]
fn std_flags_bits() {
    let expected = (1 << 4) | (1 << 8) | (1 << 5) | (1 << 6) | (1 << 15) | (1 << 7) | (1 << 20);
    assert_eq!(IBFlags::STD.bits(), expected);
}

fn stored(modern: bool) -> StoredSettings {
    StoredSettings {
        output_charset: "Unicode".to_string(),
        input_mode: 2,
        free_tone_marking: true,
        modern_tone_style: modern,
        spell_check: true,
        spell_check_rules: false,
        spell_check_dicts: false,
        auto_restore_non_vn: false,
        dd_free_style: false,
        hide_underline: false,
        macros_enabled: true,
        auto_capitalize_macros: false,
        workaround_fb_messenger: false,
        macros: vec!["vn:Việt Nam".to_string(), "broken".to_string()],
    }
}

#[test]
fn settings_map_to_config() {
    let c = Config::from_settings(stored(true));
    assert_eq!(c.input_method, "Telex");
    assert_eq!(c.output_charset, "Unicode");
    assert_eq!(c.engine_flags.bits(), 1);
    assert_eq!(c.ib_flags.bits(), 16 | 2);
    assert_eq!(c.input_mode, InputMode::SurroundingText);
    assert_eq!(c.shortcuts, [1, 126, 0, 0, 0, 0, 0, 0, 5, 117]);
    assert_eq!(c.macros, vec![("vn".to_string(), "Việt Nam".to_string())]);
    assert!(c.ib_flags.contains(IBFlags::MACRO_ENABLED));
}

#[test]
fn old_tone_style_when_modern_is_off() {
    let c = Config::from_settings(stored(false));
    assert_eq!(c.engine_flags.bits(), 1 | 2);
}
