use bambusa::composition::{TransId, Transformation};
use bambusa::flatten::flatten;
use bambusa::{EffectType, Mode, Rule, Tone};

fn appending(id: TransId, key: char, upper: bool) -> Transformation {
    Transformation {
        id,
        rule: Rule { key, effect_type: EffectType::Appending, effect_on: key, result: key, ..Default::default() },
        target: None,
        is_upper_case: upper,
    }
}

fn tone(id: TransId, key: char, tone: Tone, target: TransId) -> Transformation {
    Transformation {
        id,
        rule: Rule { key, effect_type: EffectType::ToneTransformation, effect: tone.code(), ..Default::default() },
        target: Some(target),
        is_upper_case: false,
    }
}

fn text(comp: &[Transformation], mode: Mode) -> String {
    flatten(comp, mode).into_iter().collect()
}

#[test]
fn applies_tone_to_targeted_appender() {
    let comp = vec![appending(0, 'a', false), tone(1, 's', Tone::Acute, 0)];
    assert_eq!(text(&comp, Mode::VIETNAMESE), "á");
}

#[test]
fn english_mode_emits_raw_keys() {
    let comp = vec![appending(0, 'a', false), tone(1, 's', Tone::Acute, 0)];
    assert_eq!(text(&comp, Mode::ENGLISH), "as");
}

#[test]
fn uppercase_flag_capitalises() {
    let comp = vec![appending(0, 'a', true), tone(1, 's', Tone::Acute, 0)];
    assert_eq!(text(&comp, Mode::VIETNAMESE), "Á");
}

#[test]
fn toneless_strips_tone() {
    let comp = vec![appending(0, 'a', false), tone(1, 's', Tone::Acute, 0)];
    assert_eq!(text(&comp, Mode::VIETNAMESE | Mode::TONELESS), "a");
}
