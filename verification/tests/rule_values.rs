use bambusa::rules::OutOfRange;
use bambusa::{EffectType, Mark, Rule, Tone};

#[test]
fn enum_discriminants() {
    assert_eq!(EffectType::Appending as u8, 0);
    assert_eq!(EffectType::MarkTransformation as u8, 1);
    assert_eq!(EffectType::ToneTransformation as u8, 2);
    assert_eq!(EffectType::Replacing as u8, 3);

    assert_eq!(Mark::NoMark as u8, 0);
    assert_eq!(Mark::Raw as u8, 5);
    assert_eq!(Tone::NoTone as u8, 0);
    assert_eq!(Tone::Dot as u8, 5);
}

#[test]
fn tone_mark_roundtrip() {
    for v in 0u8..=5 {
        assert_eq!(Tone::try_from(v).unwrap() as u8, v);
        assert_eq!(Mark::try_from(v).unwrap() as u8, v);
    }
    assert_eq!(Tone::try_from(6), Err(OutOfRange(6)));
    assert_eq!(Mark::try_from(6), Err(OutOfRange(6)));
}

#[test]
fn rule_effect_accessors() {
    let mut r = Rule::default();
    r.set_tone(Tone::Acute);
    assert_eq!(r.tone(), Tone::Acute);
    r.set_mark(Mark::Horn);
    assert_eq!(r.mark(), Mark::Horn);
}
