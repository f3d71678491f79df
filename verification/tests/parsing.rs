use bambusa::parser::{get_appending_rule, parse_rules, parse_toneless_rules};
use bambusa::{EffectType, Mark, Tone};

#[test]
fn tone_line_yields_single_tone_rule() {
    let rules = parse_rules('s', "DấuSắc");
    assert_eq!(rules.len(), 1);
    assert_eq!(rules[0].effect_type, EffectType::ToneTransformation);
    assert_eq!(rules[0].tone(), Tone::Acute);
    assert_eq!(rules[0].key, 's');
}

#[test]
fn mark_line_maps_vowel_across_tones() {
    // Telex "a": A_Â -> 'a' adds hat, including a toggle-off rule.
    let rules = parse_rules('a', "A_Â");
    assert!(rules.iter().all(|r| r.effect_type == EffectType::MarkTransformation));
    // a -> â among the generated mappings.
    assert!(rules.iter().any(|r| r.effect_on == 'a' && r.result == 'â' && r.mark() == Mark::Hat));
    // toggle: â -> a with no mark.
    assert!(rules.iter().any(|r| r.effect_on == 'â' && r.result == 'a' && r.effect == 0));
}

#[test]
fn appending_clause_preserves_case() {
    // Microsoft "!": "_Ă" appends a capital Ă (else-branch keeps case).
    let rules = parse_rules('!', "_Ă");
    assert_eq!(rules.len(), 1);
    assert_eq!(rules[0].effect_type, EffectType::Appending);
    assert_eq!(rules[0].result, 'Ă');
    // "__ă" stays lowercase.
    let lower = parse_rules('1', "__ă");
    assert_eq!(lower[0].result, 'ă');
}

#[test]
fn trailing_append_clause_is_captured() {
    // Telex W "w": UOA_ƯƠĂ__Ư -> mark rules plus an appending 'ư'.
    let rules = parse_rules('w', "UOA_ƯƠĂ__Ư");
    assert!(rules.iter().any(|r| r.effect_type == EffectType::Appending && r.result == 'ư'));
    assert!(rules.iter().any(|r| r.effect_on == 'u' && r.result == 'ư' && r.mark() == Mark::Horn));
}

#[test]
fn tone_rules() {
    let rules = parse_rules('z', "XoáDấuThanh");
    assert_eq!(rules.len(), 1);
    assert_eq!(rules[0].effect_type, EffectType::ToneTransformation);
    assert_eq!(rules[0].tone(), Tone::NoTone);

    let rules = parse_rules('x', "DấuNgã");
    assert_eq!(rules.len(), 1);
    assert_eq!(rules[0].effect_type, EffectType::ToneTransformation);
    assert_eq!(rules[0].tone(), Tone::Tilde);
}

#[test]
fn toneless_dd_and_append() {
    let rules = parse_toneless_rules('d', "D_Đ");
    assert_eq!(rules.len(), 2);
    assert_eq!(rules[0].effect_type, EffectType::MarkTransformation);
    assert_eq!(rules[0].mark(), Mark::Dash);
    assert_eq!(rules[0].effect_on, 'd');

    let rules = parse_toneless_rules('{', "_Ư");
    assert_eq!(rules.len(), 1);
    assert_eq!(rules[0].effect_type, EffectType::Appending);
    assert_eq!(rules[0].effect_on, 'Ư');
}

#[test]
fn uoa_rule_layout() {
    let rules = parse_toneless_rules('w', "UOA_ƯƠĂ");
    assert_eq!(rules.len(), 33);
    assert_eq!(rules[0].mark(), Mark::Horn);
    assert_eq!(rules[0].effect_on, 'u');
    assert_eq!(rules[7].mark(), Mark::Horn);
    assert_eq!(rules[7].effect_on, 'o');
    assert_eq!(rules[20].mark(), Mark::Breve);
    assert_eq!(rules[20].effect_on, 'a');

    let rules = parse_toneless_rules('w', "UOA_ƯƠĂ__Ư");
    assert_eq!(rules.len(), 34);
    assert_eq!(rules[20].mark(), Mark::Breve);
    assert_eq!(rules[20].effect_on, 'a');
    assert_eq!(rules[33].effect_type, EffectType::Appending);
    assert_eq!(rules[33].effect_on, 'ư');
}

#[test]
fn nested_appended_rules() {
    let rules = parse_toneless_rules('[', "__ươ");
    assert_eq!(rules.len(), 1);
    assert_eq!(rules[0].appended_rules.len(), 1);
    assert_eq!(rules[0].appended_rules[0].effect_type, EffectType::Appending);
    assert_eq!(rules[0].appended_rules[0].effect_on, 'ơ');

    let rules = parse_toneless_rules('{', "__ƯƠ");
    assert_eq!(rules.len(), 1);
    assert_eq!(rules[0].appended_rules.len(), 1);
    assert_eq!(rules[0].appended_rules[0].effect_on, 'Ơ');
}

#[test]
fn appending_clause_needs_a_letter() {
    let rule = get_appending_rule('w', "__ư").unwrap();
    assert_eq!(rule.effect_type, EffectType::Appending);
    assert_eq!(rule.result, 'ư');
    assert!(get_appending_rule('w', "__1").is_none());
    assert!(get_appending_rule('w', "_").is_none());
}
