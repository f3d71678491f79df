use bambusa::composition::{TransId, Transformation};
use bambusa::spelling::is_valid_cvc;
use bambusa::{EffectType, Rule};

/// Append plain appending transformations for each char of `s` to `comp`,
/// returning the indices of those appenders.
fn push_group(comp: &mut Vec<Transformation>, s: &str) -> Vec<usize> {
    let start = comp.len();
    for c in s.chars() {
        let id = comp.len() as TransId;
        comp.push(Transformation {
            id,
            rule: Rule {
                key: c,
                effect_on: c,
                result: c,
                effect_type: EffectType::Appending,
                ..Default::default()
            },
            target: None,
            is_upper_case: false,
        });
    }
    (start..comp.len()).collect()
}

fn valid(fc: &str, vo: &str, lc: &str, full: bool) -> bool {
    let mut comp = Vec::new();
    let fci = push_group(&mut comp, fc);
    let voi = push_group(&mut comp, vo);
    let lci = push_group(&mut comp, lc);
    is_valid_cvc(&comp, &fci, &voi, &lci, full)
}

#[test]
fn complete_syllables_are_valid() {
    assert!(valid("v", "iê", "t", true)); // việt
    assert!(valid("ng", "uyê", "n", true)); // nguyên
    assert!(valid("", "ê", "ch", true)); // êch
}

#[test]
fn incompatible_vowel_consonant_is_invalid() {
    // "ê" cannot take a bare "c" final consonant.
    assert!(!valid("", "ê", "c", true));
}

#[test]
fn first_consonant_only_is_valid_prefix() {
    assert!(valid("ng", "", "", false));
    assert!(!valid("qz", "", "", false));
}
