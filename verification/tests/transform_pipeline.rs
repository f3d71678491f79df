use bambusa::composition::{IdGen, TransId, Transformation};
use bambusa::cvc::{cvc_split, materialize_group};
use bambusa::flatten::flatten;
use bambusa::generate::{generate_fallback_transformations, generate_transformations, refresh_last_tone_target};
use bambusa::target::{extract_last_syllable, find_tone_target};
use bambusa::text::lower_char;
use bambusa::unicode_tables::is_vowel;
use bambusa::{parse_input_method, EffectType, EngineFlags, InputMethod, Mode, Rule};

fn text(comp: &[Transformation], mode: Mode) -> String {
    flatten(comp, mode).into_iter().collect()
}

/// Drive a whole string through the same pipeline the engine uses,
/// returning the composition after each keystroke so tests can inspect the
/// real intermediate states.
fn drive(im_name: &str, keys: &str, flags: EngineFlags) -> Vec<Vec<Transformation>> {
    drive_with(&parse_input_method(im_name).unwrap(), keys, flags)
}

/// As [`drive`], with the input method already built.
fn drive_with(im: &InputMethod, keys: &str, flags: EngineFlags) -> Vec<Vec<Transformation>> {
    let mut ids = IdGen::new();
    let mut comp: Vec<Transformation> = Vec::new();
    let mut steps = Vec::new();
    for ch in keys.chars() {
        let lower = lower_char(ch);
        let is_upper = ch.is_uppercase();
        let applicable: Vec<Rule> = im.rules.iter().filter(|r| r.key == lower).cloned().collect();

        // Compose into the last syllable.
        let syl_split = extract_last_syllable(&comp);
        let previous = comp[..syl_split].to_vec();
        let mut syllable = comp[syl_split..].to_vec();

        let mut generated = generate_transformations(&mut ids, &syllable, &applicable, flags, lower, is_upper);
        if generated.is_empty() {
            generated = generate_fallback_transformations(&mut ids, &applicable, lower, is_upper);
        }
        let mut combined = syllable.clone();
        combined.extend(generated.iter().cloned());
        let (refresh, retarget) =
            refresh_last_tone_target(&mut ids, &combined, flags.contains(EngineFlags::STD_TONE_STYLE));
        generated.extend(refresh);

        syllable.extend(generated);
        let mut next = previous;
        next.extend(syllable);
        if let Some((id, new_target)) = retarget {
            for t in next.iter_mut() {
                if t.id == id {
                    t.target = new_target;
                }
            }
        }
        comp = next;
        steps.push(comp.clone());
    }
    steps
}

/// Drive a string and flatten the final composition.
fn type_word(im_name: &str, keys: &str, flags: EngineFlags) -> String {
    match drive(im_name, keys, flags).last() {
        Some(comp) => text(comp, Mode::VIETNAMESE),
        None => String::new(),
    }
}

/// The three CVC groups with their effects, from the index-based split.
fn extract_cvc_trans(comp: &[Transformation]) -> (Vec<Transformation>, Vec<Transformation>, Vec<Transformation>) {
    let split = cvc_split(comp);
    (
        materialize_group(comp, split.fc()),
        materialize_group(comp, split.vo()),
        materialize_group(comp, split.lc()),
    )
}

/// Append every effect in `comp` that targets one of the current members of
/// `group`.
fn attach_effects(group: &mut Vec<Transformation>, comp: &[Transformation]) {
    let appenders = group.len();
    for effect in comp {
        if let Some(target) = effect.target {
            if group[..appenders].iter().any(|t| t.id == target) {
                group.push(effect.clone());
            }
        }
    }
}

// --- A direct, list-based formulation of the CVC split and of tone
// --- placement, cross-checked against the library's index-based versions.

fn ref_atomic(comp: &[Transformation], last_is_vowel: bool) -> usize {
    let mut i = comp.len();
    while i > 0 {
        let tmp = &comp[i - 1];
        if tmp.target.is_none() && is_vowel(tmp.rule.result) != last_is_vowel {
            break;
        }
        i -= 1;
    }
    i
}

fn ref_extract_cvc(comp: &[Transformation]) -> (Vec<Transformation>, Vec<Transformation>, Vec<Transformation>) {
    let appending: Vec<Transformation> = comp.iter().filter(|t| t.target.is_none()).cloned().collect();
    let head_split = ref_atomic(&appending, false);
    let mut last_consonant = appending[head_split..].to_vec();
    let head = &appending[..head_split];
    let fc_split = ref_atomic(head, true);
    let mut first_consonant = head[..fc_split].to_vec();
    let mut vowel = head[fc_split..].to_vec();

    if !last_consonant.is_empty() && vowel.is_empty() && first_consonant.is_empty() {
        first_consonant = last_consonant;
        vowel = Vec::new();
        last_consonant = Vec::new();
    }

    if first_consonant.len() == 1
        && !vowel.is_empty()
        && ((first_consonant[0].rule.result == 'g'
            && vowel[0].rule.result == 'i'
            && vowel.len() > 1
            && (vowel[1].rule.result != 'e' || last_consonant.is_empty()))
            || (first_consonant[0].rule.result == 'q' && vowel[0].rule.result == 'u'))
    {
        first_consonant.push(vowel[0].clone());
        vowel = vowel[1..].to_vec();
    }

    let mut fc = first_consonant;
    let mut vo = vowel;
    let mut lc = last_consonant;
    attach_effects(&mut fc, comp);
    attach_effects(&mut vo, comp);
    attach_effects(&mut lc, comp);
    (fc, vo, lc)
}

/// Tone placement stated directly over the materialised groups.
fn ref_find_tone_target(comp: &[Transformation], std_style: bool) -> Option<TransId> {
    if comp.is_empty() {
        return None;
    }
    let (_, vo, lc) = ref_extract_cvc(comp);
    let vowels: Vec<Transformation> =
        vo.iter().filter(|t| t.rule.effect_type == EffectType::Appending).cloned().collect();
    let mark_mode = Mode::ENGLISH | Mode::LOWERCASE | Mode::TONELESS | Mode::MARKLESS;
    match vowels.len() {
        1 => Some(vowels[0].id),
        2 if std_style => {
            let mut target = None;
            for trans in &vo {
                if trans.rule.result == 'ơ' || trans.rule.result == 'ê' {
                    target = Some(trans.target.unwrap_or(trans.id));
                }
            }
            target.or(Some(if !lc.is_empty() { vowels[1].id } else { vowels[0].id }))
        }
        2 => {
            if !lc.is_empty() {
                Some(vowels[1].id)
            } else {
                let s = text(&vowels, mark_mode);
                Some(match s.as_str() {
                    "oa" | "oe" | "uy" | "ue" | "uo" => vowels[1].id,
                    _ => vowels[0].id,
                })
            }
        }
        3 => {
            let s = text(&vowels, mark_mode);
            Some(if s == "uye" { vowels[2].id } else { vowels[1].id })
        }
        _ => None,
    }
}

/// Tiny deterministic PRNG so the fuzz corpus is reproducible.
struct Lcg(u64);
impl Lcg {
    fn next(&mut self) -> u64 {
        self.0 = self.0.wrapping_mul(6364136223846793005).wrapping_add(1442695040888963407);
        self.0 >> 33
    }
}

#[test]
fn cvc_split_and_tone_target_match_reference() {
    // Effect keys vary by method; a broad alphabet drives the engine into
    // many composition shapes (gi/qu, all-consonant, multi-vowel, marks).
    let configs: &[(&str, &str)] = &[
        ("Telex", "abcdeghiklmnopqrstuvxysfrxjwzAEO"),
        ("Telex 2", "aeiouwdsfrxjbcghklmnpqtv][}{"),
        ("VNI", "aeioudbcghklmnpqstvx0123456789"),
        ("VIQR", "aeioudbcghklmnpqstvx^'`?~.+()"),
    ];
    let flag_sets = [
        EngineFlags::STD,
        EngineFlags::empty(),
        EngineFlags::FREE_TONE_MARKING,
        EngineFlags::FREE_TONE_MARKING | EngineFlags::STD_TONE_STYLE,
    ];

    let mut rng = Lcg(0x1234_5678_9abc_def0);
    let mut checked = 0u64;
    for (im, alphabet) in configs {
        let method = parse_input_method(im).unwrap();
        let alpha: Vec<char> = alphabet.chars().collect();
        for &flags in &flag_sets {
            for _ in 0..120 {
                let len = 1 + (rng.next() % 9) as usize;
                let keys: String = (0..len).map(|_| alpha[(rng.next() as usize) % alpha.len()]).collect();
                for comp in drive_with(&method, &keys, flags) {
                    // Every contiguous sub-range: is_valid runs on such slices.
                    for a in 0..=comp.len() {
                        for b in a..=comp.len() {
                            let slice = &comp[a..b];
                            assert_eq!(
                                extract_cvc_trans(slice),
                                ref_extract_cvc(slice),
                                "cvc im={im} keys={keys:?} flags={flags:?} range={a}..{b}"
                            );
                            for std_style in [false, true] {
                                assert_eq!(
                                    find_tone_target(slice, std_style),
                                    ref_find_tone_target(slice, std_style),
                                    "tone_target im={im} keys={keys:?} std={std_style} range={a}..{b}"
                                );
                            }
                            checked += 1;
                        }
                    }
                }
            }
        }
    }
    assert!(checked > 100_000, "corpus too small: {checked}");
}

#[test]
fn telex_basic_words() {
    let f = EngineFlags::STD;
    assert_eq!(type_word("Telex", "tieesng", f), "tiếng");
    assert_eq!(type_word("Telex", "Vieejt", f), "Việt");
    assert_eq!(type_word("Telex", "ddaji", f), "đại");
    assert_eq!(type_word("Telex", "nguoiwf", f), "người");
}

#[test]
fn telex_tone_reposition() {
    // Tone must migrate when the syllable gains a vowel.
    let f = EngineFlags::STD;
    assert_eq!(type_word("Telex", "chuyeenr", f), "chuyển");
}

#[test]
fn double_key_undoes_effect() {
    let f = EngineFlags::STD;
    // aa -> â, aaa -> a (raw undo on third press is handled as append).
    assert_eq!(type_word("Telex", "aa", f), "â");
}
