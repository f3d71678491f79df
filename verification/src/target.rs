//! Lookups over a composition: finding transformations by id, locating the
//! tone target, validating a syllable and finding word boundaries.
use vstd::prelude::*;
use crate::composition::{
    comp_wf, cv, lemma_cv_subrange, trans_wf, Transformation, TransId, TransV,
};
use crate::cvc::{cvc_split, cvc_split_spec, group, indices_ok, materialize_group, members, CvcSplit, CvcSplitV};
use crate::flatten::{first_char, first_char_spec, flatten, flatten_spec};
use crate::mode::{EngineFlags, Mode, FLAG_FREE_TONE_MARKING, FLAG_STD_TONE_STYLE};
use crate::rules::{tone_or_none, EffectType, RuleHead, Tone};
use crate::spelling::{is_valid_cvc, is_valid_cvc_spec};
use crate::text::{ascii_alpha, is_ascii_alpha, seq_contains};
use crate::unicode_tables::{is_space, is_vowel, is_vowel_char, tone_of_char};

verus! {

/// Index of the first transformation with id `id`.
pub open spec fn by_id_spec(c: Seq<TransV>, id: TransId) -> Option<int>
    decreases c.len(),
{
    if c.len() == 0 {
        None
    } else {
        match by_id_spec(c.drop_last(), id) {
            Some(i) => Some(i),
            None => if c.last().id == id {
                Some(c.len() - 1)
            } else {
                None
            },
        }
    }
}

pub proof fn lemma_by_id(c: Seq<TransV>, id: TransId)
    ensures
        by_id_spec(c, id) matches Some(i) ==> 0 <= i < c.len() && c[i].id == id && forall|j: int|
            0 <= j < i ==> (#[trigger] c[j]).id != id,
        by_id_spec(c, id) is None ==> forall|j: int| 0 <= j < c.len() ==> (#[trigger] c[j]).id != id,
    decreases c.len(),
{
    if c.len() > 0 {
        lemma_by_id(c.drop_last(), id);
        assert forall|j: int| 0 <= j < c.len() - 1 implies (#[trigger] c[j]) == c.drop_last()[j] by {}
    }
}

/// The index of the first transformation with id `id`.
pub fn by_id(comp: &[Transformation], id: TransId) -> (r: Option<usize>)
    ensures
        r matches Some(i) ==> by_id_spec(cv(comp@), id) == Some(i as int),
        r is None ==> by_id_spec(cv(comp@), id) is None,
{
    let ghost c = cv(comp@);
    proof {
        lemma_by_id(c, id);
    }
    let mut i: usize = 0;
    while i < comp.len()
        invariant
            i <= comp@.len(),
            c == cv(comp@),
            forall|j: int| 0 <= j < i ==> (#[trigger] c[j]).id != id,
        decreases comp@.len() - i,
    {
        if comp[i].id == id {
            proof {
                lemma_by_id(c, id);
                assert(c[i as int].id == id);
            }
            return Some(i);
        }
        i += 1;
    }
    proof {
        lemma_by_id(c, id);
    }
    None
}

/// The id `id` reaches after following targets `fuel` times (stopping at a
/// transformation without target, or at an unknown id).
pub open spec fn root_walk(c: Seq<TransV>, id: TransId, fuel: nat) -> TransId
    decreases fuel,
{
    if fuel == 0 {
        id
    } else {
        match by_id_spec(c, id) {
            Some(i) => match c[i].target {
                Some(parent) => root_walk(c, parent, (fuel - 1) as nat),
                None => id,
            },
            None => id,
        }
    }
}

/// The root of the target chain starting at `id`: follow targets until a
/// transformation without target. The walk takes at most as many steps as
/// the composition has transformations, which is every step of any chain
/// that does not loop.
pub open spec fn root_target(c: Seq<TransV>, id: TransId) -> TransId {
    root_walk(c, id, c.len())
}

pub fn find_root_target(comp: &[Transformation], id: TransId) -> (r: TransId)
    ensures
        r == root_target(cv(comp@), id),
{
    let ghost c = cv(comp@);
    let n = comp.len();
    let mut cur = id;
    let mut fuel = n;
    while fuel > 0
        invariant
            c == cv(comp@),
            fuel <= n == comp@.len(),
            root_walk(c, cur, fuel as nat) == root_target(c, id),
        decreases fuel,
    {
        proof {
            lemma_by_id(c, cur);
        }
        match by_id(comp, cur) {
            Some(i) => match comp[i].target {
                Some(parent) => {
                    cur = parent;
                },
                None => {
                    return cur;
                },
            },
            None => {
                return cur;
            },
        }
        fuel -= 1;
    }
    cur
}

/// A throwaway transformation used only for trial flattening.
pub open spec fn temp_effect_spec(target: Option<TransId>, rule: RuleHead) -> TransV {
    TransV { id: crate::composition::TEMP_ID, rule, target, is_upper_case: false }
}

/// Id of the last appending transformation, if any.
pub open spec fn last_appending_spec(c: Seq<TransV>) -> Option<TransId>
    decreases c.len(),
{
    if c.len() == 0 {
        None
    } else if c.last().rule.effect_type == EffectType::Appending {
        Some(c.last().id)
    } else {
        last_appending_spec(c.drop_last())
    }
}

pub fn find_last_appending_trans(comp: &[Transformation]) -> (r: Option<TransId>)
    ensures
        r == last_appending_spec(cv(comp@)),
{
    let ghost c = cv(comp@);
    let mut i = comp.len();
    assert(c.subrange(0, i as int) =~= c);
    while i > 0
        invariant
            c == cv(comp@),
            i <= comp@.len(),
            last_appending_spec(c) == last_appending_spec(c.subrange(0, i as int)),
        decreases i,
    {
        proof {
            assert(c.subrange(0, i as int).drop_last() =~= c.subrange(0, i - 1));
        }
        if comp[i - 1].rule.effect_type == EffectType::Appending {
            return Some(comp[i - 1].id);
        }
        i -= 1;
    }
    assert(c.subrange(0, 0) =~= Seq::<TransV>::empty());
    None
}

/// Whether `text` is a stop consonant, which only admits the acute or dot
/// tones.
pub open spec fn is_stop_consonant(text: Seq<char>) -> bool {
    text == seq!['c'] || text == seq!['k'] || text == seq!['p'] || text == seq!['t'] || text
        == seq!['c', 'h']
}

fn stop_consonant(text: &[char]) -> (r: bool)
    ensures
        r == is_stop_consonant(text@),
{
    if text.len() == 1 {
        let c = text[0];
        assert(text@ == seq![c]);
        c == 'c' || c == 'k' || c == 'p' || c == 't'
    } else if text.len() == 2 {
        assert(text@ == seq![text@[0], text@[1]]);
        text[0] == 'c' && text[1] == 'h'
    } else {
        assert(text@.len() != 1 && text@.len() != 2);
        assert(seq!['c'].len() == 1 && seq!['c', 'h'].len() == 2);
        false
    }
}

/// Whether the tone is one that fits any syllable (none, acute or dot).
pub open spec fn is_free_tone(t: Tone) -> bool {
    t == Tone::NoTone || t == Tone::Acute || t == Tone::Dot
}

/// The mode stop consonants are compared in: English, lowercase.
pub open spec fn raw_lower_mode() -> Mode {
    Mode::Bits(18)
}

/// Whether `tone` may sit on a syllable whose last-consonant group is the
/// appenders at `lc`.
pub open spec fn tone_compatible_spec(c: Seq<TransV>, lc: Seq<usize>, tone: Tone) -> bool {
    if is_free_tone(tone) {
        true
    } else if lc.len() == 0 {
        true
    } else {
        !is_stop_consonant(flatten_spec(group(c, lc), raw_lower_mode()))
    }
}

fn tone_compatible_with_lc(comp: &[Transformation], lc: &[usize], tone: Tone) -> (r: bool)
    requires
        comp_wf(cv(comp@)),
        indices_ok(comp@.len() as int, lc@),
    ensures
        r == tone_compatible_spec(cv(comp@), lc@, tone),
{
    if tone == Tone::NoTone || tone == Tone::Acute || tone == Tone::Dot {
        return true;
    }
    if lc.len() == 0 {
        return true;
    }
    let g = materialize_group(comp, lc);
    let text = flatten(g.as_slice(), Mode::Bits(18));
    !stop_consonant(text.as_slice())
}

/// The effect byte of the most recent tone transformation, if any.
pub open spec fn last_tone_effect(c: Seq<TransV>) -> Option<u8>
    decreases c.len(),
{
    if c.len() == 0 {
        None
    } else if c.last().rule.effect_type == EffectType::ToneTransformation {
        Some(c.last().rule.effect)
    } else {
        last_tone_effect(c.drop_last())
    }
}

fn last_tone(comp: &[Transformation]) -> (r: Option<u8>)
    ensures
        r == last_tone_effect(cv(comp@)),
{
    let ghost c = cv(comp@);
    let mut i = comp.len();
    assert(c.subrange(0, i as int) =~= c);
    while i > 0
        invariant
            c == cv(comp@),
            i <= comp@.len(),
            last_tone_effect(c) == last_tone_effect(c.subrange(0, i as int)),
        decreases i,
    {
        proof {
            assert(c.subrange(0, i as int).drop_last() =~= c.subrange(0, i - 1));
        }
        if comp[i - 1].rule.effect_type == EffectType::ToneTransformation {
            return Some(comp[i - 1].rule.effect);
        }
        i -= 1;
    }
    assert(c.subrange(0, 0) =~= Seq::<TransV>::empty());
    None
}

/// Whether the composition forms a spellable (possibly partial) syllable:
/// the most recent tone suits the last consonant, and the CVC groups spell.
pub open spec fn is_valid_spec(c: Seq<TransV>, full: bool) -> bool {
    if c.len() <= 1 {
        true
    } else {
        let s = cvc_split_spec(c);
        let tone_ok = match last_tone_effect(c) {
            Some(e) => tone_compatible_spec(c, s.lc(), tone_or_none(e)),
            None => true,
        };
        tone_ok && is_valid_cvc_spec(c, s.fc(), s.vo(), s.lc(), full)
    }
}

/// A composition valid as a full, complete syllable is valid as a partial one.
pub proof fn lemma_valid_full_implies_partial(c: Seq<TransV>)
    requires
        is_valid_spec(c, true),
    ensures
        is_valid_spec(c, false),
{
    if c.len() > 1 {
        let s = cvc_split_spec(c);
        crate::spelling::lemma_cvc_full_implies_partial(c, s.fc(), s.vo(), s.lc());
    }
}

proof fn lemma_split_slices(s: CvcSplitV, len: int)
    requires
        0 <= s.fc_end <= s.vo_end <= s.app.len(),
        indices_ok(len, s.app),
    ensures
        indices_ok(len, s.fc()),
        indices_ok(len, s.vo()),
        indices_ok(len, s.lc()),
{
}

/// Whether the composition forms a spellable (possibly partial) syllable.
pub fn is_valid(comp: &[Transformation], input_is_full_complete: bool) -> (r: bool)
    requires
        comp_wf(cv(comp@)),
    ensures
        r == is_valid_spec(cv(comp@), input_is_full_complete),
{
    let ghost c = cv(comp@);
    if comp.len() <= 1 {
        return true;
    }
    let split = cvc_split(comp);
    proof {
        lemma_split_slices(split.view_split(), comp@.len() as int);
    }
    let lc = split.lc();
    match last_tone(comp) {
        Some(e) => {
            let last_tone = Tone::from_code_or_none(e);
            if !tone_compatible_with_lc(comp, lc, last_tone) {
                return false;
            }
        },
        None => {},
    }
    let fc = split.fc();
    let vo = split.vo();
    is_valid_cvc(comp, fc, vo, lc, input_is_full_complete)
}

/// Whether `tone` fits the composition's last consonant group.
pub open spec fn has_valid_tone_spec(c: Seq<TransV>, tone: Tone) -> bool {
    if is_free_tone(tone) {
        true
    } else {
        tone_compatible_spec(c, cvc_split_spec(c).lc(), tone)
    }
}

fn has_valid_tone(comp: &[Transformation], tone: Tone) -> (r: bool)
    requires
        comp_wf(cv(comp@)),
    ensures
        r == has_valid_tone_spec(cv(comp@), tone),
{
    if tone == Tone::NoTone || tone == Tone::Acute || tone == Tone::Dot {
        return true;
    }
    let split = cvc_split(comp);
    proof {
        lemma_split_slices(split.view_split(), comp@.len() as int);
    }
    let lc = split.lc();
    tone_compatible_with_lc(comp, lc, tone)
}

/// Index of the most recent tone transformation that has a target.
pub open spec fn last_tone_trans_spec(c: Seq<TransV>) -> Option<int>
    decreases c.len(),
{
    if c.len() == 0 {
        None
    } else if c.last().rule.effect_type == EffectType::ToneTransformation && c.last().target is Some {
        Some(c.len() - 1)
    } else {
        last_tone_trans_spec(c.drop_last())
    }
}

pub proof fn lemma_last_tone_trans(c: Seq<TransV>)
    ensures
        last_tone_trans_spec(c) matches Some(i) ==> 0 <= i < c.len(),
    decreases c.len(),
{
    if c.len() > 0 {
        lemma_last_tone_trans(c.drop_last());
    }
}

pub fn get_last_tone_transformation(comp: &[Transformation]) -> (r: Option<usize>)
    ensures
        r matches Some(i) ==> last_tone_trans_spec(cv(comp@)) == Some(i as int),
        r is None ==> last_tone_trans_spec(cv(comp@)) is None,
{
    let ghost c = cv(comp@);
    let mut i = comp.len();
    assert(c.subrange(0, i as int) =~= c);
    while i > 0
        invariant
            c == cv(comp@),
            i <= comp@.len(),
            last_tone_trans_spec(c) == last_tone_trans_spec(c.subrange(0, i as int)),
        decreases i,
    {
        proof {
            assert(c.subrange(0, i as int).drop_last() =~= c.subrange(0, i - 1));
        }
        if comp[i - 1].rule.effect_type == EffectType::ToneTransformation && comp[i - 1].target.is_some() {
            return Some(i - 1);
        }
        i -= 1;
    }
    assert(c.subrange(0, 0) =~= Seq::<TransV>::empty());
    None
}

/// Whether no transformation with `effect_type` targets `target`.
pub open spec fn is_free_spec(c: Seq<TransV>, target: Option<TransId>, effect_type: EffectType) -> bool {
    !exists|i: int| 0 <= i < c.len() && (#[trigger] c[i]).target == target && c[i].rule.effect_type == effect_type
}

pub fn is_free(comp: &[Transformation], target: Option<TransId>, effect_type: EffectType) -> (r: bool)
    ensures
        r == is_free_spec(cv(comp@), target, effect_type),
{
    let ghost c = cv(comp@);
    let mut i: usize = 0;
    while i < comp.len()
        invariant
            c == cv(comp@),
            i <= comp@.len(),
            forall|j: int| 0 <= j < i ==> !((#[trigger] c[j]).target == target && c[j].rule.effect_type == effect_type),
        decreases comp@.len() - i,
    {
        if comp[i].target == target && comp[i].rule.effect_type == effect_type {
            assert(c[i as int].target == target);
            return false;
        }
        i += 1;
    }
    true
}

/// The vowel appenders of a split whose rule appends (the `vowels` of the
/// tone placement rules).
pub open spec fn vowel_appenders(c: Seq<TransV>, vo: Seq<usize>) -> Seq<usize> {
    vo.filter(|i: usize| c[i as int].rule.effect_type == EffectType::Appending)
}

/// Whether `r` is one of the horn/hat carriers that take the tone.
pub open spec fn is_carrier(r: char) -> bool {
    r == 'ơ' || r == 'ê'
}

/// Whether some vowel appender of `vo` has id `t`.
pub open spec fn in_vowels(c: Seq<TransV>, vo: Seq<usize>, t: TransId) -> bool {
    exists|k: int| 0 <= k < vo.len() && c[(#[trigger] vo[k]) as int].id == t
}

/// The last carrier among the vowel appenders (scanning `vo[..k]`).
pub open spec fn carrier_in_appenders(c: Seq<TransV>, vo: Seq<usize>, k: int) -> Option<TransId>
    decreases k,
{
    if k <= 0 {
        None
    } else {
        let t = c[vo[k - 1] as int];
        if is_carrier(t.rule.result) {
            Some(t.id)
        } else {
            carrier_in_appenders(c, vo, k - 1)
        }
    }
}

/// The last target among the effects of `c[..k]` that produce a carrier on
/// one of the vowel appenders, or `start` if none.
pub open spec fn carrier_in_effects(c: Seq<TransV>, vo: Seq<usize>, k: int, start: Option<TransId>) -> Option<TransId>
    decreases k,
{
    if k <= 0 {
        start
    } else {
        let e = c[k - 1];
        match e.target {
            Some(tgt) => if is_carrier(e.rule.result) && in_vowels(c, vo, tgt) {
                Some(tgt)
            } else {
                carrier_in_effects(c, vo, k - 1, start)
            },
            None => carrier_in_effects(c, vo, k - 1, start),
        }
    }
}

/// The mode vowels are compared in: raw keys, lowercase, toneless, markless.
pub open spec fn bare_mode() -> Mode {
    Mode::Bits(30)
}

/// The text of the appenders `idx` (without their effects) in `mode`.
pub open spec fn appenders_text(c: Seq<TransV>, idx: Seq<usize>, mode: Mode) -> Seq<char> {
    flatten_spec(members(c, idx), mode)
}

/// Whether the two-vowel cluster takes the tone on its second vowel.
pub open spec fn second_vowel_cluster(s: Seq<char>) -> bool {
    s == seq!['o', 'a'] || s == seq!['o', 'e'] || s == seq!['u', 'y'] || s == seq!['u', 'e'] || s
        == seq!['u', 'o']
}

/// The transformation that should carry the tone, given a split of `c`.
pub open spec fn tone_target_in_spec(c: Seq<TransV>, s: CvcSplitV, std_style: bool) -> Option<TransId> {
    let vowels = vowel_appenders(c, s.vo());
    let lc_empty = s.lc().len() == 0;
    if vowels.len() == 1 {
        Some(c[vowels[0] as int].id)
    } else if vowels.len() == 2 && std_style {
        let from_appenders = carrier_in_appenders(c, s.vo(), s.vo().len() as int);
        let target = carrier_in_effects(c, s.vo(), c.len() as int, from_appenders);
        match target {
            Some(t) => Some(t),
            None => Some(
                if !lc_empty {
                    c[vowels[1] as int].id
                } else {
                    c[vowels[0] as int].id
                },
            ),
        }
    } else if vowels.len() == 2 {
        if !lc_empty {
            Some(c[vowels[1] as int].id)
        } else if second_vowel_cluster(appenders_text(c, vowels, bare_mode())) {
            Some(c[vowels[1] as int].id)
        } else {
            Some(c[vowels[0] as int].id)
        }
    } else if vowels.len() == 3 {
        if appenders_text(c, vowels, bare_mode()) == seq!['u', 'y', 'e'] {
            Some(c[vowels[2] as int].id)
        } else {
            Some(c[vowels[1] as int].id)
        }
    } else {
        None
    }
}

/// The transformation that should carry the tone of `c`.
pub open spec fn tone_target_spec(c: Seq<TransV>, std_style: bool) -> Option<TransId> {
    if c.len() == 0 {
        None
    } else {
        tone_target_in_spec(c, cvc_split_spec(c), std_style)
    }
}

fn vowel_appenders_exec(comp: &[Transformation], vo: &[usize]) -> (r: Vec<usize>)
    requires
        indices_ok(comp@.len() as int, vo@),
    ensures
        r@ == vowel_appenders(cv(comp@), vo@),
        indices_ok(comp@.len() as int, r@),
{
    let ghost c = cv(comp@);
    let mut out: Vec<usize> = Vec::new();
    let mut i: usize = 0;
    while i < vo.len()
        invariant
            c == cv(comp@),
            i <= vo@.len(),
            indices_ok(comp@.len() as int, vo@),
            out@ == vo@.subrange(0, i as int).filter(|k: usize| c[k as int].rule.effect_type == EffectType::Appending),
            indices_ok(comp@.len() as int, out@),
        decreases vo@.len() - i,
    {
        proof {
            reveal_with_fuel(Seq::filter, 1);
            assert(vo@.subrange(0, i + 1).drop_last() =~= vo@.subrange(0, i as int));
        }
        if comp[vo[i]].rule.effect_type == EffectType::Appending {
            out.push(vo[i]);
        }
        i += 1;
    }
    assert(vo@.subrange(0, vo@.len() as int) =~= vo@);
    out
}

fn members_exec(comp: &[Transformation], idx: &[usize]) -> (r: Vec<Transformation>)
    requires
        indices_ok(comp@.len() as int, idx@),
    ensures
        cv(r@) == members(cv(comp@), idx@),
        comp_wf(cv(comp@)) ==> comp_wf(cv(r@)),
{
    let ghost c = cv(comp@);
    let mut out: Vec<Transformation> = Vec::new();
    let mut i: usize = 0;
    while i < idx.len()
        invariant
            c == cv(comp@),
            i <= idx@.len(),
            indices_ok(comp@.len() as int, idx@),
            cv(out@) == members(c, idx@.subrange(0, i as int)),
        decreases idx@.len() - i,
    {
        let t = comp[idx[i]].clone();
        proof {
            crate::composition::lemma_cv_push(out@, t);
            assert(members(c, idx@.subrange(0, i + 1)) =~= members(c, idx@.subrange(0, i as int)).push(t@));
        }
        out.push(t);
        i += 1;
    }
    assert(idx@.subrange(0, idx@.len() as int) =~= idx@);
    proof {
        if comp_wf(c) {
            assert forall|k: int| 0 <= k < cv(out@).len() implies trans_wf(#[trigger] cv(out@)[k]) by {
                assert(cv(out@)[k] == c[idx@[k] as int]);
            }
        }
    }
    out
}

fn is_second_vowel_cluster(s: &[char]) -> (r: bool)
    ensures
        r == second_vowel_cluster(s@),
{
    if s.len() != 2 {
        assert(seq!['o', 'a'].len() == 2);
        return false;
    }
    assert(s@ == seq![s@[0], s@[1]]);
    let a = s[0];
    let b = s[1];
    (a == 'o' && b == 'a') || (a == 'o' && b == 'e') || (a == 'u' && b == 'y') || (a == 'u' && b == 'e')
        || (a == 'u' && b == 'o')
}

fn is_uye(s: &[char]) -> (r: bool)
    ensures
        r == (s@ == seq!['u', 'y', 'e']),
{
    if s.len() != 3 {
        assert(seq!['u', 'y', 'e'].len() == 3);
        return false;
    }
    assert(s@ == seq![s@[0], s@[1], s@[2]]);
    s[0] == 'u' && s[1] == 'y' && s[2] == 'e'
}

fn vowel_id(comp: &[Transformation], vo: &[usize], id: TransId) -> (r: bool)
    requires
        indices_ok(comp@.len() as int, vo@),
    ensures
        r == in_vowels(cv(comp@), vo@, id),
{
    let ghost c = cv(comp@);
    let mut k: usize = 0;
    while k < vo.len()
        invariant
            c == cv(comp@),
            k <= vo@.len(),
            indices_ok(comp@.len() as int, vo@),
            forall|j: int| 0 <= j < k ==> c[(#[trigger] vo@[j]) as int].id != id,
        decreases vo@.len() - k,
    {
        if comp[vo[k]].id == id {
            assert(c[vo@[k as int] as int].id == id);
            return true;
        }
        k += 1;
    }
    false
}

/// As [`find_tone_target`], but reusing a CVC split the caller computed.
pub fn find_tone_target_in(comp: &[Transformation], split: &CvcSplit, std_style: bool) -> (r: Option<TransId>)
    requires
        comp_wf(cv(comp@)),
        split.fc_end <= split.vo_end <= split.appenders@.len(),
        indices_ok(comp@.len() as int, split.appenders@),
    ensures
        r == tone_target_in_spec(cv(comp@), split.view_split(), std_style),
{
    let ghost c = cv(comp@);
    let ghost s = split.view_split();
    proof {
        lemma_split_slices(s, comp@.len() as int);
    }
    let vo = split.vo();
    let lc_empty = split.vo_end == split.appenders.len();
    let vowels = vowel_appenders_exec(comp, vo);
    if vowels.len() == 1 {
        Some(comp[vowels[0]].id)
    } else if vowels.len() == 2 && std_style {
        let mut target: Option<TransId> = None;
        let mut k: usize = 0;
        while k < vo.len()
            invariant
                c == cv(comp@),
                k <= vo@.len(),
                indices_ok(comp@.len() as int, vo@),
                target == carrier_in_appenders(c, vo@, k as int),
            decreases vo@.len() - k,
        {
            let t = &comp[vo[k]];
            if t.rule.result == 'ơ' || t.rule.result == 'ê' {
                target = Some(t.id);
            }
            k += 1;
        }
        proof {
            assert(carrier_in_appenders(c, vo@, vo@.len() as int) == target);
        }
        let ghost from_app = target;
        let mut j: usize = 0;
        while j < comp.len()
            invariant
                c == cv(comp@),
                j <= comp@.len(),
                indices_ok(comp@.len() as int, vo@),
                target == carrier_in_effects(c, vo@, j as int, from_app),
            decreases comp@.len() - j,
        {
            let e = &comp[j];
            match e.target {
                Some(tgt) => {
                    if (e.rule.result == 'ơ' || e.rule.result == 'ê') && vowel_id(comp, vo, tgt) {
                        target = Some(tgt);
                    }
                },
                None => {},
            }
            j += 1;
        }
        match target {
            Some(t) => Some(t),
            None => Some(
                if !lc_empty {
                    comp[vowels[1]].id
                } else {
                    comp[vowels[0]].id
                },
            ),
        }
    } else if vowels.len() == 2 {
        if !lc_empty {
            Some(comp[vowels[1]].id)
        } else {
            let m = members_exec(comp, vowels.as_slice());
            let text = flatten(m.as_slice(), Mode::Bits(30));
            if is_second_vowel_cluster(text.as_slice()) {
                Some(comp[vowels[1]].id)
            } else {
                Some(comp[vowels[0]].id)
            }
        }
    } else if vowels.len() == 3 {
        let m = members_exec(comp, vowels.as_slice());
        let text = flatten(m.as_slice(), Mode::Bits(30));
        if is_uye(text.as_slice()) {
            Some(comp[vowels[2]].id)
        } else {
            Some(comp[vowels[1]].id)
        }
    } else {
        None
    }
}


pub fn find_tone_target(comp: &[Transformation], std_style: bool) -> (r: Option<TransId>)
    requires
        comp_wf(cv(comp@)),
    ensures
        r == tone_target_spec(cv(comp@), std_style),
{
    if comp.len() == 0 {
        return None;
    }
    let split = cvc_split(comp);
    find_tone_target_in(comp, &split, std_style)
}

/// The tone target for `rule` under the active flags: with free tone
/// marking, the placement rules decide (when the tone fits the syllable);
/// otherwise the tone goes on the last appended character if it is a vowel.
pub open spec fn tone_target_for_spec(c: Seq<TransV>, rule: RuleHead, flags: EngineFlags) -> Option<TransId> {
    if flags.has(FLAG_FREE_TONE_MARKING) {
        if has_valid_tone_spec(c, tone_or_none(rule.effect)) {
            tone_target_spec(c, flags.has(FLAG_STD_TONE_STYLE))
        } else {
            None
        }
    } else {
        match last_appending_spec(c) {
            Some(la) => match by_id_spec(c, la) {
                Some(i) => if is_vowel_char(c[i].rule.effect_on) {
                    Some(la)
                } else {
                    None
                },
                None => None,
            },
            None => None,
        }
    }
}

pub fn tone_target_for(comp: &[Transformation], rule: RuleHead, flags: EngineFlags) -> (r: Option<TransId>)
    requires
        comp_wf(cv(comp@)),
    ensures
        r == tone_target_for_spec(cv(comp@), rule, flags),
{
    if flags.has_flag(FLAG_FREE_TONE_MARKING) {
        if has_valid_tone(comp, Tone::from_code_or_none(rule.effect)) {
            return find_tone_target(comp, flags.has_flag(FLAG_STD_TONE_STYLE));
        }
        None
    } else {
        match find_last_appending_trans(comp) {
            Some(la) => {
                proof {
                    lemma_by_id(cv(comp@), la);
                }
                match by_id(comp, la) {
                    Some(i) => if is_vowel(comp[i].rule.effect_on) {
                        Some(la)
                    } else {
                        None
                    },
                    None => None,
                }
            },
            None => None,
        }
    }
}

/// The mode word boundaries are found in: Vietnamese, lowercase, toneless,
/// markless.
pub open spec fn word_mode() -> Mode {
    Mode::Bits(29)
}

/// Scanning positions `k-1` down to `0`: the split before the last word.
pub open spec fn last_word_scan(c: Seq<TransV>, keys: Seq<char>, k: int) -> int
    decreases k,
{
    if k <= 0 {
        0
    } else {
        let i = k - 1;
        match first_char_spec(c.subrange(i, c.len() as int), word_mode()) {
            Some(c0) => if !is_ascii_alpha(c0) && !keys.contains(c0) {
                if i == c.len() - 1 {
                    c.len() as int
                } else {
                    i + 1
                }
            } else {
                last_word_scan(c, keys, k - 1)
            },
            None => last_word_scan(c, keys, k - 1),
        }
    }
}

/// Split index such that `c[..n]` is everything before the last word and
/// `c[n..]` is the last word: the word starts after the last position whose
/// first shown character is neither an ASCII letter nor a bound key.
pub open spec fn last_word_spec(c: Seq<TransV>, keys: Seq<char>) -> int {
    last_word_scan(c, keys, c.len() as int)
}

pub proof fn lemma_last_word_bounds(c: Seq<TransV>, keys: Seq<char>, k: int)
    requires
        0 <= k <= c.len(),
    ensures
        0 <= last_word_scan(c, keys, k) <= c.len(),
    decreases k,
{
    if k > 0 {
        lemma_last_word_bounds(c, keys, k - 1);
    }
}

pub proof fn lemma_wf_subrange(c: Seq<TransV>, a: int, b: int)
    requires
        comp_wf(c),
        0 <= a <= b <= c.len(),
    ensures
        comp_wf(c.subrange(a, b)),
{
    assert forall|k: int| 0 <= k < b - a implies trans_wf(#[trigger] c.subrange(a, b)[k]) by {
        assert(c.subrange(a, b)[k] == c[a + k]);
    }
}

pub fn extract_last_word(comp: &[Transformation], effect_keys: &[char]) -> (r: usize)
    requires
        comp_wf(cv(comp@)),
    ensures
        r == last_word_spec(cv(comp@), effect_keys@),
        r <= comp@.len(),
{
    let ghost c = cv(comp@);
    let n = comp.len();
    proof {
        lemma_last_word_bounds(c, effect_keys@, n as int);
    }
    let mut k = n;
    while k > 0
        invariant
            c == cv(comp@),
            comp_wf(c),
            k <= n == comp@.len(),
            last_word_spec(c, effect_keys@) == last_word_scan(c, effect_keys@, k as int),
        decreases k,
    {
        let i = k - 1;
        let suffix = vstd::slice::slice_subrange(comp, i, n);
        proof {
            lemma_cv_subrange(comp@, i as int, n as int);
            lemma_wf_subrange(c, i as int, n as int);
        }
        match first_char(suffix, Mode::Bits(29)) {
            Some(c0) => {
                if !ascii_alpha(c0) && !seq_contains(effect_keys, c0) {
                    if i == n - 1 {
                        return n;
                    }
                    return i + 1;
                }
            },
            None => {},
        }
        k -= 1;
    }
    0
}

/// Scanning positions `k-1` down to `0`: the split before the last word
/// when only a literal space breaks words.
pub open spec fn last_word_space_scan(c: Seq<TransV>, k: int) -> int
    decreases k,
{
    if k <= 0 {
        0
    } else {
        let i = k - 1;
        match first_char_spec(c.subrange(i, c.len() as int), Mode::ENGLISH) {
            Some(c0) => if c0 == ' ' {
                if i == c.len() - 1 {
                    c.len() as int
                } else {
                    i + 1
                }
            } else {
                last_word_space_scan(c, k - 1)
            },
            None => last_word_space_scan(c, k - 1),
        }
    }
}

/// Like [`last_word_spec`] but words break only on a literal space.
pub open spec fn last_word_space_spec(c: Seq<TransV>) -> int {
    last_word_space_scan(c, c.len() as int)
}

pub proof fn lemma_last_word_space_bounds(c: Seq<TransV>, k: int)
    requires
        0 <= k <= c.len(),
    ensures
        0 <= last_word_space_scan(c, k) <= c.len(),
    decreases k,
{
    if k > 0 {
        lemma_last_word_space_bounds(c, k - 1);
    }
}

pub fn extract_last_word_with_punctuation_marks(comp: &[Transformation]) -> (r: usize)
    requires
        comp_wf(cv(comp@)),
    ensures
        r == last_word_space_spec(cv(comp@)),
        r <= comp@.len(),
{
    let ghost c = cv(comp@);
    let n = comp.len();
    proof {
        lemma_last_word_space_bounds(c, n as int);
    }
    let mut k = n;
    while k > 0
        invariant
            c == cv(comp@),
            comp_wf(c),
            k <= n == comp@.len(),
            last_word_space_spec(c) == last_word_space_scan(c, k as int),
        decreases k,
    {
        let i = k - 1;
        let suffix = vstd::slice::slice_subrange(comp, i, n);
        proof {
            lemma_cv_subrange(comp@, i as int, n as int);
            lemma_wf_subrange(c, i as int, n as int);
        }
        match first_char(suffix, Mode::ENGLISH) {
            Some(c0) => {
                if is_space(c0) {
                    if i == n - 1 {
                        return n;
                    }
                    return i + 1;
                }
            },
            None => {},
        }
        k -= 1;
    }
    0
}

/// The start of the last syllable within `last` after scanning its first
/// `k` transformations: whenever `last[anchor..=i]` stops being a valid
/// syllable, a new syllable starts at `i`.
pub open spec fn syllable_anchor(last: Seq<TransV>, k: int) -> int
    decreases k,
{
    if k <= 0 {
        0
    } else {
        let a = syllable_anchor(last, k - 1);
        if !is_valid_spec(last.subrange(a, k), false) {
            k - 1
        } else {
            a
        }
    }
}

pub proof fn lemma_anchor_bounds(last: Seq<TransV>, k: int)
    requires
        0 <= k,
    ensures
        k == 0 ==> syllable_anchor(last, k) == 0,
        k > 0 ==> 0 <= syllable_anchor(last, k) <= k - 1,
    decreases k,
{
    if k > 0 {
        lemma_anchor_bounds(last, k - 1);
    }
}

/// Split index isolating the last syllable: `c[n..]` is the last syllable.
pub open spec fn last_syllable_spec(c: Seq<TransV>) -> int {
    let ws = last_word_spec(c, Seq::empty());
    ws + syllable_anchor(c.subrange(ws, c.len() as int), c.len() - ws)
}

pub fn extract_last_syllable(comp: &[Transformation]) -> (r: usize)
    requires
        comp_wf(cv(comp@)),
    ensures
        r == last_syllable_spec(cv(comp@)),
        r <= comp@.len(),
{
    let ghost c = cv(comp@);
    let no_keys: Vec<char> = Vec::new();
    let word_split = extract_last_word(comp, no_keys.as_slice());
    assert(no_keys@ =~= Seq::<char>::empty());
    let n = comp.len();
    let last = vstd::slice::slice_subrange(comp, word_split, n);
    let ghost l = cv(last@);
    proof {
        lemma_cv_subrange(comp@, word_split as int, n as int);
        lemma_wf_subrange(c, word_split as int, n as int);
    }
    let mut anchor: usize = 0;
    let mut i: usize = 0;
    while i < last.len()
        invariant
            l == cv(last@),
            l == c.subrange(word_split as int, n as int),
            comp_wf(l),
            i <= last@.len(),
            anchor as int == syllable_anchor(l, i as int),
            i > 0 ==> anchor < i,
            i == 0 ==> anchor == 0,
        decreases last@.len() - i,
    {
        proof {
            lemma_anchor_bounds(l, i as int);
            lemma_cv_subrange(last@, anchor as int, i + 1);
            lemma_wf_subrange(l, anchor as int, i + 1);
        }
        let piece = vstd::slice::slice_subrange(last, anchor, i + 1);
        if !is_valid(piece, false) {
            anchor = i;
        }
        i += 1;
    }
    proof {
        lemma_anchor_bounds(l, l.len() as int);
    }
    word_split + anchor
}

/// Whether some transformation of `c` has id `x`.
pub open spec fn has_id(c: Seq<TransV>, x: TransId) -> bool {
    exists|i: int| 0 <= i < c.len() && (#[trigger] c[i]).id == x
}

/// Whether every target in `c` is the id of a transformation of `c`.
pub open spec fn targets_closed(c: Seq<TransV>) -> bool {
    forall|i: int| 0 <= i < c.len() ==> ((#[trigger] c[i]).target matches Some(t) ==> has_id(c, t))
}

/// `c`, followed by the probe effect `x` when there is one.
pub open spec fn with_probe(c: Seq<TransV>, x: Option<TransV>) -> Seq<TransV> {
    match x {
        Some(t) => c.push(t),
        None => c,
    }
}

/// A probe effect: not an append, targeting a transformation of `c`, with an
/// id that no transformation of `c` has.
pub open spec fn probe_ok(c: Seq<TransV>, x: Option<TransV>) -> bool {
    match x {
        Some(t) => {
            &&& t.rule.effect_type != EffectType::Appending
            &&& t.target matches Some(g) && has_id(c, g)
            &&& !has_id(c, t.id)
        },
        None => true,
    }
}

proof fn lemma_untargeted_in(c: Seq<TransV>, x: Option<TransV>, j: int)
    requires
        probe_ok(c, x),
        0 <= j < with_probe(c, x).len(),
        with_probe(c, x)[j].target is None,
    ensures
        j < c.len(),
        with_probe(c, x)[j] == c[j],
        has_id(c, with_probe(c, x)[j].id),
{
    assert(c[j] == with_probe(c, x)[j]);
}

/// Walking targets from a transformation of the extended composition ends
/// on a transformation of `c`.
pub proof fn lemma_walk_inside(c: Seq<TransV>, x: Option<TransV>, id: TransId, fuel: nat)
    requires
        targets_closed(c),
        probe_ok(c, x),
        has_id(with_probe(c, x), id),
        fuel >= 1 || has_id(c, id),
    ensures
        has_id(c, root_walk(with_probe(c, x), id, fuel)),
    decreases fuel,
{
    let e = with_probe(c, x);
    if fuel > 0 {
        lemma_by_id(e, id);
        let w = choose|w: int| 0 <= w < e.len() && #[trigger] e[w].id == id;
        let i = by_id_spec(e, id)->0;
        if i < c.len() {
            assert(e[i] == c[i]);
            match c[i].target {
                Some(p) => {
                    assert(has_id(c, p));
                    assert(e[i] == c[i]);
                    let q = choose|q: int| 0 <= q < c.len() && #[trigger] c[q].id == p;
                    assert(e[q] == c[q]);
                    lemma_walk_inside(c, x, p, (fuel - 1) as nat);
                },
                None => {},
            }
        } else {
            let t = x->0;
            assert(e[i] == t);
            let g = t.target->0;
            let q = choose|q: int| 0 <= q < c.len() && #[trigger] c[q].id == g;
            assert(e[q] == c[q]);
            lemma_walk_inside(c, x, g, (fuel - 1) as nat);
        }
    }
}

proof fn lemma_last_appending_is(s: Seq<TransV>)
    ensures
        last_appending_spec(s) matches Some(t) ==> exists|k: int|
            0 <= k < s.len() && (#[trigger] s[k]).id == t && s[k].rule.effect_type == EffectType::Appending,
    decreases s.len(),
{
    if s.len() > 0 && s.last().rule.effect_type != EffectType::Appending {
        lemma_last_appending_is(s.drop_last());
        if last_appending_spec(s) is Some {
            let k = choose|k: int| 0 <= k < s.drop_last().len() && (#[trigger] s.drop_last()[k]).id == last_appending_spec(s)->0
                && s.drop_last()[k].rule.effect_type == EffectType::Appending;
            assert(s[k] == s.drop_last()[k]);
        }
    } else if s.len() > 0 {
        assert(s[s.len() - 1] == s.last());
    }
}

/// Facts on the vowel indices of a split of the extended composition: each
/// is the index of an untargeted transformation of `c`.
pub proof fn lemma_split_vo_inside(c: Seq<TransV>, x: Option<TransV>)
    requires
        probe_ok(c, x),
        with_probe(c, x).len() <= usize::MAX,
    ensures
        ({
            let e = with_probe(c, x);
            let vo = cvc_split_spec(e).vo();
            forall|k: int| 0 <= k < vo.len() ==> {
                &&& (#[trigger] vo[k]) < c.len()
                &&& e[vo[k] as int] == c[vo[k] as int]
                &&& e[vo[k] as int].target is None
            }
        }),
{
    let e = with_probe(c, x);
    crate::cvc::lemma_cvc_split_bounds(e);
    crate::cvc::lemma_appenders_ok(e);
    let sp = cvc_split_spec(e);
    let vo = sp.vo();
    assert forall|k: int| 0 <= k < vo.len() implies {
        &&& (#[trigger] vo[k]) < c.len()
        &&& e[vo[k] as int] == c[vo[k] as int]
        &&& e[vo[k] as int].target is None
    } by {
        assert(vo[k] == sp.app[sp.fc_end + k]);
        assert(e[sp.app[sp.fc_end + k] as int].target is None);
        lemma_untargeted_in(c, x, vo[k] as int);
    }
}

proof fn lemma_carrier_appenders_inside(c: Seq<TransV>, x: Option<TransV>, vo: Seq<usize>, k: int)
    requires
        probe_ok(c, x),
        0 <= k <= vo.len(),
        forall|m: int| 0 <= m < vo.len() ==> {
            &&& (#[trigger] vo[m]) < c.len()
            &&& with_probe(c, x)[vo[m] as int] == c[vo[m] as int]
        },
    ensures
        carrier_in_appenders(with_probe(c, x), vo, k) matches Some(t) ==> has_id(c, t),
    decreases k,
{
    if k > 0 {
        lemma_carrier_appenders_inside(c, x, vo, k - 1);
        assert(vo[k - 1] < c.len());
    }
}

proof fn lemma_carrier_effects_inside(
    c: Seq<TransV>,
    x: Option<TransV>,
    vo: Seq<usize>,
    k: int,
    start: Option<TransId>,
)
    requires
        probe_ok(c, x),
        0 <= k <= with_probe(c, x).len(),
        forall|m: int| 0 <= m < vo.len() ==> {
            &&& (#[trigger] vo[m]) < c.len()
            &&& with_probe(c, x)[vo[m] as int] == c[vo[m] as int]
        },
        start matches Some(t) ==> has_id(c, t),
    ensures
        carrier_in_effects(with_probe(c, x), vo, k, start) matches Some(t) ==> has_id(c, t),
    decreases k,
{
    let e = with_probe(c, x);
    if k > 0 {
        lemma_carrier_effects_inside(c, x, vo, k - 1, start);
        match e[k - 1].target {
            Some(tgt) => {
                if is_carrier(e[k - 1].rule.result) && in_vowels(e, vo, tgt) {
                    let m = choose|m: int| 0 <= m < vo.len() && e[(#[trigger] vo[m]) as int].id == tgt;
                    assert(vo[m] < c.len());
                    assert(c[vo[m] as int].id == tgt);
                }
            },
            None => {},
        }
    }
}

/// The transformation chosen to carry the tone of the extended composition
/// is one of `c`.
pub proof fn lemma_tone_target_inside(c: Seq<TransV>, x: Option<TransV>, std_style: bool)
    requires
        probe_ok(c, x),
        with_probe(c, x).len() <= usize::MAX,
    ensures
        tone_target_spec(with_probe(c, x), std_style) matches Some(t) ==> has_id(c, t),
{
    let e = with_probe(c, x);
    if e.len() > 0 {
        lemma_split_vo_inside(c, x);
        let sp = cvc_split_spec(e);
        let vo = sp.vo();
        let vowels = vowel_appenders(e, vo);
        assert forall|m: int| 0 <= m < vowels.len() implies {
            &&& (#[trigger] vowels[m]) < c.len()
            &&& e[vowels[m] as int] == c[vowels[m] as int]
        } by {
            vo.lemma_filter_contains_rev(|i: usize| e[i as int].rule.effect_type == EffectType::Appending, vowels[m]);
            assert(vowels.contains(vowels[m]));
            let j = choose|j: int| 0 <= j < vo.len() && vo[j] == vowels[m];
            assert(vo[j] < c.len());
        }
        if vowels.len() >= 1 {
            assert(vowels[0] < c.len());
            assert(c[vowels[0] as int].id == e[vowels[0] as int].id);
        }
        if vowels.len() >= 2 {
            assert(vowels[1] < c.len());
            assert(c[vowels[1] as int].id == e[vowels[1] as int].id);
        }
        if vowels.len() >= 3 {
            assert(vowels[2] < c.len());
            assert(c[vowels[2] as int].id == e[vowels[2] as int].id);
        }
        lemma_carrier_appenders_inside(c, x, vo, vo.len() as int);
        let fa = carrier_in_appenders(e, vo, vo.len() as int);
        lemma_carrier_effects_inside(c, x, vo, e.len() as int, fa);
    }
}

/// The target a tone rule picks in the extended composition is one of `c`.
pub proof fn lemma_tone_for_inside(c: Seq<TransV>, x: Option<TransV>, rule: RuleHead, flags: EngineFlags)
    requires
        probe_ok(c, x),
        with_probe(c, x).len() <= usize::MAX,
    ensures
        tone_target_for_spec(with_probe(c, x), rule, flags) matches Some(t) ==> has_id(c, t),
{
    let e = with_probe(c, x);
    lemma_tone_target_inside(c, x, flags.has(FLAG_STD_TONE_STYLE));
    lemma_last_appending_is(e);
    if let Some(la) = last_appending_spec(e) {
        let k = choose|k: int| 0 <= k < e.len() && (#[trigger] e[k]).id == la && e[k].rule.effect_type
            == EffectType::Appending;
        if k < c.len() {
            assert(e[k] == c[k]);
        } else {
            assert(e[k] == x->0);
        }
    }
}

} // verus!
