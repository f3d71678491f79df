//! Building the transformations a keystroke adds to a composition.
use vstd::prelude::*;
use crate::composition::{
    clone_range, comp_wf, cv, head_wf, heads_wf, lemma_cv_push, trans_wf, IdGen, TransId, TransV,
    Transformation, TEMP_ID,
};
use crate::flatten::{flatten, flatten_spec, flatten_with_extra};
use crate::mode::{EngineFlags, Mode};
use crate::rules::{rv, same_rules, tone_or_none, EffectType, Rule, RuleHead, RuleV, Tone};
use crate::target::{
    by_id, by_id_spec, find_root_target, is_free, is_free_spec, is_valid, is_valid_spec,
    has_id, lemma_by_id, probe_ok, root_target, targets_closed, temp_effect_spec, tone_target_for, tone_target_for_spec,
    with_probe,
};
use crate::unicode_tables::{find_tone_from_char, tone_of_char};

verus! {

/// Every rule, and every rule appended to one, applies one of the six tones
/// when it applies a tone.
pub open spec fn rules_wf(rules: Seq<RuleV>) -> bool {
    forall|j: int|
        0 <= j < rules.len() ==> head_wf((#[trigger] rules[j]).head) && heads_wf(rules[j].appended)
}

/// The head of `Rule::default()`.
pub open spec fn default_head() -> RuleHead {
    RuleHead {
        key: '\0',
        effect: 0,
        effect_type: EffectType::Appending,
        effect_on: '\0',
        result: '\0',
    }
}

/// A virtual effect: no key, the given type and effect byte.
pub open spec fn virtual_head(effect_type: EffectType, effect: u8) -> RuleHead {
    RuleHead { key: '\0', effect, effect_type, effect_on: '\0', result: '\0' }
}

/// `h` with its key cleared (a virtual copy of the rule).
pub open spec fn unkeyed(h: RuleHead) -> RuleHead {
    RuleHead { key: '\0', ..h }
}

/// A plain appending transformation of `key`.
pub open spec fn appending_spec(id: TransId, key: char, is_upper_case: bool) -> TransV {
    TransV {
        id,
        rule: RuleHead {
            key,
            effect: 0,
            effect_type: EffectType::Appending,
            effect_on: key,
            result: key,
        },
        target: None,
        is_upper_case,
    }
}

/// Whether the appended rules of `r` are none, or the same, all the way
/// down, as those of one of `rules`.
pub open spec fn appended_from(r: Rule, rules: Seq<Rule>) -> bool {
    ||| r.appended_rules@.len() == 0
    ||| exists|j: int| 0 <= j < rules.len() && #[trigger] same_rules(r.appended_rules@, rules[j].appended_rules@)
}

/// The `k`-th id handed out from `n`.
pub open spec fn id_at(n: nat, k: nat) -> TransId {
    (n + k) as TransId
}

fn default_rule() -> (r: Rule)
    ensures
        r@ == default_head(),
        r.appended().len() == 0,
        r.appended_rules@.len() == 0,
{
    Rule::from_head(
        RuleHead {
            key: '\0',
            effect: 0,
            effect_type: EffectType::Appending,
            effect_on: '\0',
            result: '\0',
        },
    )
}

fn virtual_rule(effect_type: EffectType, effect: u8) -> (r: Rule)
    ensures
        r@ == virtual_head(effect_type, effect),
        r.appended().len() == 0,
        r.appended_rules@.len() == 0,
{
    Rule::from_head(RuleHead { key: '\0', effect, effect_type, effect_on: '\0', result: '\0' })
}

fn temp_effect(target: Option<TransId>, rule: &Rule) -> (r: Transformation)
    ensures
        r@ == temp_effect_spec(target, rule@),
{
    Transformation { id: TEMP_ID, rule: rule.duplicate(), target, is_upper_case: false }
}

/// `comp` with `extra` appended, as a new vector.
fn with_extra(comp: &[Transformation], extra: Transformation) -> (r: Vec<Transformation>)
    ensures
        cv(r@) == cv(comp@).push(extra@),
{
    let mut v = clone_range(comp, 0, comp.len());
    assert(cv(comp@).subrange(0, comp@.len() as int) =~= cv(comp@));
    proof {
        lemma_cv_push(v@, extra);
    }
    v.push(extra);
    v
}

proof fn lemma_push_wf(c: Seq<TransV>, t: TransV)
    requires
        comp_wf(c),
        trans_wf(t),
    ensures
        comp_wf(c.push(t)),
{
    assert forall|k: int| 0 <= k < c.push(t).len() implies trans_wf(#[trigger] c.push(t)[k]) by {
        if k < c.len() {
            assert(c.push(t)[k] == c[k]);
        }
    }
}

/// The mark search: scanning positions `i-1` down to `0`, and at each
/// position the rules from `j` on, find a mark rule whose source character
/// is that transformation's result, whose effect changes the text, and that
/// leaves a valid syllable. Its target is the root of that transformation.
pub open spec fn mark_scan(c: Seq<TransV>, rules: Seq<RuleV>, s: Seq<char>, i: int, j: int) -> (
    Option<TransId>,
    RuleHead,
)
    decreases i, rules.len() - j,
{
    if i <= 0 {
        (None, default_head())
    } else if j >= rules.len() {
        mark_scan(c, rules, s, i - 1, 0)
    } else {
        let t = c[i - 1];
        let r = rules[j].head;
        if r.effect_type == EffectType::MarkTransformation && t.rule.result == r.effect_on
            && r.effect > 0 {
            let target = root_target(c, t.id);
            let probe = c.push(temp_effect_spec(Some(target), r));
            if s == flatten_spec(probe, Mode::VIETNAMESE) {
                mark_scan(c, rules, s, i, j + 1)
            } else if is_valid_spec(probe, false) {
                (Some(target), r)
            } else {
                mark_scan(c, rules, s, i, j + 1)
            }
        } else {
            mark_scan(c, rules, s, i, j + 1)
        }
    }
}

/// The mark target of `c` for `rules`; `s` is `c` flattened in Vietnamese.
pub open spec fn mark_target_spec(c: Seq<TransV>, rules: Seq<RuleV>, s: Seq<char>) -> (
    Option<TransId>,
    RuleHead,
) {
    mark_scan(c, rules, s, c.len() as int, 0)
}

fn find_mark_target(comp: &[Transformation], rules: &[Rule], s: &[char]) -> (r: (Option<TransId>, Rule))
    requires
        comp_wf(cv(comp@)),
        rules_wf(rv(rules@)),
    ensures
        (r.0, r.1@) == mark_target_spec(cv(comp@), rv(rules@), s@),
        rules_wf(rv(rules@)) ==> head_wf(r.1@),
        appended_from(r.1, rules@),
{
    let ghost c = cv(comp@);
    let mut i = comp.len();
    while i > 0
        invariant
            c == cv(comp@),
            comp_wf(c),
            rules_wf(rv(rules@)),
            i <= comp@.len(),
            mark_target_spec(c, rv(rules@), s@) == mark_scan(c, rv(rules@), s@, i as int, 0),
        decreases i,
    {
        let mut j: usize = 0;
        while j < rules.len()
            invariant
                c == cv(comp@),
                comp_wf(c),
                rules_wf(rv(rules@)),
                0 < i <= comp@.len(),
                j <= rv(rules@).len(),
                mark_target_spec(c, rv(rules@), s@) == mark_scan(c, rv(rules@), s@, i as int, j as int),
            decreases rv(rules@).len() - j,
        {
            let rule = &rules[j];
            assert(head_wf(rv(rules@)[j as int].head));
            if rule.effect_type == EffectType::MarkTransformation && comp[i - 1].rule.result
                == rule.effect_on && rule.effect > 0 {
                let target = find_root_target(comp, comp[i - 1].id);
                let extra = temp_effect(Some(target), rule);
                let shown = flatten_with_extra(comp, &extra, Mode::VIETNAMESE);
                if !crate::text::chars_eq(s, shown.as_slice()) {
                    let probe = with_extra(comp, extra);
                    proof {
                        lemma_push_wf(c, extra@);
                    }
                    if is_valid(probe.as_slice(), false) {
                        let d = rule.duplicate();
                        proof {
                            crate::rules::lemma_same_rule_parts(d, rules@[j as int]);
                        }
                        return (Some(target), d);
                    }
                }
            }
            j += 1;
        }
        i -= 1;
    }
    (None, default_rule())
}

/// The tone search over `rules[j..]`, falling back to the mark search: the
/// first tone rule whose effect changes the text decides the target. A
/// tone-removal whose target is untoned and free of tones targets nothing.
pub open spec fn target_scan(c: Seq<TransV>, rules: Seq<RuleV>, flags: EngineFlags, s: Seq<char>, j: int) -> (
    Option<TransId>,
    RuleHead,
)
    decreases rules.len() - j,
{
    if j >= rules.len() {
        mark_target_spec(c, rules, s)
    } else {
        let r = rules[j].head;
        if r.effect_type != EffectType::ToneTransformation {
            target_scan(c, rules, flags, s, j + 1)
        } else {
            let target = tone_target_for_spec(c, r, flags);
            if s == flatten_spec(c.push(temp_effect_spec(target, r)), Mode::VIETNAMESE) {
                target_scan(c, rules, flags, s, j + 1)
            } else {
                let untoned_target = match target {
                    Some(tid) => match by_id_spec(c, tid) {
                        Some(k) => tone_of_char(c[k].rule.result) == Tone::NoTone,
                        None => false,
                    },
                    None => false,
                };
                if tone_or_none(r.effect) == Tone::NoTone && is_free_spec(
                    c,
                    target,
                    EffectType::ToneTransformation,
                ) && untoned_target {
                    (None, r)
                } else {
                    (target, r)
                }
            }
        }
    }
}

/// The target (and rule) a keystroke with `rules` applies to in `c`.
pub open spec fn find_target_spec(c: Seq<TransV>, rules: Seq<RuleV>, flags: EngineFlags) -> (
    Option<TransId>,
    RuleHead,
) {
    target_scan(c, rules, flags, flatten_spec(c, Mode::VIETNAMESE), 0)
}

pub fn find_target(comp: &[Transformation], rules: &[Rule], flags: EngineFlags) -> (r: (
    Option<TransId>,
    Rule,
))
    requires
        comp_wf(cv(comp@)),
        rules_wf(rv(rules@)),
    ensures
        (r.0, r.1@) == find_target_spec(cv(comp@), rv(rules@), flags),
        head_wf(r.1@),
        appended_from(r.1, rules@),
{
    let ghost c = cv(comp@);
    let s = flatten(comp, Mode::VIETNAMESE);
    let mut j: usize = 0;
    while j < rules.len()
        invariant
            c == cv(comp@),
            comp_wf(c),
            rules_wf(rv(rules@)),
            s@ == flatten_spec(c, Mode::VIETNAMESE),
            j <= rv(rules@).len(),
            find_target_spec(c, rv(rules@), flags) == target_scan(c, rv(rules@), flags, s@, j as int),
        decreases rv(rules@).len() - j,
    {
        let rule = &rules[j];
        assert(head_wf(rv(rules@)[j as int].head));
        if rule.effect_type == EffectType::ToneTransformation {
            let mut target = tone_target_for(comp, rule.head(), flags);
            let extra = temp_effect(target, rule);
            let shown = flatten_with_extra(comp, &extra, Mode::VIETNAMESE);
            if !crate::text::chars_eq(s.as_slice(), shown.as_slice()) {
                let untoned_target = match target {
                    Some(tid) => {
                        proof {
                            lemma_by_id(c, tid);
                        }
                        match by_id(comp, tid) {
                            Some(k) => find_tone_from_char(comp[k].rule.result) == Tone::NoTone,
                            None => false,
                        }
                    },
                    None => false,
                };
                if Tone::from_code_or_none(rule.effect) == Tone::NoTone && is_free(
                    comp,
                    target,
                    EffectType::ToneTransformation,
                ) && untoned_target {
                    target = None;
                }
                let d = rule.duplicate();
                proof {
                    crate::rules::lemma_same_rule_parts(d, rules@[j as int]);
                }
                return (target, d);
            }
        }
        j += 1;
    }
    find_mark_target(comp, rules, s.as_slice())
}


/// A new appending transformation of `key`, taking the next id.
pub fn new_appending_trans(ids: &mut IdGen, key: char, is_upper_case: bool) -> (r: Transformation)
    requires
        old(ids).next < TEMP_ID,
    ensures
        r@ == appending_spec(old(ids).next, key, is_upper_case),
        final(ids).next == old(ids).next + 1,
        r.rule.appended_rules@.len() == 0,
{
    Transformation {
        id: ids.next_id(),
        rule: Rule::from_head(
            RuleHead {
                key,
                effect: 0,
                effect_type: EffectType::Appending,
                effect_on: key,
                result: key,
            },
        ),
        target: None,
        is_upper_case,
    }
}

/// The undo search: for each rule from `j` on, a tone rule with a target
/// yields a tone removal on it; a mark rule yields, for each transformation
/// (scanning positions `i-1` down) whose result is the rule's source, a mark
/// removal on its root, unless that removal would not change the text `s`
/// (shown lowercase and toneless). New transformations take ids `n`, `n+1`,
/// … in order; `out` is what was found so far.
pub open spec fn undo_scan(
    n: nat,
    c: Seq<TransV>,
    rules: Seq<RuleV>,
    flags: EngineFlags,
    s: Seq<char>,
    j: int,
    i: int,
    out: Seq<TransV>,
) -> Seq<TransV>
    decreases rules.len() - j, i,
{
    if j >= rules.len() {
        out
    } else {
        let r = rules[j].head;
        if r.effect_type == EffectType::ToneTransformation {
            let target = tone_target_for_spec(c, r, flags);
            let out2 = if target is Some {
                out.push(
                    TransV {
                        id: id_at(n, out.len()),
                        target,
                        rule: virtual_head(EffectType::ToneTransformation, 0),
                        is_upper_case: false,
                    },
                )
            } else {
                out
            };
            undo_scan(n, c, rules, flags, s, j + 1, c.len() as int, out2)
        } else if r.effect_type == EffectType::MarkTransformation {
            if i <= 0 {
                undo_scan(n, c, rules, flags, s, j + 1, c.len() as int, out)
            } else if c[i - 1].rule.result == r.effect_on {
                let target = root_target(c, c[i - 1].id);
                let probe = temp_effect_spec(Some(target), virtual_head(EffectType::MarkTransformation, 0));
                if s == flatten_spec(c.push(probe), Mode::Bits(21)) {
                    undo_scan(n, c, rules, flags, s, j, i - 1, out)
                } else {
                    undo_scan(
                        n,
                        c,
                        rules,
                        flags,
                        s,
                        j,
                        i - 1,
                        out.push(
                            TransV {
                                id: id_at(n, out.len()),
                                target: Some(target),
                                rule: virtual_head(EffectType::MarkTransformation, 0),
                                is_upper_case: false,
                            },
                        ),
                    )
                }
            } else {
                undo_scan(n, c, rules, flags, s, j, i - 1, out)
            }
        } else {
            undo_scan(n, c, rules, flags, s, j + 1, c.len() as int, out)
        }
    }
}

/// The transformations that undo the effects of `rules` in `c`.
pub open spec fn undo_spec(n: nat, c: Seq<TransV>, rules: Seq<RuleV>, flags: EngineFlags, s: Seq<char>) -> Seq<
    TransV,
> {
    undo_scan(n, c, rules, flags, s, 0, c.len() as int, Seq::empty())
}

pub proof fn lemma_undo_grows(
    n: nat,
    c: Seq<TransV>,
    rules: Seq<RuleV>,
    flags: EngineFlags,
    s: Seq<char>,
    j: int,
    i: int,
    out: Seq<TransV>,
)
    ensures
        undo_scan(n, c, rules, flags, s, j, i, out).len() >= out.len(),
        forall|k: int|
            0 <= k < out.len() ==> #[trigger] undo_scan(n, c, rules, flags, s, j, i, out)[k] == out[k],
    decreases rules.len() - j, i,
{
    if j >= rules.len() {
    } else {
        let r = rules[j].head;
        if r.effect_type == EffectType::ToneTransformation {
            let target = tone_target_for_spec(c, r, flags);
            let out2 = if target is Some {
                out.push(
                    TransV {
                        id: id_at(n, out.len()),
                        target,
                        rule: virtual_head(EffectType::ToneTransformation, 0),
                        is_upper_case: false,
                    },
                )
            } else {
                out
            };
            lemma_undo_grows(n, c, rules, flags, s, j + 1, c.len() as int, out2);
        } else if r.effect_type == EffectType::MarkTransformation {
            if i <= 0 {
                lemma_undo_grows(n, c, rules, flags, s, j + 1, c.len() as int, out);
            } else if c[i - 1].rule.result == r.effect_on {
                let target = root_target(c, c[i - 1].id);
                let probe = temp_effect_spec(Some(target), virtual_head(EffectType::MarkTransformation, 0));
                if s == flatten_spec(c.push(probe), Mode::Bits(21)) {
                    lemma_undo_grows(n, c, rules, flags, s, j, i - 1, out);
                } else {
                    let out2 = out.push(
                        TransV {
                            id: id_at(n, out.len()),
                            target: Some(target),
                            rule: virtual_head(EffectType::MarkTransformation, 0),
                            is_upper_case: false,
                        },
                    );
                    lemma_undo_grows(n, c, rules, flags, s, j, i - 1, out2);
                }
            } else {
                lemma_undo_grows(n, c, rules, flags, s, j, i - 1, out);
            }
        } else {
            lemma_undo_grows(n, c, rules, flags, s, j + 1, c.len() as int, out);
        }
    }
}

/// Whether every transformation of `out` is a virtual tone or mark removal.
pub open spec fn all_removals(out: Seq<TransV>) -> bool {
    forall|k: int| 0 <= k < out.len() ==> (#[trigger] out[k]).rule.effect == 0
}

proof fn lemma_removals_wf(out: Seq<TransV>)
    requires
        all_removals(out),
    ensures
        comp_wf(out),
{
    assert forall|k: int| 0 <= k < out.len() implies trans_wf(#[trigger] out[k]) by {}
}

fn generate_undo_transformations(
    ids: &mut IdGen,
    comp: &[Transformation],
    rules: &[Rule],
    flags: EngineFlags,
    s: &[char],
) -> (r: Vec<Transformation>)
    requires
        comp_wf(cv(comp@)),
        rules_wf(rv(rules@)),
        old(ids).next + undo_spec(old(ids).next as nat, cv(comp@), rv(rules@), flags, s@).len() <= TEMP_ID,
    ensures
        cv(r@) == undo_spec(old(ids).next as nat, cv(comp@), rv(rules@), flags, s@),
        final(ids).next == old(ids).next + r@.len(),
        all_removals(cv(r@)),
        forall|k: int| 0 <= k < r@.len() ==> (#[trigger] r@[k]).rule.appended_rules@.len() == 0,
{
    let ghost c = cv(comp@);
    let ghost n = ids.next as nat;
    let ghost total = undo_spec(n, c, rv(rules@), flags, s@);
    let mut out: Vec<Transformation> = Vec::new();
    assert(cv(out@) =~= Seq::<TransV>::empty());
    let mut j: usize = 0;
    while j < rules.len()
        invariant
            c == cv(comp@),
            comp_wf(c),
            rules_wf(rv(rules@)),
            j <= rv(rules@).len(),
            total == undo_spec(n, c, rv(rules@), flags, s@),
            n + total.len() <= TEMP_ID,
            total == undo_scan(n, c, rv(rules@), flags, s@, j as int, c.len() as int, cv(out@)),
            ids.next == n + out@.len(),
            all_removals(cv(out@)),
            forall|k: int| 0 <= k < out@.len() ==> (#[trigger] out@[k]).rule.appended_rules@.len() == 0,
        decreases rv(rules@).len() - j,
    {
        let rule = &rules[j];
        assert(head_wf(rv(rules@)[j as int].head));
        if rule.effect_type == EffectType::ToneTransformation {
            let target = tone_target_for(comp, rule.head(), flags);
            if target.is_some() {
                proof {
                    let t = TransV {
                        id: id_at(n, cv(out@).len()),
                        target,
                        rule: virtual_head(EffectType::ToneTransformation, 0),
                        is_upper_case: false,
                    };
                    lemma_undo_grows(n, c, rv(rules@), flags, s@, j + 1, c.len() as int, cv(out@).push(t));
                }
                let t = Transformation {
                    id: ids.next_id(),
                    target,
                    rule: virtual_rule(EffectType::ToneTransformation, 0),
                    is_upper_case: false,
                };
                proof {
                    lemma_cv_push(out@, t);
                }
                out.push(t);
            }
        } else if rule.effect_type == EffectType::MarkTransformation {
            let mut i = comp.len();
            while i > 0
                invariant
                    c == cv(comp@),
                    comp_wf(c),
                    rules_wf(rv(rules@)),
                    j < rv(rules@).len(),
                    rv(rules@)[j as int].head.effect_type == EffectType::MarkTransformation,
                    i <= comp@.len(),
                    total == undo_spec(n, c, rv(rules@), flags, s@),
                    n + total.len() <= TEMP_ID,
                    total == undo_scan(n, c, rv(rules@), flags, s@, j as int, i as int, cv(out@)),
                    ids.next == n + out@.len(),
                    all_removals(cv(out@)),
                    forall|k: int| 0 <= k < out@.len() ==> (#[trigger] out@[k]).rule.appended_rules@.len() == 0,
                decreases i,
            {
                if comp[i - 1].rule.result == rules[j].effect_on {
                    let target = find_root_target(comp, comp[i - 1].id);
                    let probe_rule = virtual_rule(EffectType::MarkTransformation, 0);
                    let extra = temp_effect(Some(target), &probe_rule);
                    let shown = flatten_with_extra(comp, &extra, Mode::Bits(21));
                    if !crate::text::chars_eq(s, shown.as_slice()) {
                        proof {
                            let t = TransV {
                                id: id_at(n, cv(out@).len()),
                                target: Some(target),
                                rule: virtual_head(EffectType::MarkTransformation, 0),
                                is_upper_case: false,
                            };
                            lemma_undo_grows(n, c, rv(rules@), flags, s@, j as int, i - 1, cv(out@).push(t));
                        }
                        let t = Transformation {
                            id: ids.next_id(),
                            target: Some(target),
                            rule: probe_rule,
                            is_upper_case: false,
                        };
                        proof {
                            lemma_cv_push(out@, t);
                        }
                        out.push(t);
                    }
                }
                i -= 1;
            }
        }
        j += 1;
    }
    out
}


/// Whether the text holds the cluster `ưo` or `ươ`.
pub open spec fn has_uh_o(s: Seq<char>) -> bool {
    exists|i: int| 0 <= i && i + 1 < s.len() && #[trigger] s[i] == 'ư' && (s[i + 1] == 'o' || s[i + 1] == 'ơ')
}

fn contains_uh_o(s: &[char]) -> (r: bool)
    ensures
        r == has_uh_o(s@),
{
    let mut i: usize = 0;
    while i < s.len() && i + 1 < s.len()
        invariant
            i <= s@.len(),
            forall|k: int| 0 <= k < i && k + 1 < s@.len() ==> !(#[trigger] s@[k] == 'ư' && (s@[k + 1] == 'o' || s@[k + 1] == 'ơ')),
        decreases s@.len() - i,
    {
        if s[i] == 'ư' && (s[i + 1] == 'o' || s[i + 1] == 'ơ') {
            return true;
        }
        i += 1;
    }
    false
}

/// The first vowel appender of `c` that appends, if any.
pub open spec fn first_vowel_spec(c: Seq<TransV>) -> Option<usize> {
    let v = crate::target::vowel_appenders(c, crate::cvc::cvc_split_spec(c).vo());
    if v.len() > 0 {
        Some(v[0])
    } else {
        None
    }
}

/// Whether pressing `key` right after typing it raw undoes it (`w` + `w` →
/// `w`): the last transformation appends `key` but shows another character.
pub open spec fn raw_undo_applies(c: Seq<TransV>, key: char) -> bool {
    c.len() > 0 && c.last().rule.effect_type == EffectType::Appending && c.last().rule.key == key
        && c.last().rule.key != c.last().rule.result
}

/// The undo transformations followed by a plain append of `key`, when there
/// is anything to undo; ids start `m` after `n`. Returns the
/// transformations and the number of ids taken from `n`.
pub open spec fn undo_tail(
    n: nat,
    m: nat,
    c: Seq<TransV>,
    rules: Seq<RuleV>,
    flags: EngineFlags,
    s: Seq<char>,
    key: char,
    upper: bool,
) -> (Seq<TransV>, nat) {
    let u = undo_spec(n + m, c, rules, flags, s);
    if u.len() > 0 {
        (u.push(appending_spec(id_at(n, m + u.len()), key, upper)), m + u.len() + 1)
    } else {
        (Seq::empty(), m)
    }
}

/// The transformations a keypress of `key` with `rules` adds to `c` (empty
/// when the key should fall back to a plain append), and the number of ids
/// it takes, starting at `n`.
pub open spec fn generate_spec(
    n: nat,
    c: Seq<TransV>,
    rules: Seq<RuleV>,
    flags: EngineFlags,
    key: char,
    upper: bool,
) -> (Seq<TransV>, nat) {
    if raw_undo_applies(c, key) {
        (
            seq![
                TransV {
                    id: id_at(n, 0),
                    target: Some(c.last().id),
                    rule: virtual_head(EffectType::MarkTransformation, 5),
                    is_upper_case: false,
                },
            ],
            1,
        )
    } else {
        let (target, ar) = find_target_spec(c, rules, flags);
        match target {
            Some(tid) => {
                let t0 = TransV { id: id_at(n, 0), rule: ar, target: Some(tid), is_upper_case: upper };
                if ar.effect_type != EffectType::MarkTransformation || is_valid_spec(c.push(t0), true) {
                    (seq![t0], 1)
                } else {
                    let (t2, vr) = find_target_spec(c.push(t0), rules, flags);
                    match t2 {
                        Some(x) => (
                            seq![
                                t0,
                                TransV {
                                    id: id_at(n, 1),
                                    rule: unkeyed(vr),
                                    target: Some(x),
                                    is_upper_case: false,
                                },
                            ],
                            2,
                        ),
                        None => (seq![t0], 1),
                    }
                }
            },
            None => {
                let s = flatten_spec(c, Mode::Bits(21));
                match first_vowel_spec(c) {
                    Some(vi) => if has_uh_o(s) {
                        let v0 = c[vi as int].id;
                        let tr = TransV {
                            id: id_at(n, 0),
                            target: Some(v0),
                            rule: virtual_head(EffectType::MarkTransformation, 0),
                            is_upper_case: false,
                        };
                        let (t, ar2) = find_target_spec(c.push(tr), rules, flags);
                        match t {
                            Some(tt) => if tt != v0 {
                                (
                                    seq![
                                        tr,
                                        TransV {
                                            id: id_at(n, 1),
                                            rule: ar2,
                                            target: Some(tt),
                                            is_upper_case: upper,
                                        },
                                    ],
                                    2,
                                )
                            } else {
                                undo_tail(n, 1, c, rules, flags, s, key, upper)
                            },
                            None => undo_tail(n, 1, c, rules, flags, s, key, upper),
                        }
                    } else {
                        undo_tail(n, 0, c, rules, flags, s, key, upper)
                    },
                    None => undo_tail(n, 0, c, rules, flags, s, key, upper),
                }
            },
        }
    }
}

fn first_vowel(comp: &[Transformation]) -> (r: Option<usize>)
    ensures
        r == first_vowel_spec(cv(comp@)),
        r matches Some(i) ==> i < comp@.len(),
{
    let split = crate::cvc::cvc_split(comp);
    let ghost sv = split.view_split();
    let vo = vstd::slice::slice_subrange(split.appenders.as_slice(), split.fc_end, split.vo_end);
    assert(vo@ == sv.vo());
    let mut k: usize = 0;
    let ghost c = cv(comp@);
    proof {
        assert(crate::cvc::indices_ok(comp@.len() as int, vo@));
    }
    while k < vo.len()
        invariant
            c == cv(comp@),
            k <= vo@.len(),
            crate::cvc::indices_ok(comp@.len() as int, vo@),
            vo@.subrange(0, k as int).filter(|i: usize| c[i as int].rule.effect_type == EffectType::Appending).len() == 0,
            vo@ == sv.vo(),
            sv == crate::cvc::cvc_split_spec(c),
        decreases vo@.len() - k,
    {
        proof {
            reveal_with_fuel(Seq::filter, 1);
            assert(vo@.subrange(0, k + 1).drop_last() =~= vo@.subrange(0, k as int));
        }
        if comp[vo[k]].rule.effect_type == EffectType::Appending {
            proof {
                let p = |i: usize| c[i as int].rule.effect_type == EffectType::Appending;
                assert(vo@.subrange(0, k + 1).filter(p) =~= seq![vo@[k as int]]);
                Seq::<usize>::filter_distributes_over_add(vo@.subrange(0, k + 1), vo@.subrange(k + 1, vo@.len() as int), p);
                assert(vo@ =~= vo@.subrange(0, k + 1) + vo@.subrange(k + 1, vo@.len() as int));
            }
            return Some(vo[k]);
        }
        k += 1;
    }
    assert(vo@.subrange(0, vo@.len() as int) =~= vo@);
    None
}


fn one(t: Transformation) -> (r: Vec<Transformation>)
    ensures
        cv(r@) == seq![t@],
        r@ == seq![t],
{
    let mut v: Vec<Transformation> = Vec::new();
    v.push(t);
    assert(cv(v@) =~= seq![t@]);
    assert(v@ =~= seq![t]);
    v
}

fn two(t: Transformation, u: Transformation) -> (r: Vec<Transformation>)
    ensures
        cv(r@) == seq![t@, u@],
        r@ == seq![t, u],
{
    let mut v: Vec<Transformation> = Vec::new();
    v.push(t);
    v.push(u);
    assert(cv(v@) =~= seq![t@, u@]);
    assert(v@ =~= seq![t, u]);
    v
}

/// Generate the transformations a keypress adds, or an empty vector if the
/// key should fall back to a plain append.
#[verifier::spinoff_prover]
#[verifier::rlimit(40)]
pub fn generate_transformations(
    ids: &mut IdGen,
    comp: &[Transformation],
    rules: &[Rule],
    flags: EngineFlags,
    lower_key: char,
    is_upper_case: bool,
) -> (r: Vec<Transformation>)
    requires
        comp_wf(cv(comp@)),
        rules_wf(rv(rules@)),
        old(ids).next + generate_spec(old(ids).next as nat, cv(comp@), rv(rules@), flags, lower_key, is_upper_case).1
            <= TEMP_ID,
    ensures
        ({
            let g = generate_spec(old(ids).next as nat, cv(comp@), rv(rules@), flags, lower_key, is_upper_case);
            &&& cv(r@) == g.0
            &&& final(ids).next == old(ids).next + g.1
        }),
        comp_wf(cv(r@)),
        fresh_ids(cv(r@), old(ids).next as nat, final(ids).next as nat),
        forall|k: int| 0 <= k < r@.len() ==> appended_from(#[trigger] r@[k].rule, rules@),
        targets_closed(cv(comp@)) && comp@.len() < usize::MAX && (forall|i: int|
            0 <= i < comp@.len() ==> (#[trigger] comp@[i]).id < old(ids).next) ==> targets_inside(cv(r@), cv(comp@)),
{
    proof {
        lemma_generated_props(ids.next as nat, comp@, rules@, flags, lower_key, is_upper_case);
    }
    let ghost c = cv(comp@);
    let ghost n = ids.next as nat;
    let len = comp.len();
    if len > 0 {
        let last = &comp[len - 1];
        if last.rule.effect_type == EffectType::Appending && last.rule.key == lower_key && last.rule.key
            != last.rule.result {
            assert(c.last() == last@);
            let t = Transformation {
                id: ids.next_id(),
                target: Some(last.id),
                rule: virtual_rule(EffectType::MarkTransformation, 5),
                is_upper_case: false,
            };
            let r = one(t);
            assert(comp_wf(cv(r@)));
            return r;
        }
    }
    let (target, applicable_rule) = find_target(comp, rules, flags);
    match target {
        Some(tid) => {
            let t0 = Transformation {
                id: ids.next_id(),
                rule: applicable_rule,
                target: Some(tid),
                is_upper_case,
            };
            if t0.rule.effect_type != EffectType::MarkTransformation {
                return one(t0);
            }
            let probe = with_extra(comp, t0.clone());
            proof {
                lemma_push_wf(c, t0@);
            }
            if is_valid(probe.as_slice(), true) {
                return one(t0);
            }
            let (t2, mut virtual_rule) = find_target(probe.as_slice(), rules, flags);
            match t2 {
                Some(x) => {
                    virtual_rule.key = '\0';
                    let t1 = Transformation {
                        id: ids.next_id(),
                        rule: virtual_rule,
                        target: Some(x),
                        is_upper_case: false,
                    };
                    let r = two(t0, t1);
                    assert(comp_wf(cv(r@)));
                    r
                },
                None => one(t0),
            }
        },
        None => {
            let toneless = flatten(comp, Mode::Bits(21));
            let mut used: u32 = 0;
            if contains_uh_o(toneless.as_slice()) {
                match first_vowel(comp) {
                    Some(vi) => {
                        let vowel0_id = comp[vi].id;
                        let trans = Transformation {
                            id: ids.next_id(),
                            target: Some(vowel0_id),
                            rule: virtual_rule(EffectType::MarkTransformation, 0),
                            is_upper_case: false,
                        };
                        used = 1;
                        let probe = with_extra(comp, trans.clone());
                        proof {
                            lemma_push_wf(c, trans@);
                        }
                        let (t, applicable_rule2) = find_target(probe.as_slice(), rules, flags);
                        match t {
                            Some(t_id) => {
                                if t_id != vowel0_id {
                                    let t1 = Transformation {
                                        id: ids.next_id(),
                                        rule: applicable_rule2,
                                        target: Some(t_id),
                                        is_upper_case,
                                    };
                                    let r = two(trans, t1);
                                    assert(comp_wf(cv(r@)));
                                    return r;
                                }
                            },
                            None => {},
                        }
                    },
                    None => {},
                }
            }
            let ghost m = used as nat;
            assert(undo_tail(n, m, c, rv(rules@), flags, toneless@, lower_key, is_upper_case)
                == generate_spec(n, c, rv(rules@), flags, lower_key, is_upper_case));
            let undo = generate_undo_transformations(ids, comp, rules, flags, toneless.as_slice());
            let mut out: Vec<Transformation> = Vec::new();
            if undo.len() > 0 {
                let ghost u = cv(undo@);
                let t = new_appending_trans(ids, lower_key, is_upper_case);
                out = undo;
                proof {
                    lemma_cv_push(out@, t);
                    lemma_removals_wf(u);
                    lemma_push_wf(u, t@);
                }
                out.push(t);
            } else {
                assert(cv(out@) =~= Seq::<TransV>::empty());
            }
            out
        },
    }
}


/// The first rule that appends on `key`.
pub open spec fn appending_rule_scan(rules: Seq<RuleV>, key: char, j: int) -> Option<int>
    decreases rules.len() - j,
{
    if j >= rules.len() {
        None
    } else if rules[j].head.key == key && rules[j].head.effect_type == EffectType::Appending {
        Some(j)
    } else {
        appending_rule_scan(rules, key, j + 1)
    }
}

/// The character an appending rule head appends, lowercased, as a
/// transformation with id `id`; upper case when the key was typed in upper
/// case or the appended character is upper case.
pub open spec fn appended_trans(id: TransId, h: RuleHead, key: char, upper: bool) -> TransV {
    TransV {
        id,
        rule: RuleHead { key, effect_on: crate::text::to_lower(h.effect_on), result: crate::text::to_lower(h.effect_on), ..h },
        target: None,
        is_upper_case: upper || crate::text::is_uppercase_char(h.effect_on),
    }
}

/// The fallback when no rule applies: append the character of the first
/// appending rule for `key` (followed by its appended rules, as virtual
/// appends), or the key itself. Ids are taken from `n` on.
pub open spec fn fallback_spec(n: nat, rules: Seq<RuleV>, key: char, upper: bool) -> Seq<TransV> {
    match appending_rule_scan(rules, key, 0) {
        Some(j) => {
            let app = rules[j].appended;
            seq![appended_trans(id_at(n, 0), rules[j].head, rules[j].head.key, upper)] + Seq::new(
                app.len(),
                |k: int| appended_trans(id_at(n, (k + 1) as nat), app[k], '\0', upper),
            )
        },
        None => seq![appending_spec(id_at(n, 0), key, upper)],
    }
}

fn find_appending_rule(rules: &[Rule], key: char) -> (r: Option<usize>)
    ensures
        r matches Some(j) ==> j < rv(rules@).len() && appending_rule_scan(rv(rules@), key, 0) == Some(j as int),
        r is None ==> appending_rule_scan(rv(rules@), key, 0) is None,
{
    let mut j: usize = 0;
    while j < rules.len()
        invariant
            j <= rv(rules@).len(),
            appending_rule_scan(rv(rules@), key, 0) == appending_rule_scan(rv(rules@), key, j as int),
        decreases rv(rules@).len() - j,
    {
        if rules[j].key == key && rules[j].effect_type == EffectType::Appending {
            return Some(j);
        }
        j += 1;
    }
    None
}

pub fn generate_fallback_transformations(
    ids: &mut IdGen,
    rules: &[Rule],
    lower_key: char,
    is_upper_case: bool,
) -> (r: Vec<Transformation>)
    requires
        rules_wf(rv(rules@)),
        old(ids).next + fallback_spec(old(ids).next as nat, rv(rules@), lower_key, is_upper_case).len() <= TEMP_ID,
    ensures
        cv(r@) == fallback_spec(old(ids).next as nat, rv(rules@), lower_key, is_upper_case),
        final(ids).next == old(ids).next + r@.len(),
        comp_wf(cv(r@)),
        match appending_rule_scan(rv(rules@), lower_key, 0) {
            Some(j) => {
                &&& same_rules(r@[0].rule.appended_rules@, rules@[j].appended_rules@)
                &&& forall|k: int|
                    0 <= k < rules@[j].appended_rules@.len() ==> same_rules(
                        (#[trigger] r@[k + 1]).rule.appended_rules@,
                        rules@[j].appended_rules@[k].appended_rules@,
                    )
            },
            None => r@[0].rule.appended_rules@.len() == 0,
        },
{
    let ghost n = ids.next as nat;
    let mut out: Vec<Transformation> = Vec::new();
    let j = match find_appending_rule(rules, lower_key) {
        Some(j) => j,
        None => {
            let t = new_appending_trans(ids, lower_key, is_upper_case);
            out.push(t);
            assert(cv(out@) =~= seq![t@]);
            assert(out@[0] == t);
            return out;
        },
    };
    let rule = &rules[j];
    assert(head_wf(rv(rules@)[j as int].head) && heads_wf(rv(rules@)[j as int].appended));
    let ghost app = rule.appended();
    let ghost total = fallback_spec(n, rv(rules@), lower_key, is_upper_case);
    let upper = is_upper_case || crate::text::is_uppercase(rule.effect_on);
    let lowered = crate::text::lower_char(rule.effect_on);
    let mut first_rule = rule.duplicate();
    proof {
        crate::rules::lemma_same_rule_parts(first_rule, *rule);
    }
    first_rule.effect_on = lowered;
    first_rule.result = lowered;
    let first = Transformation {
        id: ids.next_id(),
        rule: first_rule,
        target: None,
        is_upper_case: upper,
    };
    out.push(first);
    assert(cv(out@) =~= total.subrange(0, 1));
    assert(same_rules(out@[0].rule.appended_rules@, rules@[j as int].appended_rules@));
    let m = rule.appended_rules.len();
    let mut k: usize = 0;
    while k < m
        invariant
            m == app.len(),
            j < rv(rules@).len(),
            appending_rule_scan(rv(rules@), lower_key, 0) == Some(j as int),
            app == rv(rules@)[j as int].appended,
            heads_wf(app),
            rule == rules@[j as int],
            total == fallback_spec(n, rv(rules@), lower_key, is_upper_case),
            total.len() == m + 1,
            n + total.len() <= TEMP_ID,
            k <= m,
            ids.next == n + k + 1,
            cv(out@) == total.subrange(0, k + 1),
            out@.len() == k + 1,
            same_rules(out@[0].rule.appended_rules@, rules@[j as int].appended_rules@),
            forall|i: int|
                0 <= i < k ==> same_rules(
                    (#[trigger] out@[i + 1]).rule.appended_rules@,
                    rules@[j as int].appended_rules@[i].appended_rules@,
                ),
        decreases m - k,
    {
        let a = &rule.appended_rules[k];
        assert(app[k as int] == a@);
        let a_upper = is_upper_case || crate::text::is_uppercase(a.effect_on);
        let a_lower = crate::text::lower_char(a.effect_on);
        let mut ar = a.duplicate();
        proof {
            crate::rules::lemma_same_rule_parts(ar, *a);
        }
        ar.key = '\0';
        ar.effect_on = a_lower;
        ar.result = a_lower;
        let t = Transformation {
            id: ids.next_id(),
            rule: ar,
            target: None,
            is_upper_case: a_upper,
        };
        proof {
            lemma_cv_push(out@, t);
            assert(total[k + 1] == t@);
            assert(total.subrange(0, k + 2) =~= total.subrange(0, k + 1).push(t@));
        }
        out.push(t);
        k += 1;
    }
    assert(total.subrange(0, m + 1) =~= total);
    proof {
        assert forall|i: int| 0 <= i < total.len() implies trans_wf(#[trigger] total[i]) by {
            if i > 0 {
                assert(head_wf(app[i - 1]));
            }
        }
    }
    out
}

/// Plain appends of the raw keys of `c` (dropping virtual transformations),
/// with ids from `n` on.
pub open spec fn break_spec(n: nat, c: Seq<TransV>) -> Seq<TransV>
    decreases c.len(),
{
    if c.len() == 0 {
        Seq::empty()
    } else {
        let p = break_spec(n, c.drop_last());
        if c.last().rule.key != '\0' {
            p.push(appending_spec(id_at(n, p.len()), c.last().rule.key, c.last().is_upper_case))
        } else {
            p
        }
    }
}

pub proof fn lemma_break_prefix(n: nat, c: Seq<TransV>, i: int)
    requires
        0 <= i <= c.len(),
    ensures
        break_spec(n, c.subrange(0, i)).len() <= break_spec(n, c).len(),
    decreases c.len() - i,
{
    if i < c.len() {
        lemma_break_prefix(n, c, i + 1);
        assert(c.subrange(0, i + 1).drop_last() =~= c.subrange(0, i));
    } else {
        assert(c.subrange(0, i) =~= c);
    }
}

/// Rebuild a composition as plain appends of its raw keys (drops effects).
pub fn break_composition(ids: &mut IdGen, comp: &[Transformation]) -> (r: Vec<Transformation>)
    requires
        old(ids).next + break_spec(old(ids).next as nat, cv(comp@)).len() <= TEMP_ID,
    ensures
        cv(r@) == break_spec(old(ids).next as nat, cv(comp@)),
        final(ids).next == old(ids).next + r@.len(),
        comp_wf(cv(r@)),
{
    let ghost c = cv(comp@);
    let ghost n = ids.next as nat;
    let mut out: Vec<Transformation> = Vec::new();
    assert(cv(out@) =~= Seq::<TransV>::empty());
    let mut i: usize = 0;
    while i < comp.len()
        invariant
            c == cv(comp@),
            i <= comp@.len(),
            n + break_spec(n, c).len() <= TEMP_ID,
            cv(out@) == break_spec(n, c.subrange(0, i as int)),
            ids.next == n + out@.len(),
            comp_wf(cv(out@)),
        decreases comp@.len() - i,
    {
        proof {
            assert(c.subrange(0, i + 1).drop_last() =~= c.subrange(0, i as int));
            lemma_break_prefix(n, c, i + 1);
        }
        if comp[i].rule.key != '\0' {
            let t = new_appending_trans(ids, comp[i].rule.key, comp[i].is_upper_case);
            proof {
                lemma_cv_push(out@, t);
                lemma_push_wf(cv(out@), t@);
            }
            out.push(t);
        }
        i += 1;
    }
    assert(c.subrange(0, comp@.len() as int) =~= c);
    out
}

/// A deferred mutation: set the transformation with the first id to target
/// the second.
pub type Retarget = (TransId, Option<TransId>);

/// Moving the most recent tone onto the correct vowel if the syllable
/// changed: a tone removal on the new target, then the tone again (virtual)
/// on it, and a retarget of the old tone to it. Ids are taken from `n` on.
pub open spec fn refresh_spec(n: nat, c: Seq<TransV>, std_style: bool) -> (Seq<TransV>, Option<Retarget>) {
    match crate::target::last_tone_trans_spec(c) {
        None => (Seq::empty(), None),
        Some(lt) => {
            let split = crate::cvc::cvc_split_spec(c);
            if split.vo().len() == 0 {
                (Seq::empty(), None)
            } else {
                let nt = crate::target::tone_target_in_spec(c, split, std_style);
                if c[lt].target == nt {
                    (Seq::empty(), None)
                } else {
                    (
                        seq![
                            TransV {
                                id: id_at(n, 0),
                                target: nt,
                                rule: virtual_head(EffectType::ToneTransformation, 0),
                                is_upper_case: false,
                            },
                            TransV {
                                id: id_at(n, 1),
                                target: nt,
                                rule: unkeyed(c[lt].rule),
                                is_upper_case: false,
                            },
                        ],
                        Some((c[lt].id, nt)),
                    )
                }
            }
        },
    }
}

/// Move the most recent tone onto the correct vowel if the syllable changed.
pub fn refresh_last_tone_target(ids: &mut IdGen, comp: &[Transformation], std_style: bool) -> (r: (
    Vec<Transformation>,
    Option<Retarget>,
))
    requires
        comp_wf(cv(comp@)),
        old(ids).next + refresh_spec(old(ids).next as nat, cv(comp@), std_style).0.len() <= TEMP_ID,
    ensures
        (cv(r.0@), r.1) == refresh_spec(old(ids).next as nat, cv(comp@), std_style),
        final(ids).next == old(ids).next + r.0@.len(),
        comp_wf(cv(r.0@)),
        r.0@.len() == 2 ==> {
            &&& r.0@[0].rule.appended_rules@.len() == 0
            &&& same_rules(
                r.0@[1].rule.appended_rules@,
                comp@[crate::target::last_tone_trans_spec(cv(comp@))->0].rule.appended_rules@,
            )
        },
{
    let ghost c = cv(comp@);
    proof {
        crate::target::lemma_last_tone_trans(c);
    }
    let mut out: Vec<Transformation> = Vec::new();
    assert(cv(out@) =~= Seq::<TransV>::empty());
    let lt_idx = match crate::target::get_last_tone_transformation(comp) {
        Some(i) => i,
        None => {
            return (out, None);
        },
    };
    let split = crate::cvc::cvc_split(comp);
    if split.vo_end - split.fc_end == 0 {
        assert(split.view_split().vo().len() == 0);
        return (out, None);
    }
    let lt_id = comp[lt_idx].id;
    let lt_target = comp[lt_idx].target;
    let new_target = crate::target::find_tone_target_in(comp, &split, std_style);
    if lt_target == new_target {
        return (out, None);
    }
    let mut override_rule = comp[lt_idx].rule.duplicate();
    assert(same_rules(override_rule.appended_rules@, comp@[lt_idx as int].rule.appended_rules@)) by {
        crate::rules::lemma_same_rule_parts(override_rule, comp@[lt_idx as int].rule);
    }
    override_rule.key = '\0';
    assert(crate::composition::trans_wf(c[lt_idx as int]));
    let t0 = Transformation {
        id: ids.next_id(),
        target: new_target,
        rule: virtual_rule(EffectType::ToneTransformation, 0),
        is_upper_case: false,
    };
    let t1 = Transformation {
        id: ids.next_id(),
        target: new_target,
        rule: override_rule,
        is_upper_case: false,
    };
    let r = two(t0, t1);
    assert(comp_wf(cv(r@)));
    assert(r@[0].rule.appended_rules@.len() == 0) by {
        assert(r@[0].rule.appended().len() == 0);
    }
    assert(same_rules(r@[1].rule.appended_rules@, comp@[lt_idx as int].rule.appended_rules@));
    (r, Some((lt_id, new_target)))
}

/// Every target in `out` is the id of a transformation of `c`.
#[verifier::opaque]
pub open spec fn targets_inside(out: Seq<TransV>, c: Seq<TransV>) -> bool {
    forall|k: int| 0 <= k < out.len() ==> ((#[trigger] out[k]).target matches Some(t) ==> has_id(c, t))
}

/// The ids of `s` are `base`, `base + 1`, ... in order.
pub open spec fn consecutive_ids(s: Seq<TransV>, base: nat) -> bool {
    forall|k: int| 0 <= k < s.len() ==> (#[trigger] s[k]).id == id_at(base, k as nat)
}

/// The ids of `s` strictly increase in order and all lie in `lo..hi`.
#[verifier::opaque]
pub open spec fn fresh_ids(s: Seq<TransV>, lo: nat, hi: nat) -> bool {
    &&& forall|k: int| 0 <= k < s.len() ==> lo <= (#[trigger] s[k]).id < hi
    &&& forall|i: int, j: int| 0 <= i < j < s.len() ==> (#[trigger] s[i]).id < (#[trigger] s[j]).id
}

proof fn lemma_undo_scan_ids(
    n: nat,
    c: Seq<TransV>,
    rules: Seq<RuleV>,
    flags: EngineFlags,
    s: Seq<char>,
    j: int,
    i: int,
    out: Seq<TransV>,
)
    requires
        consecutive_ids(out, n),
    ensures
        consecutive_ids(undo_scan(n, c, rules, flags, s, j, i, out), n),
    decreases rules.len() - j, i,
{
    if j < rules.len() {
        let r = rules[j].head;
        if r.effect_type == EffectType::ToneTransformation {
            let target = tone_target_for_spec(c, r, flags);
            let t = TransV {
                id: id_at(n, out.len()),
                target,
                rule: virtual_head(EffectType::ToneTransformation, 0),
                is_upper_case: false,
            };
            let out2 = if target is Some {
                out.push(t)
            } else {
                out
            };
            assert(consecutive_ids(out2, n)) by {
                if target is Some {
                    assert forall|k: int| 0 <= k < out2.len() implies (#[trigger] out2[k]).id == id_at(n, k as nat) by {
                        if k < out.len() {
                            assert(out2[k] == out[k]);
                        }
                    }
                }
            }
            lemma_undo_scan_ids(n, c, rules, flags, s, j + 1, c.len() as int, out2);
        } else if r.effect_type == EffectType::MarkTransformation {
            if i <= 0 {
                lemma_undo_scan_ids(n, c, rules, flags, s, j + 1, c.len() as int, out);
            } else if c[i - 1].rule.result == r.effect_on {
                let target = root_target(c, c[i - 1].id);
                let probe = temp_effect_spec(Some(target), virtual_head(EffectType::MarkTransformation, 0));
                if s == flatten_spec(c.push(probe), Mode::Bits(21)) {
                    lemma_undo_scan_ids(n, c, rules, flags, s, j, i - 1, out);
                } else {
                    let out2 = out.push(
                        TransV {
                            id: id_at(n, out.len()),
                            target: Some(target),
                            rule: virtual_head(EffectType::MarkTransformation, 0),
                            is_upper_case: false,
                        },
                    );
                    assert forall|k: int| 0 <= k < out2.len() implies (#[trigger] out2[k]).id == id_at(n, k as nat) by {
                        if k < out.len() {
                            assert(out2[k] == out[k]);
                        }
                    }
                    lemma_undo_scan_ids(n, c, rules, flags, s, j, i - 1, out2);
                }
            } else {
                lemma_undo_scan_ids(n, c, rules, flags, s, j, i - 1, out);
            }
        } else {
            lemma_undo_scan_ids(n, c, rules, flags, s, j + 1, c.len() as int, out);
        }
    }
}

proof fn lemma_undo_tail_ids(
    n: nat,
    m: nat,
    c: Seq<TransV>,
    rules: Seq<RuleV>,
    flags: EngineFlags,
    s: Seq<char>,
    key: char,
    upper: bool,
)
    ensures
        ({
            let g = undo_tail(n, m, c, rules, flags, s, key, upper);
            &&& consecutive_ids(g.0, n + m)
            &&& m + g.0.len() <= g.1
        }),
{
    lemma_undo_scan_ids(n + m, c, rules, flags, s, 0, c.len() as int, Seq::empty());
    let u = undo_spec(n + m, c, rules, flags, s);
    if u.len() > 0 {
        let t = appending_spec(id_at(n, m + u.len()), key, upper);
        assert forall|k: int| 0 <= k < u.push(t).len() implies (#[trigger] u.push(t)[k]).id == id_at(
            n + m,
            k as nat,
        ) by {
            if k < u.len() {
                assert(u.push(t)[k] == u[k]);
            }
        }
    }
}

proof fn lemma_consecutive_fresh(s: Seq<TransV>, base: nat, lo: nat, hi: nat)
    requires
        consecutive_ids(s, base),
        lo <= base,
        base + s.len() <= hi,
        hi <= TEMP_ID,
    ensures
        fresh_ids(s, lo, hi),
{
    reveal(fresh_ids);
    assert forall|k: int| 0 <= k < s.len() implies lo <= (#[trigger] s[k]).id < hi by {
        assert(s[k].id == base + k);
    }
    assert forall|i: int, j: int| 0 <= i < j < s.len() implies (#[trigger] s[i]).id < (#[trigger] s[j]).id by {
        assert(s[i].id == base + i);
        assert(s[j].id == base + j);
    }
}

/// The transformations one keypress generates take fresh ids: they strictly
/// increase, all lie between the counter before and after the call, and so
/// none is the id of a transformation already in the composition.
pub proof fn law_generated_ids_are_fresh(
    n: nat,
    c: Seq<TransV>,
    rules: Seq<RuleV>,
    flags: EngineFlags,
    key: char,
    upper: bool,
)
    requires
        n + generate_spec(n, c, rules, flags, key, upper).1 <= TEMP_ID,
    ensures
        ({
            let g = generate_spec(n, c, rules, flags, key, upper);
            &&& fresh_ids(g.0, n, n + g.1)
            &&& (forall|i: int| 0 <= i < c.len() && c[i].id < n ==> forall|k: int|
                0 <= k < g.0.len() ==> (#[trigger] g.0[k]).id != c[i].id)
        }),
{
    let g = generate_spec(n, c, rules, flags, key, upper);
    let s = flatten_spec(c, Mode::Bits(21));
    if raw_undo_applies(c, key) {
        lemma_consecutive_fresh(g.0, n, n, n + g.1);
    } else {
        let (target, ar) = find_target_spec(c, rules, flags);
        match target {
            Some(tid) => {
                lemma_consecutive_fresh(g.0, n, n, n + g.1);
            },
            None => {
                match first_vowel_spec(c) {
                    Some(vi) => if has_uh_o(s) {
                        let v0 = c[vi as int].id;
                        let tr = TransV {
                            id: id_at(n, 0),
                            target: Some(v0),
                            rule: virtual_head(EffectType::MarkTransformation, 0),
                            is_upper_case: false,
                        };
                        let (t, ar2) = find_target_spec(c.push(tr), rules, flags);
                        lemma_undo_tail_ids(n, 1, c, rules, flags, s, key, upper);
                        match t {
                            Some(tt) => if tt != v0 {
                                lemma_consecutive_fresh(g.0, n, n, n + g.1);
                            } else {
                                lemma_consecutive_fresh(g.0, n + 1, n, n + g.1);
                            },
                            None => {
                                lemma_consecutive_fresh(g.0, n + 1, n, n + g.1);
                            },
                        }
                    } else {
                        lemma_undo_tail_ids(n, 0, c, rules, flags, s, key, upper);
                        lemma_consecutive_fresh(g.0, n, n, n + g.1);
                    },
                    None => {
                        lemma_undo_tail_ids(n, 0, c, rules, flags, s, key, upper);
                        lemma_consecutive_fresh(g.0, n, n, n + g.1);
                    },
                }
            },
        }
    }
}

proof fn lemma_mark_scan_inside(
    c: Seq<TransV>,
    x: Option<TransV>,
    rules: Seq<RuleV>,
    s: Seq<char>,
    i: int,
    j: int,
)
    requires
        targets_closed(c),
        probe_ok(c, x),
        0 <= i <= with_probe(c, x).len(),
    ensures
        mark_scan(with_probe(c, x), rules, s, i, j).0 matches Some(t) ==> has_id(c, t),
    decreases i, rules.len() - j,
{
    let e = with_probe(c, x);
    if i > 0 {
        if j >= rules.len() {
            lemma_mark_scan_inside(c, x, rules, s, i - 1, 0);
        } else {
            let t = e[i - 1];
            let r = rules[j].head;
            if r.effect_type == EffectType::MarkTransformation && t.rule.result == r.effect_on && r.effect > 0 {
                assert(has_id(e, t.id));
                crate::target::lemma_walk_inside(c, x, t.id, e.len());
                let target = root_target(e, t.id);
                let probe = e.push(temp_effect_spec(Some(target), r));
                if s == flatten_spec(probe, Mode::VIETNAMESE) {
                    lemma_mark_scan_inside(c, x, rules, s, i, j + 1);
                } else if !is_valid_spec(probe, false) {
                    lemma_mark_scan_inside(c, x, rules, s, i, j + 1);
                }
            } else {
                lemma_mark_scan_inside(c, x, rules, s, i, j + 1);
            }
        }
    }
}

proof fn lemma_target_scan_inside(
    c: Seq<TransV>,
    x: Option<TransV>,
    rules: Seq<RuleV>,
    flags: EngineFlags,
    s: Seq<char>,
    j: int,
)
    requires
        targets_closed(c),
        probe_ok(c, x),
        with_probe(c, x).len() <= usize::MAX,
    ensures
        target_scan(with_probe(c, x), rules, flags, s, j).0 matches Some(t) ==> has_id(c, t),
    decreases rules.len() - j,
{
    let e = with_probe(c, x);
    if j >= rules.len() {
        lemma_mark_scan_inside(c, x, rules, s, e.len() as int, 0);
    } else {
        let r = rules[j].head;
        if r.effect_type != EffectType::ToneTransformation {
            lemma_target_scan_inside(c, x, rules, flags, s, j + 1);
        } else {
            crate::target::lemma_tone_for_inside(c, x, r, flags);
            let target = crate::target::tone_target_for_spec(e, r, flags);
            if s == flatten_spec(e.push(temp_effect_spec(target, r)), Mode::VIETNAMESE) {
                lemma_target_scan_inside(c, x, rules, flags, s, j + 1);
            }
        }
    }
}

proof fn lemma_find_target_inside(c: Seq<TransV>, x: Option<TransV>, rules: Seq<RuleV>, flags: EngineFlags)
    requires
        targets_closed(c),
        probe_ok(c, x),
        with_probe(c, x).len() <= usize::MAX,
    ensures
        find_target_spec(with_probe(c, x), rules, flags).0 matches Some(t) ==> has_id(c, t),
{
    lemma_target_scan_inside(c, x, rules, flags, flatten_spec(with_probe(c, x), Mode::VIETNAMESE), 0);
}

proof fn lemma_undo_scan_inside(
    n: nat,
    c: Seq<TransV>,
    rules: Seq<RuleV>,
    flags: EngineFlags,
    s: Seq<char>,
    j: int,
    i: int,
    out: Seq<TransV>,
)
    requires
        targets_closed(c),
        c.len() <= usize::MAX,
        i <= c.len(),
        forall|k: int| 0 <= k < out.len() ==> ((#[trigger] out[k]).target matches Some(t) ==> has_id(c, t)),
    ensures
        forall|k: int|
            0 <= k < undo_scan(n, c, rules, flags, s, j, i, out).len() ==> ((#[trigger] undo_scan(
                n,
                c,
                rules,
                flags,
                s,
                j,
                i,
                out,
            )[k]).target matches Some(t) ==> has_id(c, t)),
    decreases rules.len() - j, i,
{
    assert(with_probe(c, None) == c);
    if j < rules.len() {
        let r = rules[j].head;
        if r.effect_type == EffectType::ToneTransformation {
            crate::target::lemma_tone_for_inside(c, None, r, flags);
            let target = tone_target_for_spec(c, r, flags);
            let t = TransV {
                id: id_at(n, out.len()),
                target,
                rule: virtual_head(EffectType::ToneTransformation, 0),
                is_upper_case: false,
            };
            let out2 = if target is Some {
                out.push(t)
            } else {
                out
            };
            assert forall|k: int| 0 <= k < out2.len() implies ((#[trigger] out2[k]).target matches Some(g) ==> has_id(c, g)) by {
                if k < out.len() {
                    assert(out2[k] == out[k]);
                }
            }
            lemma_undo_scan_inside(n, c, rules, flags, s, j + 1, c.len() as int, out2);
        } else if r.effect_type == EffectType::MarkTransformation {
            if i <= 0 {
                lemma_undo_scan_inside(n, c, rules, flags, s, j + 1, c.len() as int, out);
            } else if c[i - 1].rule.result == r.effect_on {
                assert(has_id(c, c[i - 1].id));
                crate::target::lemma_walk_inside(c, None, c[i - 1].id, c.len());
                let target = root_target(c, c[i - 1].id);
                let probe = temp_effect_spec(Some(target), virtual_head(EffectType::MarkTransformation, 0));
                if s == flatten_spec(c.push(probe), Mode::Bits(21)) {
                    lemma_undo_scan_inside(n, c, rules, flags, s, j, i - 1, out);
                } else {
                    let out2 = out.push(
                        TransV {
                            id: id_at(n, out.len()),
                            target: Some(target),
                            rule: virtual_head(EffectType::MarkTransformation, 0),
                            is_upper_case: false,
                        },
                    );
                    assert forall|k: int| 0 <= k < out2.len() implies ((#[trigger] out2[k]).target matches Some(g) ==> has_id(c, g)) by {
                        if k < out.len() {
                            assert(out2[k] == out[k]);
                        }
                    }
                    lemma_undo_scan_inside(n, c, rules, flags, s, j, i - 1, out2);
                }
            } else {
                lemma_undo_scan_inside(n, c, rules, flags, s, j, i - 1, out);
            }
        } else {
            lemma_undo_scan_inside(n, c, rules, flags, s, j + 1, c.len() as int, out);
        }
    }
}

/// The transformations one keypress generates only target transformations
/// already in the composition, when the composition's own targets do and
/// its ids lie below the counter.
pub proof fn law_generated_targets_inside(
    n: nat,
    c: Seq<TransV>,
    rules: Seq<RuleV>,
    flags: EngineFlags,
    key: char,
    upper: bool,
)
    requires
        targets_closed(c),
        forall|i: int| 0 <= i < c.len() ==> (#[trigger] c[i]).id < n,
        n <= TEMP_ID,
        c.len() < usize::MAX,
    ensures
        ({
            let g = generate_spec(n, c, rules, flags, key, upper);
            forall|k: int| 0 <= k < g.0.len() ==> ((#[trigger] g.0[k]).target matches Some(t) ==> has_id(c, t))
        }),
{
    let g = generate_spec(n, c, rules, flags, key, upper);
    let s = flatten_spec(c, Mode::Bits(21));
    assert(with_probe(c, None) == c);
    assert(!has_id(c, id_at(n, 0))) by {
        if has_id(c, id_at(n, 0)) {
            let q = choose|q: int| 0 <= q < c.len() && (#[trigger] c[q]).id == id_at(n, 0);
            assert(c[q].id < n);
        }
    }
    if raw_undo_applies(c, key) {
        assert(c[c.len() - 1] == c.last());
        assert(has_id(c, c.last().id));
    } else {
        lemma_find_target_inside(c, None, rules, flags);
        let (target, ar) = find_target_spec(c, rules, flags);
        match target {
            Some(tid) => {
                let t0 = TransV { id: id_at(n, 0), rule: ar, target: Some(tid), is_upper_case: upper };
                if !(ar.effect_type != EffectType::MarkTransformation || is_valid_spec(c.push(t0), true)) {
                    assert(with_probe(c, Some(t0)) == c.push(t0));
                    lemma_find_target_inside(c, Some(t0), rules, flags);
                }
            },
            None => {
                lemma_undo_scan_inside(n, c, rules, flags, s, 0, c.len() as int, Seq::empty());
                lemma_undo_scan_inside((n + 1) as nat, c, rules, flags, s, 0, c.len() as int, Seq::empty());
                match first_vowel_spec(c) {
                    Some(vi) => if has_uh_o(s) {
                        crate::target::lemma_split_vo_inside(c, None);
                        let vo = crate::cvc::cvc_split_spec(c).vo();
                        let vowels = crate::target::vowel_appenders(c, vo);
                        vo.lemma_filter_contains_rev(
                            |i: usize| c[i as int].rule.effect_type == EffectType::Appending,
                            vowels[0],
                        );
                        assert(vowels.contains(vowels[0]));
                        let jj = choose|jj: int| 0 <= jj < vo.len() && vo[jj] == vowels[0];
                        assert(vi == vowels[0]);
                        assert(vo[jj] < c.len());
                        let v0 = c[vi as int].id;
                        assert(has_id(c, v0));
                        let tr = TransV {
                            id: id_at(n, 0),
                            target: Some(v0),
                            rule: virtual_head(EffectType::MarkTransformation, 0),
                            is_upper_case: false,
                        };
                        assert(with_probe(c, Some(tr)) == c.push(tr));
                        lemma_find_target_inside(c, Some(tr), rules, flags);
                    },
                    None => {},
                }
            },
        }
    }
}

proof fn lemma_generated_props(
    n: nat,
    comp: Seq<Transformation>,
    rules: Seq<Rule>,
    flags: EngineFlags,
    key: char,
    upper: bool,
)
    requires
        n + generate_spec(n, cv(comp), rv(rules), flags, key, upper).1 <= TEMP_ID,
    ensures
        ({
            let g = generate_spec(n, cv(comp), rv(rules), flags, key, upper);
            &&& fresh_ids(g.0, n, n + g.1)
            &&& targets_closed(cv(comp)) && comp.len() < usize::MAX && (forall|i: int|
                0 <= i < comp.len() ==> (#[trigger] comp[i]).id < n) ==> targets_inside(g.0, cv(comp))
        }),
{
    let c = cv(comp);
    law_generated_ids_are_fresh(n, c, rv(rules), flags, key, upper);
    if targets_closed(c) && comp.len() < usize::MAX && (forall|i: int| 0 <= i < comp.len() ==> (#[trigger] comp[i]).id < n) {
        assert forall|i: int| 0 <= i < c.len() implies (#[trigger] c[i]).id < n by {
            assert(c[i] == comp[i]@);
        }
        law_generated_targets_inside(n, c, rv(rules), flags, key, upper);
        reveal(targets_inside);
    }
}

/// Whether no transformation of `s` carries a key (all are virtual).
pub open spec fn all_unkeyed(s: Seq<TransV>) -> bool {
    forall|k: int| 0 <= k < s.len() ==> (#[trigger] s[k]).rule.key == '\0'
}

/// Whether at most one transformation of `s` carries a key.
pub open spec fn at_most_one_keyed(s: Seq<TransV>) -> bool {
    forall|i: int, j: int|
        0 <= i < j < s.len() ==> (#[trigger] s[i]).rule.key == '\0' || (#[trigger] s[j]).rule.key == '\0'
}

pub proof fn lemma_keyed_concat(a: Seq<TransV>, b: Seq<TransV>)
    requires
        at_most_one_keyed(a),
        all_unkeyed(b),
    ensures
        at_most_one_keyed(a + b),
{
    assert forall|i: int, j: int| 0 <= i < j < (a + b).len() implies (#[trigger] (a + b)[i]).rule.key == '\0' || (
    #[trigger] (a + b)[j]).rule.key == '\0' by {
        if j >= a.len() {
            assert((a + b)[j] == b[j - a.len()]);
        } else {
            assert((a + b)[i] == a[i]);
            assert((a + b)[j] == a[j]);
        }
    }
}

pub proof fn lemma_unkeyed_concat(a: Seq<TransV>, b: Seq<TransV>)
    requires
        all_unkeyed(a),
        all_unkeyed(b),
    ensures
        all_unkeyed(a + b),
{
    assert forall|k: int| 0 <= k < (a + b).len() implies (#[trigger] (a + b)[k]).rule.key == '\0' by {
        if k < a.len() {
            assert((a + b)[k] == a[k]);
        } else {
            assert((a + b)[k] == b[k - a.len()]);
        }
    }
}

proof fn lemma_undo_scan_unkeyed(
    n: nat,
    c: Seq<TransV>,
    rules: Seq<RuleV>,
    flags: EngineFlags,
    s: Seq<char>,
    j: int,
    i: int,
    out: Seq<TransV>,
)
    requires
        all_unkeyed(out),
    ensures
        all_unkeyed(undo_scan(n, c, rules, flags, s, j, i, out)),
    decreases rules.len() - j, i,
{
    if j < rules.len() {
        let r = rules[j].head;
        if r.effect_type == EffectType::ToneTransformation {
            let target = tone_target_for_spec(c, r, flags);
            let t = TransV {
                id: id_at(n, out.len()),
                target,
                rule: virtual_head(EffectType::ToneTransformation, 0),
                is_upper_case: false,
            };
            let out2 = if target is Some {
                out.push(t)
            } else {
                out
            };
            assert(all_unkeyed(out2)) by {
                if target is Some {
                    assert forall|k: int| 0 <= k < out2.len() implies (#[trigger] out2[k]).rule.key == '\0' by {
                        if k < out.len() {
                            assert(out2[k] == out[k]);
                        }
                    }
                }
            }
            lemma_undo_scan_unkeyed(n, c, rules, flags, s, j + 1, c.len() as int, out2);
        } else if r.effect_type == EffectType::MarkTransformation {
            if i <= 0 {
                lemma_undo_scan_unkeyed(n, c, rules, flags, s, j + 1, c.len() as int, out);
            } else if c[i - 1].rule.result == r.effect_on {
                let target = root_target(c, c[i - 1].id);
                let probe = temp_effect_spec(Some(target), virtual_head(EffectType::MarkTransformation, 0));
                if s == flatten_spec(c.push(probe), Mode::Bits(21)) {
                    lemma_undo_scan_unkeyed(n, c, rules, flags, s, j, i - 1, out);
                } else {
                    let out2 = out.push(
                        TransV {
                            id: id_at(n, out.len()),
                            target: Some(target),
                            rule: virtual_head(EffectType::MarkTransformation, 0),
                            is_upper_case: false,
                        },
                    );
                    assert forall|k: int| 0 <= k < out2.len() implies (#[trigger] out2[k]).rule.key == '\0' by {
                        if k < out.len() {
                            assert(out2[k] == out[k]);
                        }
                    }
                    lemma_undo_scan_unkeyed(n, c, rules, flags, s, j, i - 1, out2);
                }
            } else {
                lemma_undo_scan_unkeyed(n, c, rules, flags, s, j, i - 1, out);
            }
        } else {
            lemma_undo_scan_unkeyed(n, c, rules, flags, s, j + 1, c.len() as int, out);
        }
    }
}

/// A keypress generates at most one transformation that carries a key.
pub proof fn lemma_generate_one_keyed(
    n: nat,
    c: Seq<TransV>,
    rules: Seq<RuleV>,
    flags: EngineFlags,
    key: char,
    upper: bool,
)
    ensures
        at_most_one_keyed(generate_spec(n, c, rules, flags, key, upper).0),
{
    let s = flatten_spec(c, Mode::Bits(21));
    lemma_undo_scan_unkeyed(n, c, rules, flags, s, 0, c.len() as int, Seq::empty());
    lemma_undo_scan_unkeyed(n + 1, c, rules, flags, s, 0, c.len() as int, Seq::empty());
    let u0 = undo_spec(n, c, rules, flags, s);
    let u1 = undo_spec(n + 1, c, rules, flags, s);
    assert forall|i: int, j: int| 0 <= i < j < u0.push(appending_spec(id_at(n, u0.len()), key, upper)).len()
        implies (#[trigger] u0.push(appending_spec(id_at(n, u0.len()), key, upper))[i]).rule.key == '\0' || (#[trigger] u0.push(
        appending_spec(id_at(n, u0.len()), key, upper),
    )[j]).rule.key == '\0' by {
        assert(u0.push(appending_spec(id_at(n, u0.len()), key, upper))[i] == u0[i]);
    }
    assert forall|i: int, j: int| 0 <= i < j < u1.push(appending_spec(id_at(n, 1 + u1.len()), key, upper)).len()
        implies (#[trigger] u1.push(appending_spec(id_at(n, 1 + u1.len()), key, upper))[i]).rule.key == '\0' || (#[trigger] u1.push(
        appending_spec(id_at(n, 1 + u1.len()), key, upper),
    )[j]).rule.key == '\0' by {
        assert(u1.push(appending_spec(id_at(n, 1 + u1.len()), key, upper))[i] == u1[i]);
    }
}

/// The fallback generates at most one transformation that carries a key.
pub proof fn lemma_fallback_one_keyed(n: nat, rules: Seq<RuleV>, key: char, upper: bool)
    ensures
        at_most_one_keyed(fallback_spec(n, rules, key, upper)),
{
    match appending_rule_scan(rules, key, 0) {
        Some(j) => {
            let app = rules[j].appended;
            let f = fallback_spec(n, rules, key, upper);
            assert forall|a: int, b: int| 0 <= a < b < f.len() implies (#[trigger] f[a]).rule.key == '\0' || (
            #[trigger] f[b]).rule.key == '\0' by {
                assert(f[b] == appended_trans(id_at(n, b as nat), app[b - 1], '\0', upper));
            }
        },
        None => {},
    }
}

} // verus!
