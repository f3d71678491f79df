//! Parsing of the input-method rule language into [`Rule`] lists.
//!
//! A definition line is either the name of a tone effect (`DấuSắc`, …) or a
//! mark clause `effective-chars _ result-chars [appended]` such as
//! `uoa_ươă__ư`, or a bare appending clause such as `_ă` or `__ư`.
use vstd::prelude::*;
use crate::composition::{head_wf, heads_wf};
use crate::generate::rules_wf;
use crate::rules::{heads, mark_code, rv, tone_code, EffectType, Mark, Rule, RuleHead, RuleV, Tone};
use crate::text::{
    ascii_alpha, chars_eq, chars_of, is_letter, is_letter_char, is_ascii_alpha, lowercase_str,
    str_to_lowercase,
};
use crate::unicode_tables::{
    add_tone_to_char, family_members, find_mark_from_char, get_mark_family, is_vowel, is_vowel_char,
    lemma_tone_fits_small, mark_of_char, with_tone,
};

verus! {

/// The tone a definition line names, if it is the name of a tone effect.
pub open spec fn tone_named(line: Seq<char>) -> Option<Tone> {
    if line == "XoáDấuThanh"@ {
        Some(Tone::NoTone)
    } else if line == "DấuSắc"@ {
        Some(Tone::Acute)
    } else if line == "DấuHuyền"@ {
        Some(Tone::Grave)
    } else if line == "DấuNgã"@ {
        Some(Tone::Tilde)
    } else if line == "DấuNặng"@ {
        Some(Tone::Dot)
    } else if line == "DấuHỏi"@ {
        Some(Tone::Hook)
    } else {
        None
    }
}

fn find_tone_name(line: &[char]) -> (r: Option<Tone>)
    ensures
        r == tone_named(line@),
{
    let name = chars_of("XoáDấuThanh");
    if chars_eq(line, name.as_slice()) {
        return Some(Tone::NoTone);
    }
    let name = chars_of("DấuSắc");
    if chars_eq(line, name.as_slice()) {
        return Some(Tone::Acute);
    }
    let name = chars_of("DấuHuyền");
    if chars_eq(line, name.as_slice()) {
        return Some(Tone::Grave);
    }
    let name = chars_of("DấuNgã");
    if chars_eq(line, name.as_slice()) {
        return Some(Tone::Tilde);
    }
    let name = chars_of("DấuNặng");
    if chars_eq(line, name.as_slice()) {
        return Some(Tone::Dot);
    }
    let name = chars_of("DấuHỏi");
    if chars_eq(line, name.as_slice()) {
        return Some(Tone::Hook);
    }
    None
}

/// A rule with no appended rules.
pub open spec fn plain(key: char, effect_type: EffectType, effect: u8, effect_on: char, result: char) -> RuleV {
    RuleV { head: RuleHead { key, effect, effect_type, effect_on, result }, appended: Seq::empty() }
}

/// Appends a rule with head `h` and no appended rules.
fn push_plain(out: &mut Vec<Rule>, h: RuleHead)
    ensures
        rv(final(out)@) == rv(old(out)@).push(RuleV { head: h, appended: Seq::empty() }),
{
    let r = Rule::from_head(h);
    assert(r.appended() =~= Seq::<RuleHead>::empty());
    proof {
        assert(rv(old(out)@.push(r)) =~= rv(old(out)@).push(RuleV { head: h, appended: Seq::empty() }));
    }
    out.push(r);
}

/// The rules one member `chr` of the mark family of `eff` contributes: the
/// result itself toggles back to `eff`; a vowel gets the mark under each of
/// the six tones; any other member gets the mark once.
pub open spec fn member_rules(key: char, chr: char, eff: char, result: char, mark: Mark) -> Seq<RuleV> {
    if chr == result {
        seq![plain(key, EffectType::MarkTransformation, 0, result, eff)]
    } else if is_vowel_char(chr) {
        Seq::new(
            6,
            |t: int| plain(key, EffectType::MarkTransformation, mark_code(mark), with_tone(chr, t as u8), with_tone(result, t as u8)),
        )
    } else {
        seq![plain(key, EffectType::MarkTransformation, mark_code(mark), chr, result)]
    }
}

/// The rules of the first `i` members of `fam`.
pub open spec fn family_rules(key: char, fam: Seq<char>, eff: char, result: char, mark: Mark, i: int) -> Seq<RuleV>
    decreases i,
{
    if i <= 0 {
        Seq::empty()
    } else {
        family_rules(key, fam, eff, result, mark, i - 1) + member_rules(key, fam[i - 1], eff, result, mark)
    }
}

/// The mark rules mapping `eff` to `result` with `mark`, one set per member
/// of the mark family of `eff`.
pub open spec fn toneless_rule_spec(key: char, eff: char, result: char, mark: Mark) -> Seq<RuleV> {
    family_rules(key, family_members(eff), eff, result, mark, family_members(eff).len() as int)
}

/// Every rule of the sequence is a mark rule.
pub open spec fn all_marks(rules: Seq<RuleV>) -> bool {
    forall|j: int| 0 <= j < rules.len() ==> (#[trigger] rules[j]).head.effect_type == EffectType::MarkTransformation
        && rules[j].appended.len() == 0
}

pub fn parse_toneless_rule(key: char, effective_on: char, result: char, effect: Mark) -> (r: Vec<Rule>)
    ensures
        rv(r@) == toneless_rule_spec(key, effective_on, result, effect),
        all_marks(rv(r@)),
{
    let mut rules: Vec<Rule> = Vec::new();
    let fam = get_mark_family(effective_on);
    let ghost f = fam@;
    let mut i: usize = 0;
    assert(rv(rules@) =~= Seq::<RuleV>::empty());
    while i < fam.len()
        invariant
            f == fam@,
            f == family_members(effective_on),
            i <= f.len(),
            rv(rules@) == family_rules(key, f, effective_on, result, effect, i as int),
            all_marks(rv(rules@)),
        decreases f.len() - i,
    {
        let chr = fam[i];
        let ghost before = rv(rules@);
        if chr == result {
            push_plain(
                &mut rules,
                RuleHead { key, effect: 0, effect_type: EffectType::MarkTransformation, effect_on: result, result: effective_on },
            );
            assert(rv(rules@) =~= before + member_rules(key, chr, effective_on, result, effect));
        } else if is_vowel(chr) {
            let ghost m = member_rules(key, chr, effective_on, result, effect);
            let mut tone: u8 = 0;
            while tone < 6
                invariant
                    tone <= 6,
                    is_vowel_char(chr),
                    chr != result,
                    m == member_rules(key, chr, effective_on, result, effect),
                    rv(rules@) == before + m.subrange(0, tone as int),
                    all_marks(before),
                decreases 6 - tone,
            {
                proof {
                    lemma_tone_fits_small(chr, tone);
                    lemma_tone_fits_small(result, tone);
                }
                let on = add_tone_to_char(chr, tone);
                let res = add_tone_to_char(result, tone);
                push_plain(
                    &mut rules,
                    RuleHead { key, effect: effect.code(), effect_type: EffectType::MarkTransformation, effect_on: on, result: res },
                );
                assert(m.subrange(0, tone + 1) =~= m.subrange(0, tone as int).push(m[tone as int]));
                assert(before + m.subrange(0, tone + 1) =~= (before + m.subrange(0, tone as int)).push(m[tone as int]));
                tone += 1;
            }
            assert(m.subrange(0, 6) =~= m);
        } else {
            push_plain(
                &mut rules,
                RuleHead { key, effect: effect.code(), effect_type: EffectType::MarkTransformation, effect_on: chr, result },
            );
            assert(rv(rules@) =~= before + member_rules(key, chr, effective_on, result, effect));
        }
        assert(all_marks(rv(rules@))) by {
            let m = member_rules(key, chr, effective_on, result, effect);
            assert forall|j: int| 0 <= j < rv(rules@).len() implies (#[trigger] rv(rules@)[j]).head.effect_type
                == EffectType::MarkTransformation && rv(rules@)[j].appended.len() == 0 by {
                if j < before.len() {
                    assert(rv(rules@)[j] == before[j]);
                } else {
                    assert(rv(rules@)[j] == m[j - before.len()]);
                }
            }
        }
        i += 1;
    }
    rules
}

/// The end of the run of characters satisfying ASCII-letterness from `i`.
pub open spec fn ascii_run_end(s: Seq<char>, i: int) -> int
    decreases s.len() - i,
{
    if i < 0 || i >= s.len() || !is_ascii_alpha(s[i]) {
        i
    } else {
        ascii_run_end(s, i + 1)
    }
}

/// The end of the run of letters from `i`.
pub open spec fn letter_run_end(s: Seq<char>, i: int) -> int
    decreases s.len() - i,
{
    if i < 0 || i >= s.len() || !is_letter_char(s[i]) {
        i
    } else {
        letter_run_end(s, i + 1)
    }
}

/// The end of the run of letters and underscores from `i`.
pub open spec fn tail_run_end(s: Seq<char>, i: int) -> int
    decreases s.len() - i,
{
    if i < 0 || i >= s.len() || !(s[i] == '_' || is_letter_char(s[i])) {
        i
    } else {
        tail_run_end(s, i + 1)
    }
}

proof fn lemma_run_ends(s: Seq<char>, i: int)
    requires
        0 <= i <= s.len(),
    ensures
        i <= ascii_run_end(s, i) <= s.len(),
        i <= letter_run_end(s, i) <= s.len(),
        i <= tail_run_end(s, i) <= s.len(),
    decreases s.len() - i,
{
    if i < s.len() {
        lemma_run_ends(s, i + 1);
    }
}

/// Whether a mark clause starts at `p`: a run of ASCII letters, an
/// underscore, then a letter.
pub open spec fn clause_at(s: Seq<char>, p: int) -> bool {
    &&& 0 <= p < s.len()
    &&& is_ascii_alpha(s[p])
    &&& ascii_run_end(s, p) + 1 < s.len()
    &&& s[ascii_run_end(s, p)] == '_'
    &&& is_letter_char(s[ascii_run_end(s, p) + 1])
}

/// The first position from `p` on where a mark clause starts.
pub open spec fn clause_scan(s: Seq<char>, p: int) -> Option<int>
    decreases s.len() - p,
{
    if p < 0 || p >= s.len() {
        None
    } else if clause_at(s, p) {
        Some(p)
    } else {
        clause_scan(s, p + 1)
    }
}

proof fn lemma_clause_scan(s: Seq<char>, p: int)
    requires
        0 <= p,
    ensures
        clause_scan(s, p) matches Some(q) ==> p <= q && clause_at(s, q),
    decreases s.len() - p,
{
    if p < s.len() && !clause_at(s, p) {
        lemma_clause_scan(s, p + 1);
    }
}

/// Where the letters of an appending clause start if one starts at `p`:
/// two underscores then a letter, or one underscore then a letter.
pub open spec fn appending_at(s: Seq<char>, p: int) -> Option<int> {
    if 0 <= p && p + 2 < s.len() && s[p] == '_' && s[p + 1] == '_' && is_letter_char(s[p + 2]) {
        Some(p + 2)
    } else if 0 <= p && p + 1 < s.len() && s[p] == '_' && is_letter_char(s[p + 1]) {
        Some(p + 1)
    } else {
        None
    }
}

/// The letters' start of the first appending clause from `p` on.
pub open spec fn appending_scan(s: Seq<char>, p: int) -> Option<int>
    decreases s.len() - p,
{
    if p < 0 || p >= s.len() {
        None
    } else {
        match appending_at(s, p) {
            Some(g) => Some(g),
            None => appending_scan(s, p + 1),
        }
    }
}

proof fn lemma_appending_scan(s: Seq<char>, p: int)
    requires
        0 <= p,
    ensures
        appending_scan(s, p) matches Some(g) ==> 0 < g < s.len() && is_letter_char(s[g]),
    decreases s.len() - p,
{
    if p < s.len() && appending_at(s, p) is None {
        lemma_appending_scan(s, p + 1);
    }
}

/// An appending rule head for the letter `c`.
pub open spec fn appending_head(key: char, c: char) -> RuleHead {
    RuleHead { key, effect: 0, effect_type: EffectType::Appending, effect_on: c, result: c }
}

/// Appending rule heads for every letter of `letters` but the first.
pub open spec fn appended_heads(key: char, letters: Seq<char>) -> Seq<RuleHead>
    decreases letters.len(),
{
    if letters.len() <= 1 {
        Seq::empty()
    } else {
        appended_heads(key, letters.drop_last()).push(appending_head(key, letters.last()))
    }
}

/// The appending rule of the first appending clause of `v`: it appends the
/// clause's first letter, followed by its other letters as appended rules.
pub open spec fn appending_rule_spec(key: char, v: Seq<char>) -> Option<RuleV> {
    match appending_scan(v, 0) {
        None => None,
        Some(g) => {
            let letters = v.subrange(g, letter_run_end(v, g));
            Some(
                RuleV {
                    head: appending_head(key, letters[0]),
                    appended: appended_heads(key, letters),
                },
            )
        },
    }
}

fn letter_run(s: &[char], i: usize) -> (r: usize)
    requires
        i <= s@.len(),
    ensures
        r == letter_run_end(s@, i as int),
{
    let mut j = i;
    while j < s.len() && is_letter(s[j])
        invariant
            i <= j <= s@.len(),
            letter_run_end(s@, i as int) == letter_run_end(s@, j as int),
        decreases s@.len() - j,
    {
        j += 1;
    }
    j
}

fn appending_rule_of(key: char, v: &[char]) -> (r: Option<Rule>)
    ensures
        r matches Some(rule) ==> appending_rule_spec(key, v@) == Some(RuleV { head: rule@, appended: rule.appended() }),
        r is None ==> appending_rule_spec(key, v@) is None,
{
    let mut p: usize = 0;
    let mut start: usize = 0;
    let mut found = false;
    while p < v.len() && !found
        invariant
            p <= v@.len(),
            !found ==> appending_scan(v@, 0) == appending_scan(v@, p as int),
            found ==> appending_scan(v@, 0) == Some(start as int),
        decreases v@.len() - p + (if found { 0int } else { 1int }),
    {
        if v.len() - p > 2 && v[p] == '_' && v[p + 1] == '_' && is_letter(v[p + 2]) {
            start = p + 2;
            found = true;
        } else if v.len() - p > 1 && v[p] == '_' && is_letter(v[p + 1]) {
            start = p + 1;
            found = true;
        } else {
            p += 1;
        }
    }
    if !found {
        return None;
    }
    proof {
        lemma_appending_scan(v@, 0);
    }
    let end = letter_run(v, start);
    proof {
        lemma_run_ends(v@, start as int + 1);
        assert(is_letter_char(v@[start as int]));
        assert(letter_run_end(v@, start as int) == letter_run_end(v@, start as int + 1));
    }
    let ghost letters = v@.subrange(start as int, end as int);
    let first = v[start];
    let mut rule = Rule::from_head(
        RuleHead { key, effect: 0, effect_type: EffectType::Appending, effect_on: first, result: first },
    );
    assert(rule.appended() =~= Seq::<RuleHead>::empty());
    let mut k = start + 1;
    assert(start < end);
    assert(rule.appended() =~= appended_heads(key, letters.subrange(0, 1)));
    while k < end
        invariant
            start < k <= end <= v@.len(),
            letters == v@.subrange(start as int, end as int),
            appending_scan(v@, 0) == Some(start as int),
            end == letter_run_end(v@, start as int),
            rule@ == appending_head(key, first),
            rule.appended() == appended_heads(key, letters.subrange(0, k - start)),
        decreases end - k,
    {
        let chr = v[k];
        let a = Rule::from_head(
            RuleHead { key, effect: 0, effect_type: EffectType::Appending, effect_on: chr, result: chr },
        );
        proof {
            assert(heads(rule.appended_rules@.push(a)) =~= heads(rule.appended_rules@).push(a@));
            assert(letters.subrange(0, k - start + 1).drop_last() =~= letters.subrange(0, k - start));
            assert(letters.subrange(0, k - start + 1).last() == v@[k as int]);
        }
        rule.appended_rules.push(a);
        k += 1;
    }
    assert(letters.subrange(0, end - start) =~= letters);
    assert(letters[0] == first);
    assert(appending_rule_spec(key, v@) == Some(RuleV { head: rule@, appended: rule.appended() }));
    Some(rule)
}

/// The appending rule of the first appending clause of `value`, if any.
pub fn get_appending_rule(key: char, value: &str) -> (r: Option<Rule>)
    ensures
        r matches Some(rule) ==> appending_rule_spec(key, value@) == Some(RuleV { head: rule@, appended: rule.appended() }),
        r is None ==> appending_rule_spec(key, value@) is None,
{
    let v = chars_of(value);
    appending_rule_of(key, v.as_slice())
}

/// The one-element sequence of an optional rule.
pub open spec fn opt_rule(r: Option<RuleV>) -> Seq<RuleV> {
    match r {
        Some(x) => seq![x],
        None => Seq::empty(),
    }
}

/// The mark rules of the first `i` pairs of a mark clause: each source
/// character with the result at the same position, when that result carries
/// a mark.
pub open spec fn mark_rules_upto(key: char, effs: Seq<char>, results: Seq<char>, i: int) -> Seq<RuleV>
    decreases i,
{
    if i <= 0 {
        Seq::empty()
    } else {
        let prev = mark_rules_upto(key, effs, results, i - 1);
        if i - 1 < results.len() {
            match mark_of_char(results[i - 1]) {
                Some(m) => prev + toneless_rule_spec(key, effs[i - 1], results[i - 1], m),
                None => prev,
            }
        } else {
            prev
        }
    }
}

/// The rules of a line that names no tone. On the lowercased line, the first
/// mark clause gives its mark rules followed by the appending rule of the
/// clause's tail; a line without a mark clause gives the appending rule of
/// the line as written.
pub open spec fn toneless_spec(key: char, line: Seq<char>) -> Seq<RuleV> {
    let lower = lowercase_str(line);
    match clause_scan(lower, 0) {
        Some(p) => {
            let q = ascii_run_end(lower, p);
            let r = letter_run_end(lower, q + 1);
            let t = tail_run_end(lower, r);
            mark_rules_upto(key, lower.subrange(p, q), lower.subrange(q + 1, r), q - p) + opt_rule(
                appending_rule_spec(key, lower.subrange(r, t)),
            )
        },
        None => opt_rule(appending_rule_spec(key, line)),
    }
}

/// The rules of one definition line keyed on `key`.
pub open spec fn parse_rules_spec(key: char, line: Seq<char>) -> Seq<RuleV> {
    match tone_named(line) {
        Some(t) => seq![plain(key, EffectType::ToneTransformation, tone_code(t), '\0', '\0')],
        None => toneless_spec(key, line),
    }
}

pub(crate) proof fn lemma_rules_wf_add(a: Seq<RuleV>, b: Seq<RuleV>)
    requires
        rules_wf(a),
        rules_wf(b),
    ensures
        rules_wf(a + b),
{
    assert forall|j: int| 0 <= j < (a + b).len() implies head_wf((#[trigger] (a + b)[j]).head) && heads_wf(
        (a + b)[j].appended,
    ) by {
        if j < a.len() {
            assert((a + b)[j] == a[j]);
        } else {
            assert((a + b)[j] == b[j - a.len()]);
        }
    }
}

proof fn lemma_marks_wf(a: Seq<RuleV>)
    requires
        all_marks(a),
    ensures
        rules_wf(a),
{
    assert forall|j: int| 0 <= j < a.len() implies head_wf((#[trigger] a[j]).head) && heads_wf(a[j].appended) by {
        assert(a[j].appended.len() == 0);
    }
}

proof fn lemma_appended_wf(key: char, letters: Seq<char>)
    ensures
        heads_wf(appended_heads(key, letters)),
    decreases letters.len(),
{
    if letters.len() > 1 {
        lemma_appended_wf(key, letters.drop_last());
        let p = appended_heads(key, letters.drop_last());
        assert forall|j: int| 0 <= j < p.push(appending_head(key, letters.last())).len() implies head_wf(
            #[trigger] p.push(appending_head(key, letters.last()))[j],
        ) by {
            if j < p.len() {
                assert(p.push(appending_head(key, letters.last()))[j] == p[j]);
            }
        }
    }
}

proof fn lemma_appending_rule_wf(key: char, v: Seq<char>)
    ensures
        rules_wf(opt_rule(appending_rule_spec(key, v))),
{
    if let Some(g) = appending_scan(v, 0) {
        lemma_appended_wf(key, v.subrange(g, letter_run_end(v, g)));
    }
}

fn ascii_run(s: &[char], i: usize) -> (r: usize)
    requires
        i <= s@.len(),
    ensures
        r == ascii_run_end(s@, i as int),
{
    let mut j = i;
    while j < s.len() && ascii_alpha(s[j])
        invariant
            i <= j <= s@.len(),
            ascii_run_end(s@, i as int) == ascii_run_end(s@, j as int),
        decreases s@.len() - j,
    {
        j += 1;
    }
    j
}

fn tail_run(s: &[char], i: usize) -> (r: usize)
    requires
        i <= s@.len(),
    ensures
        r == tail_run_end(s@, i as int),
{
    let mut j = i;
    while j < s.len() && (s[j] == '_' || is_letter(s[j]))
        invariant
            i <= j <= s@.len(),
            tail_run_end(s@, i as int) == tail_run_end(s@, j as int),
        decreases s@.len() - j,
    {
        j += 1;
    }
    j
}

/// Appends the rules of `src` to `dst`.
pub(crate) fn append_rules(dst: &mut Vec<Rule>, src: Vec<Rule>)
    ensures
        rv(final(dst)@) == rv(old(dst)@) + rv(src@),
{
    let mut src = src;
    let ghost s0 = rv(src@);
    let mut rest: Vec<Rule> = Vec::new();
    while src.len() > 0
        invariant
            rv(src@) + rv(rest@).reverse() == s0,
        decreases src@.len(),
    {
        let r = src.pop().unwrap();
        proof {
            let s = src@;
            assert(rv(rest@.push(r)).reverse() =~= seq![RuleV { head: r@, appended: r.appended() }] + rv(rest@).reverse());
            assert(rv(s.push(r)) =~= rv(s).push(RuleV { head: r@, appended: r.appended() }));
            assert(rv(s) + rv(rest@.push(r)).reverse() =~= rv(s.push(r)) + rv(rest@).reverse());
        }
        rest.push(r);
    }
    assert(rv(src@) =~= Seq::<RuleV>::empty());
    assert(rv(rest@).reverse() =~= s0);
    while rest.len() > 0
        invariant
            rv(dst@) + rv(rest@).reverse() == rv(old(dst)@) + s0,
        decreases rest@.len(),
    {
        let r = rest.pop().unwrap();
        proof {
            let s = rest@;
            assert(rv(s.push(r)).reverse() =~= seq![RuleV { head: r@, appended: r.appended() }] + rv(s).reverse());
            assert(rv(dst@.push(r)) =~= rv(dst@).push(RuleV { head: r@, appended: r.appended() }));
            assert(rv(dst@.push(r)) + rv(s).reverse() =~= rv(dst@) + (seq![RuleV { head: r@, appended: r.appended() }] + rv(s).reverse()));
        }
        dst.push(r);
    }
    assert(rv(rest@).reverse() =~= Seq::<RuleV>::empty());
}

fn push_opt_rule(dst: &mut Vec<Rule>, r: Option<Rule>)
    ensures
        rv(final(dst)@) == rv(old(dst)@) + opt_rule(match r {
            Some(x) => Some(RuleV { head: x@, appended: x.appended() }),
            None => None,
        }),
{
    match r {
        Some(x) => {
            proof {
                assert(rv(dst@.push(x)) =~= rv(dst@) + seq![RuleV { head: x@, appended: x.appended() }]);
            }
            dst.push(x);
        },
        None => {
            assert(rv(dst@) + Seq::<RuleV>::empty() =~= rv(dst@));
        },
    }
}

pub fn parse_toneless_rules(key: char, line: &str) -> (r: Vec<Rule>)
    ensures
        rv(r@) == toneless_spec(key, line@),
        rules_wf(rv(r@)),
{
    let mut rules: Vec<Rule> = Vec::new();
    assert(rv(rules@) =~= Seq::<RuleV>::empty());
    let lower_s = str_to_lowercase(line);
    let lower = chars_of(lower_s.as_str());
    let ghost ls = lower@;
    assert(ls == lowercase_str(line@));
    let n = lower.len();
    let mut p: usize = 0;
    let mut found = false;
    while p < n && !found
        invariant
            n == ls.len(),
            ls == lower@,
            p <= n,
            !found ==> clause_scan(ls, 0) == clause_scan(ls, p as int),
            found ==> clause_scan(ls, 0) == Some(p as int),
        decreases n - p + (if found { 0int } else { 1int }),
    {
        if ascii_alpha(lower[p]) {
            let q = ascii_run(lower.as_slice(), p);
            proof {
                lemma_run_ends(ls, p as int);
            }
            if q < n && n - q > 1 && lower[q] == '_' && is_letter(lower[q + 1]) {
                found = true;
            } else {
                p += 1;
            }
        } else {
            p += 1;
        }
    }
    if !found {
        let a = get_appending_rule(key, line);
        proof {
            lemma_appending_rule_wf(key, line@);
        }
        push_opt_rule(&mut rules, a);
        return rules;
    }
    proof {
        lemma_clause_scan(ls, 0);
        lemma_run_ends(ls, p as int);
    }
    let q = ascii_run(lower.as_slice(), p);
    proof {
        lemma_run_ends(ls, q + 1);
    }
    let r = letter_run(lower.as_slice(), q + 1);
    proof {
        lemma_run_ends(ls, r as int);
    }
    let t = tail_run(lower.as_slice(), r);
    let effs = vstd::slice::slice_subrange(lower.as_slice(), p, q);
    let results = vstd::slice::slice_subrange(lower.as_slice(), q + 1, r);
    let mut i: usize = 0;
    while i < effs.len()
        invariant
            i <= effs@.len(),
            rv(rules@) == mark_rules_upto(key, effs@, results@, i as int),
            rules_wf(rv(rules@)),
        decreases effs@.len() - i,
    {
        if i < results.len() {
            match find_mark_from_char(results[i]) {
                Some(m) => {
                    let more = parse_toneless_rule(key, effs[i], results[i], m);
                    proof {
                        lemma_marks_wf(rv(more@));
                        lemma_rules_wf_add(rv(rules@), rv(more@));
                    }
                    append_rules(&mut rules, more);
                },
                None => {},
            }
        }
        i += 1;
    }
    let tail = vstd::slice::slice_subrange(lower.as_slice(), r, t);
    let a = appending_rule_of(key, tail);
    proof {
        lemma_appending_rule_wf(key, tail@);
        lemma_rules_wf_add(rv(rules@), opt_rule(appending_rule_spec(key, tail@)));
    }
    push_opt_rule(&mut rules, a);
    rules
}

/// Parse one definition line keyed on `key` into its rules.
pub fn parse_rules(key: char, line: &str) -> (r: Vec<Rule>)
    ensures
        rv(r@) == parse_rules_spec(key, line@),
        rules_wf(rv(r@)),
{
    let chars = chars_of(line);
    match find_tone_name(chars.as_slice()) {
        Some(tone) => {
            let mut rules: Vec<Rule> = Vec::new();
            push_plain(
                &mut rules,
                RuleHead { key, effect: tone.code(), effect_type: EffectType::ToneTransformation, effect_on: '\0', result: '\0' },
            );
            assert(rv(rules@) =~= seq![plain(key, EffectType::ToneTransformation, tone_code(tone), '\0', '\0')]);
            rules
        },
        None => parse_toneless_rules(key, line),
    }
}

/// Every rule of the sequence, and every rule appended to one, is bound to
/// `key`.
pub open spec fn all_keyed(rules: Seq<RuleV>, key: char) -> bool {
    forall|j: int|
        0 <= j < rules.len() ==> (#[trigger] rules[j]).head.key == key && forall|k: int|
            0 <= k < rules[j].appended.len() ==> (#[trigger] rules[j].appended[k]).key == key
}

proof fn lemma_keyed_add(a: Seq<RuleV>, b: Seq<RuleV>, key: char)
    requires
        all_keyed(a, key),
        all_keyed(b, key),
    ensures
        all_keyed(a + b, key),
{
    assert forall|j: int| 0 <= j < (a + b).len() implies (#[trigger] (a + b)[j]).head.key == key && forall|k: int|
        0 <= k < (a + b)[j].appended.len() ==> (#[trigger] (a + b)[j].appended[k]).key == key by {
        if j < a.len() {
            assert((a + b)[j] == a[j]);
        } else {
            assert((a + b)[j] == b[j - a.len()]);
        }
    }
}

proof fn lemma_family_keyed(key: char, fam: Seq<char>, eff: char, result: char, mark: Mark, i: int)
    ensures
        all_keyed(family_rules(key, fam, eff, result, mark, i), key),
    decreases i,
{
    if i > 0 {
        lemma_family_keyed(key, fam, eff, result, mark, i - 1);
        lemma_keyed_add(family_rules(key, fam, eff, result, mark, i - 1), member_rules(key, fam[i - 1], eff, result, mark), key);
    }
}

proof fn lemma_mark_rules_keyed(key: char, effs: Seq<char>, results: Seq<char>, i: int)
    ensures
        all_keyed(mark_rules_upto(key, effs, results, i), key),
    decreases i,
{
    if i > 0 {
        lemma_mark_rules_keyed(key, effs, results, i - 1);
        if i - 1 < results.len() {
            if let Some(m) = mark_of_char(results[i - 1]) {
                let fam = family_members(effs[i - 1]);
                lemma_family_keyed(key, fam, effs[i - 1], results[i - 1], m, fam.len() as int);
                lemma_keyed_add(mark_rules_upto(key, effs, results, i - 1), toneless_rule_spec(key, effs[i - 1], results[i - 1], m), key);
            }
        }
    }
}

proof fn lemma_appended_keyed(key: char, letters: Seq<char>)
    ensures
        forall|k: int| 0 <= k < appended_heads(key, letters).len() ==> (#[trigger] appended_heads(key, letters)[k]).key == key,
    decreases letters.len(),
{
    if letters.len() > 1 {
        lemma_appended_keyed(key, letters.drop_last());
        let p = appended_heads(key, letters.drop_last());
        assert forall|k: int| 0 <= k < p.push(appending_head(key, letters.last())).len() implies (#[trigger] p.push(
            appending_head(key, letters.last()),
        )[k]).key == key by {
            if k < p.len() {
                assert(p.push(appending_head(key, letters.last()))[k] == p[k]);
            }
        }
    }
}

proof fn lemma_appending_keyed(key: char, v: Seq<char>)
    ensures
        all_keyed(opt_rule(appending_rule_spec(key, v)), key),
{
    if let Some(g) = appending_scan(v, 0) {
        lemma_appended_keyed(key, v.subrange(g, letter_run_end(v, g)));
    }
}

/// Every rule a definition line gives, and every rule appended to one, is
/// bound to the line's key.
pub proof fn law_parsed_rules_carry_key(key: char, line: Seq<char>)
    ensures
        all_keyed(parse_rules_spec(key, line), key),
{
    if tone_named(line) is None {
        let lower = lowercase_str(line);
        match clause_scan(lower, 0) {
            Some(p) => {
                let q = ascii_run_end(lower, p);
                let r = letter_run_end(lower, q + 1);
                let t = tail_run_end(lower, r);
                lemma_mark_rules_keyed(key, lower.subrange(p, q), lower.subrange(q + 1, r), q - p);
                lemma_appending_keyed(key, lower.subrange(r, t));
                lemma_keyed_add(
                    mark_rules_upto(key, lower.subrange(p, q), lower.subrange(q + 1, r), q - p),
                    opt_rule(appending_rule_spec(key, lower.subrange(r, t))),
                    key,
                );
            },
            None => {
                lemma_appending_keyed(key, line);
            },
        }
    }
}

} // verus!
