//! The public composition engine: feed it keystrokes, read back Vietnamese.
use vstd::prelude::*;
use crate::composition::{
    clone_range, comp_wf, cv, extend_cloned, extend_moved, lemma_cv_push,
    lemma_cv_subrange, opt_seq, trans_wf, IdGen, TransId, TransV, Transformation, TEMP_ID,
};
use crate::flatten::{flatten, flatten_spec};
use crate::generate::{
    appending_spec, break_composition, break_spec, new_appending_trans, fallback_spec, find_target, find_target_spec, generate_fallback_transformations, generate_spec,
    generate_transformations, refresh_last_tone_target, refresh_spec, rules_wf, unkeyed, Retarget,
};
use crate::input_method::{InputMethod, InputMethodV};
use crate::mode::{
    has_bits, EngineFlags, Mode, MODE_LOWERCASE, MODE_MARKLESS, MODE_TONELESS, FLAG_FREE_TONE_MARKING, FLAG_STD_TONE_STYLE, MODE_ENGLISH, MODE_FULL_TEXT,
    MODE_IN_REVERSE_ORDER, MODE_PUNCTUATION,
};
use crate::rules::{rv, Rule, RuleV};
use crate::target::{
    by_id, by_id_spec, extract_last_syllable, extract_last_word,
    extract_last_word_with_punctuation_marks, find_last_appending_trans, is_valid, is_valid_spec,
    last_appending_spec, last_syllable_spec, last_word_space_spec, last_word_spec, lemma_by_id,
    lemma_wf_subrange,
};
use crate::text::{
    chars_of, is_letter, is_letter_char, is_uppercase, is_uppercase_char, lower_char, string_from_chars,
    to_lower,
};
use crate::unicode_tables::{can_process, can_process_key};

verus! {

/// The rules of `rules` bound to the key `key` (compared lowercased).
pub open spec fn applicable_spec(rules: Seq<RuleV>, key: char) -> Seq<RuleV>
    decreases rules.len(),
{
    if rules.len() == 0 {
        Seq::empty()
    } else {
        let p = applicable_spec(rules.drop_last(), key);
        if rules.last().head.key == to_lower(key) {
            p.push(rules.last())
        } else {
            p
        }
    }
}

proof fn lemma_applicable_wf(rules: Seq<RuleV>, key: char)
    requires
        rules_wf(rules),
    ensures
        rules_wf(applicable_spec(rules, key)),
    decreases rules.len(),
{
    if rules.len() > 0 {
        let d = rules.drop_last();
        assert forall|j: int| 0 <= j < d.len() implies crate::composition::head_wf((#[trigger] d[j]).head)
            && crate::composition::heads_wf(d[j].appended) by {
            assert(d[j] == rules[j]);
        }
        lemma_applicable_wf(d, key);
        let p = applicable_spec(d, key);
        if rules.last().head.key == to_lower(key) {
            assert forall|j: int| 0 <= j < p.push(rules.last()).len() implies crate::composition::head_wf(
                (#[trigger] p.push(rules.last())[j]).head,
            ) && crate::composition::heads_wf(p.push(rules.last())[j].appended) by {
                if j < p.len() {
                    assert(p.push(rules.last())[j] == p[j]);
                } else {
                    assert(rules[rules.len() - 1] == rules.last());
                }
            }
        }
    }
}

/// The rules of `rules` bound to `key`, copied.
fn applicable_rules(rules: &[Rule], key: char) -> (r: Vec<Rule>)
    ensures
        rv(r@) == applicable_spec(rv(rules@), key),
{
    let lower = lower_char(key);
    let mut out: Vec<Rule> = Vec::new();
    let mut j: usize = 0;
    assert(rv(out@) =~= applicable_spec(rv(rules@).subrange(0, 0), key));
    while j < rules.len()
        invariant
            j <= rules@.len(),
            lower == to_lower(key),
            rv(out@) == applicable_spec(rv(rules@).subrange(0, j as int), key),
        decreases rules@.len() - j,
    {
        proof {
            assert(rv(rules@).subrange(0, j + 1).drop_last() =~= rv(rules@).subrange(0, j as int));
            assert(rv(rules@).subrange(0, j + 1).last() == rv(rules@)[j as int]);
        }
        if rules[j].key == lower {
            let d = rules[j].duplicate();
            proof {
                assert(rv(out@.push(d)) =~= rv(out@).push(RuleV { head: d@, appended: d.appended() }));
            }
            out.push(d);
        }
        j += 1;
    }
    assert(rv(rules@).subrange(0, rules@.len() as int) =~= rv(rules@));
    out
}

/// Whether the pair at `i` is the `uơ` or `ưo` cluster.
pub open spec fn is_uo_pair(s: Seq<char>, i: int) -> bool {
    (s[i] == 'u' && s[i + 1] == 'ơ') || (s[i] == 'ư' && s[i + 1] == 'o')
}

/// Whether the text holds a `uơ`/`ưo` cluster followed by a letter: the
/// cluster the `uow` shortcut completes.
pub open spec fn uoh_tail(s: Seq<char>) -> bool {
    exists|i: int| 0 <= i && i + 2 < s.len() && #[trigger] is_uo_pair(s, i) && is_letter_char(s[i + 2])
}

fn matches_uoh_tail(s: &[char]) -> (r: bool)
    ensures
        r == uoh_tail(s@),
{
    let mut i: usize = 0;
    while i < s.len() && s.len() - i > 2
        invariant
            i <= s@.len(),
            forall|k: int| 0 <= k < i && k + 2 < s@.len() ==> !(#[trigger] is_uo_pair(s@, k) && is_letter_char(s@[k + 2])),
        decreases s@.len() - i,
    {
        if ((s[i] == 'u' && s[i + 1] == 'ơ') || (s[i] == 'ư' && s[i + 1] == 'o')) && is_letter(s[i + 2]) {
            assert(is_uo_pair(s@, i as int));
            return true;
        }
        i += 1;
    }
    false
}

/// The virtual horn transformation the `uow` shortcut adds to `c`, taking id
/// `n`: when the text (lowercase, toneless) holds a `uơ`/`ưo` cluster
/// followed by a letter, the rules of the first super key find its target.
pub open spec fn uow_spec(n: nat, c: Seq<TransV>, im: InputMethodV, flags: EngineFlags) -> Option<TransV> {
    if im.super_keys.len() == 0 || !uoh_tail(flatten_spec(c, Mode::Bits(20))) {
        None
    } else {
        let (target, rule) = find_target_spec(c, applicable_spec(im.rules, im.super_keys[0]), flags);
        match target {
            Some(t) => Some(TransV { id: n as TransId, rule: unkeyed(rule), target: Some(t), is_upper_case: false }),
            None => None,
        }
    }
}

fn apply_uow_shortcut(
    ids: &mut IdGen,
    im: &InputMethod,
    flags: EngineFlags,
    comp: &[Transformation],
) -> (r: Option<Transformation>)
    requires
        comp_wf(cv(comp@)),
        rules_wf(im@.rules),
        old(ids).next + opt_seq(uow_spec(old(ids).next as nat, cv(comp@), im@, flags)).len() <= TEMP_ID,
    ensures
        r matches Some(t) ==> uow_spec(old(ids).next as nat, cv(comp@), im@, flags) == Some(t@),
        r is None ==> uow_spec(old(ids).next as nat, cv(comp@), im@, flags) is None,
        final(ids).next == old(ids).next + opt_seq(uow_spec(old(ids).next as nat, cv(comp@), im@, flags)).len(),
        r matches Some(t) ==> trans_wf(t@),
{
    let s = flatten(comp, Mode::Bits(20));
    if im.super_keys.len() == 0 {
        return None;
    }
    let super_key = im.super_keys[0];
    if !matches_uoh_tail(s.as_slice()) {
        return None;
    }
    let rules = applicable_rules(im.rules.as_slice(), super_key);
    proof {
        lemma_applicable_wf(im@.rules, super_key);
    }
    let (target, mut missing_rule) = find_target(comp, rules.as_slice(), flags);
    match target {
        Some(tid) => {
            missing_rule.key = '\0';
            Some(Transformation { id: ids.next_id(), rule: missing_rule, target: Some(tid), is_upper_case: false })
        },
        None => None,
    }
}

/// The tone refresh the engine runs after a keystroke: only under free tone
/// marking, and only when the syllable is already valid.
pub open spec fn refresh_tone_spec(n: nat, c: Seq<TransV>, flags: EngineFlags) -> (Seq<TransV>, Option<Retarget>) {
    if flags.has(FLAG_FREE_TONE_MARKING) && is_valid_spec(c, false) {
        refresh_spec(n, c, flags.has(FLAG_STD_TONE_STYLE))
    } else {
        (Seq::empty(), None)
    }
}

fn refresh_tone(ids: &mut IdGen, flags: EngineFlags, comp: &[Transformation]) -> (r: (
    Vec<Transformation>,
    Option<Retarget>,
))
    requires
        comp_wf(cv(comp@)),
        old(ids).next + refresh_tone_spec(old(ids).next as nat, cv(comp@), flags).0.len() <= TEMP_ID,
    ensures
        (cv(r.0@), r.1) == refresh_tone_spec(old(ids).next as nat, cv(comp@), flags),
        final(ids).next == old(ids).next + r.0@.len(),
        comp_wf(cv(r.0@)),
{
    if flags.has_flag(FLAG_FREE_TONE_MARKING) && is_valid(comp, false) {
        refresh_last_tone_target(ids, comp, flags.has_flag(FLAG_STD_TONE_STYLE))
    } else {
        let out: Vec<Transformation> = Vec::new();
        assert(cv(out@) =~= Seq::<TransV>::empty());
        (out, None)
    }
}

/// `c` with the transformation of the retarget's id pointed at its new
/// target.
pub open spec fn retarget_spec(c: Seq<TransV>, rt: Option<Retarget>) -> Seq<TransV> {
    match rt {
        None => c,
        Some((id, nt)) => Seq::new(
            c.len(),
            |i: int| if c[i].id == id { TransV { target: nt, ..c[i] } } else { c[i] },
        ),
    }
}

fn apply_retarget(comp: &mut Vec<Transformation>, retarget: Option<Retarget>)
    ensures
        cv(final(comp)@) == retarget_spec(cv(old(comp)@), retarget),
{
    match retarget {
        None => {},
        Some((id, new_target)) => {
            let ghost c0 = cv(comp@);
            let mut i: usize = 0;
            while i < comp.len()
                invariant
                    i <= comp@.len() == c0.len(),
                    forall|k: int|
                        0 <= k < comp@.len() ==> #[trigger] cv(comp@)[k] == (if k < i && c0[k].id == id {
                            TransV { target: new_target, ..c0[k] }
                        } else {
                            c0[k]
                        }),
                decreases comp@.len() - i,
            {
                let ghost before = comp@;
                if comp[i].id == id {
                    comp[i].target = new_target;
                    assert(comp@ == before.update(i as int, comp@[i as int]));
                    assert(comp@[i as int]@ == TransV { target: new_target, ..before[i as int]@ });
                }
                proof {
                    assert forall|k: int| 0 <= k < comp@.len() implies #[trigger] cv(comp@)[k] == (if k < i + 1
                        && c0[k].id == id {
                        TransV { target: new_target, ..c0[k] }
                    } else {
                        c0[k]
                    }) by {
                        assert(cv(before)[k] == before[k]@);
                        if k != i {
                            assert(comp@[k] == before[k]);
                        }
                    }
                }
                i += 1;
            }
            assert(cv(comp@) =~= retarget_spec(c0, retarget));
        },
    }
}

/// What one keystroke adds to the last syllable `syl`, with ids from `n`:
/// the generated transformations (or, when none apply, a plain append with
/// its appended characters and the `uow` shortcut), then the tone refresh.
/// Returns the new transformations, the retarget to apply, and the number
/// of ids taken.
#[verifier::opaque]
pub open spec fn step_gen_spec(
    n: nat,
    syl: Seq<TransV>,
    im: InputMethodV,
    flags: EngineFlags,
    key: char,
    upper: bool,
) -> (Seq<TransV>, Option<Retarget>, nat) {
    let rules = applicable_spec(im.rules, key);
    let g = generate_spec(n, syl, rules, flags, key, upper);
    let trans_used: (Seq<TransV>, nat) = if g.0.len() > 0 {
        (g.0, g.1)
    } else {
        let fb = fallback_spec(n + g.1, rules, key, upper);
        let u = opt_seq(uow_spec(n + g.1 + fb.len(), syl + fb, im, flags));
        (fb + u, g.1 + fb.len() + u.len())
    };
    let rf = refresh_tone_spec(n + trans_used.1, syl + trans_used.0, flags);
    (trans_used.0 + rf.0, rf.1, trans_used.1 + rf.0.len())
}

#[verifier::spinoff_prover]
#[verifier::rlimit(30)]
fn generate(
    ids: &mut IdGen,
    im: &InputMethod,
    flags: EngineFlags,
    syl: &[Transformation],
    key: char,
    is_upper: bool,
) -> (r: (Vec<Transformation>, Option<Retarget>))
    requires
        comp_wf(cv(syl@)),
        rules_wf(im@.rules),
        old(ids).next + step_gen_spec(old(ids).next as nat, cv(syl@), im@, flags, key, is_upper).2 <= TEMP_ID,
    ensures
        ({
            let g = step_gen_spec(old(ids).next as nat, cv(syl@), im@, flags, key, is_upper);
            &&& cv(r.0@) == g.0
            &&& r.1 == g.1
            &&& final(ids).next == old(ids).next + g.2
        }),
        comp_wf(cv(r.0@)),
{
    let ghost n = ids.next as nat;
    let ghost c = cv(syl@);
    proof {
        reveal(step_gen_spec);
    }
    let ghost total = step_gen_spec(n, c, im@, flags, key, is_upper);
    let rules = applicable_rules(im.rules.as_slice(), key);
    proof {
        lemma_applicable_wf(im@.rules, key);
    }
    let ghost rs = applicable_spec(im@.rules, key);
    let ghost g = generate_spec(n, c, rs, flags, key, is_upper);
    let mut trans = generate_transformations(ids, syl, rules.as_slice(), flags, key, is_upper);
    if trans.len() == 0 {
        let ghost n1 = ids.next as nat;
        assert(n1 == n + g.1);
        let fb = generate_fallback_transformations(ids, rules.as_slice(), key, is_upper);
        let ghost n2 = ids.next as nat;
        let mut new_comp = clone_range(syl, 0, syl.len());
        assert(c.subrange(0, syl@.len() as int) =~= c);
        extend_cloned(&mut new_comp, fb.as_slice());
        proof {
            lemma_wf_add(c, cv(fb@));
        }
        let uow = apply_uow_shortcut(ids, im, flags, new_comp.as_slice());
        trans = fb;
        match uow {
            Some(t) => {
                proof {
                    lemma_cv_push(trans@, t);
                    lemma_wf_add(cv(trans@), seq![t@]);
                    assert(cv(trans@).push(t@) =~= cv(trans@) + seq![t@]);
                }
                trans.push(t);
            },
            None => {
                assert(cv(trans@) + opt_seq(None) =~= cv(trans@));
            },
        }
    } else {
        assert(g.0.len() > 0);
    }
    let mut combined = clone_range(syl, 0, syl.len());
    assert(c.subrange(0, syl@.len() as int) =~= c);
    extend_cloned(&mut combined, trans.as_slice());
    proof {
        lemma_wf_add(c, cv(trans@));
    }
    let (refresh, retarget) = refresh_tone(ids, flags, combined.as_slice());
    proof {
        lemma_wf_add(cv(trans@), cv(refresh@));
    }
    extend_moved(&mut trans, refresh);
    (trans, retarget)
}

proof fn lemma_wf_add(a: Seq<TransV>, b: Seq<TransV>)
    requires
        comp_wf(a),
        comp_wf(b),
    ensures
        comp_wf(a + b),
{
    assert forall|k: int| 0 <= k < (a + b).len() implies trans_wf(#[trigger] (a + b)[k]) by {
        if k < a.len() {
            assert((a + b)[k] == a[k]);
        } else {
            assert((a + b)[k] == b[k - a.len()]);
        }
    }
}

proof fn lemma_wf_retarget(c: Seq<TransV>, rt: Option<Retarget>)
    requires
        comp_wf(c),
    ensures
        comp_wf(retarget_spec(c, rt)),
        retarget_spec(c, rt).len() == c.len(),
{
    assert forall|k: int| 0 <= k < retarget_spec(c, rt).len() implies trans_wf(#[trigger] retarget_spec(c, rt)[k]) by {
        assert(trans_wf(c[k]));
    }
}

/// The composition after a keystroke of `key` with ids from `n`: the last
/// syllable gets the transformations the key generates, then the retarget
/// applies to the whole. Returns the composition and the ids taken.
#[verifier::opaque]
pub open spec fn new_comp_spec(
    n: nat,
    c: Seq<TransV>,
    im: InputMethodV,
    flags: EngineFlags,
    key: char,
    upper: bool,
) -> (Seq<TransV>, nat) {
    let split = last_syllable_spec(c);
    let g = step_gen_spec(n, c.subrange(split, c.len() as int), im, flags, key, upper);
    (retarget_spec(c + g.0, g.1), g.2)
}

fn new_composition(
    ids: &mut IdGen,
    im: &InputMethod,
    flags: EngineFlags,
    composition: Vec<Transformation>,
    key: char,
    is_upper: bool,
) -> (r: Vec<Transformation>)
    requires
        comp_wf(cv(composition@)),
        rules_wf(im@.rules),
        old(ids).next + new_comp_spec(old(ids).next as nat, cv(composition@), im@, flags, key, is_upper).1 <= TEMP_ID,
    ensures
        ({
            let g = new_comp_spec(old(ids).next as nat, cv(composition@), im@, flags, key, is_upper);
            &&& cv(r@) == g.0
            &&& final(ids).next == old(ids).next + g.1
        }),
        comp_wf(cv(r@)),
{
    let ghost c = cv(composition@);
    proof {
        reveal(new_comp_spec);
    }
    let split = extract_last_syllable(composition.as_slice());
    let n = composition.len();
    let syl = vstd::slice::slice_subrange(composition.as_slice(), split, n);
    proof {
        lemma_cv_subrange(composition@, split as int, n as int);
        lemma_wf_subrange(c, split as int, n as int);
    }
    let (generated, retarget) = generate(ids, im, flags, syl, key, is_upper);
    let mut result = composition;
    proof {
        lemma_wf_add(c, cv(generated@));
    }
    extend_moved(&mut result, generated);
    proof {
        lemma_wf_retarget(cv(result@), retarget);
    }
    apply_retarget(&mut result, retarget);
    result
}

/// Composes Vietnamese text from a stream of keystrokes for one input method.
#[derive(Debug)]
pub struct BambooEngine {
    composition: Vec<Transformation>,
    input_method: InputMethod,
    flags: EngineFlags,
    ids: IdGen,
}

/// The engine under the name its users know it by.
pub type BambusaEngine = BambooEngine;

/// The value of an engine: its input method and flags, the composition so
/// far, and the next transformation id it hands out.
#[verifier::ext_equal]
pub struct EngineV {
    pub im: InputMethodV,
    pub flags: EngineFlags,
    pub comp: Seq<TransV>,
    pub next: nat,
}

impl BambooEngine {
    pub closed spec fn state(&self) -> EngineV {
        EngineV {
            im: self.input_method@,
            flags: self.flags,
            comp: cv(self.composition@),
            next: self.ids.next as nat,
        }
    }
}

impl View for BambooEngine {
    type V = EngineV;

    open spec fn view(&self) -> EngineV {
        self.state()
    }
}

/// An engine value is well formed when its composition and rules apply
/// only the six tones.
pub open spec fn engine_wf(e: EngineV) -> bool {
    comp_wf(e.comp) && rules_wf(e.im.rules)
}

/// The engine after one keystroke of `key` under `mode`. In English mode, or
/// for a key the input method cannot process, the lowercased key is appended
/// (prepended in reverse order) as a plain character; otherwise it composes
/// into the last syllable.
#[verifier::opaque]
pub open spec fn key_spec(e: EngineV, key: char, mode: Mode) -> EngineV {
    let lower = to_lower(key);
    let upper = is_uppercase_char(key);
    if mode.has(MODE_ENGLISH) || !can_process(lower, e.im.keys) {
        let t = appending_spec(e.next as TransId, lower, upper);
        EngineV {
            comp: if mode.has(MODE_IN_REVERSE_ORDER) {
                seq![t] + e.comp
            } else {
                e.comp.push(t)
            },
            next: e.next + 1,
            ..e
        }
    } else {
        let g = new_comp_spec(e.next, e.comp, e.im, e.flags, lower, upper);
        EngineV { comp: g.0, next: e.next + g.1, ..e }
    }
}

/// The engine after the keystrokes of `keys`, in order.
pub open spec fn keys_spec(e: EngineV, keys: Seq<char>, mode: Mode) -> EngineV
    decreases keys.len(),
{
    if keys.len() == 0 {
        e
    } else {
        key_spec(keys_spec(e, keys.drop_last(), mode), keys.last(), mode)
    }
}

pub proof fn lemma_keys_monotone(e: EngineV, keys: Seq<char>, mode: Mode, i: int)
    requires
        0 <= i <= keys.len(),
    ensures
        e.next <= keys_spec(e, keys.subrange(0, i), mode).next <= keys_spec(e, keys, mode).next,
    decreases keys.len() - i,
{
    if i < keys.len() {
        reveal(key_spec);
        lemma_keys_monotone(e, keys, mode, i + 1);
        assert(keys.subrange(0, i + 1).drop_last() =~= keys.subrange(0, i));
    } else {
        assert(keys.subrange(0, i) =~= keys);
    }
    lemma_keys_grow(e, keys.subrange(0, i), mode);
}

proof fn lemma_keys_grow(e: EngineV, keys: Seq<char>, mode: Mode)
    ensures
        e.next <= keys_spec(e, keys, mode).next,
    decreases keys.len(),
{
    if keys.len() > 0 {
        lemma_keys_grow(e, keys.drop_last(), mode);
        reveal(key_spec);
    }
}

/// The text the engine shows under `mode`: the whole composition, the last
/// space-separated word, or the last word.
pub open spec fn processed_spec(e: EngineV, mode: Mode) -> Seq<char> {
    if mode.has(MODE_FULL_TEXT) {
        flatten_spec(e.comp, mode)
    } else if mode.has(MODE_PUNCTUATION) {
        flatten_spec(e.comp.subrange(last_word_space_spec(e.comp), e.comp.len() as int), Mode::VIETNAMESE)
    } else {
        flatten_spec(e.comp.subrange(last_word_spec(e.comp, e.im.keys), e.comp.len() as int), mode)
    }
}

/// The last word of the composition.
pub open spec fn last_word_of(e: EngineV) -> Seq<TransV> {
    e.comp.subrange(last_word_spec(e.comp, e.im.keys), e.comp.len() as int)
}

/// Replaying the keys of `keys` through the composer from an empty
/// composition, with ids from `n`: the composition and the next id.
pub open spec fn replay_spec(n: nat, keys: Seq<TransV>, im: InputMethodV, flags: EngineFlags) -> (
    Seq<TransV>,
    nat,
)
    decreases keys.len(),
{
    if keys.len() == 0 {
        (Seq::empty(), n)
    } else {
        let p = replay_spec(n, keys.drop_last(), im, flags);
        let g = new_comp_spec(p.1, p.0, im, flags, keys.last().rule.key, keys.last().is_upper_case);
        (g.0, p.1 + g.1)
    }
}

pub proof fn lemma_replay_monotone(n: nat, keys: Seq<TransV>, im: InputMethodV, flags: EngineFlags, i: int)
    requires
        0 <= i <= keys.len(),
    ensures
        n <= replay_spec(n, keys.subrange(0, i), im, flags).1 <= replay_spec(n, keys, im, flags).1,
    decreases keys.len() - i,
{
    if i < keys.len() {
        lemma_replay_monotone(n, keys, im, flags, i + 1);
        assert(keys.subrange(0, i + 1).drop_last() =~= keys.subrange(0, i));
    } else {
        assert(keys.subrange(0, i) =~= keys);
    }
    lemma_replay_grow(n, keys.subrange(0, i), im, flags);
}

proof fn lemma_replay_grow(n: nat, keys: Seq<TransV>, im: InputMethodV, flags: EngineFlags)
    ensures
        n <= replay_spec(n, keys, im, flags).1,
    decreases keys.len(),
{
    if keys.len() > 0 {
        lemma_replay_grow(n, keys.drop_last(), im, flags);
    }
}

/// The engine after restoring its last word: replayed through the composer
/// (`to_vietnamese`) or broken back into its raw keys.
#[verifier::opaque]
pub open spec fn restore_spec(e: EngineV, to_vietnamese: bool) -> EngineV {
    let split = last_word_spec(e.comp, e.im.keys);
    let last = e.comp.subrange(split, e.comp.len() as int);
    if last.len() == 0 {
        e
    } else if to_vietnamese {
        let r = replay_spec(e.next, last, e.im, e.flags);
        EngineV { comp: e.comp.subrange(0, split) + r.0, next: r.1, ..e }
    } else {
        let b = break_spec(e.next, last);
        EngineV { comp: e.comp.subrange(0, split) + b, next: e.next + b.len(), ..e }
    }
}

/// Whether a transformation survives removing the character with id `id`:
/// it is neither that character nor an effect on it.
pub open spec fn survives(t: TransV, id: TransId) -> bool {
    t.target != Some(id) && t.id != id
}

/// The transformations of `s` that survive removing the character `id`.
pub open spec fn kept_spec(s: Seq<TransV>, id: TransId) -> Seq<TransV> {
    s.filter(|t: TransV| survives(t, id))
}

/// The engine after removing the last appended character. If its key is not
/// one the input method processes, the last transformation is dropped;
/// otherwise the character and every effect on it leave the last word, and
/// (with `refresh`) the tone is refreshed.
#[verifier::opaque]
pub open spec fn remove_spec(e: EngineV, refresh: bool) -> EngineV {
    match last_appending_spec(e.comp) {
        None => e,
        Some(last_id) => match by_id_spec(e.comp, last_id) {
            None => e,
            Some(k) => if !can_process(e.comp[k].rule.key, e.im.keys) {
                EngineV { comp: e.comp.drop_last(), ..e }
            } else {
                let split = last_word_spec(e.comp, e.im.keys);
                let kept = kept_spec(e.comp.subrange(split, e.comp.len() as int), last_id);
                if refresh {
                    let rf = refresh_tone_spec(e.next, kept, e.flags);
                    EngineV {
                        comp: e.comp.subrange(0, split) + retarget_spec(kept + rf.0, rf.1),
                        next: e.next + rf.0.len(),
                        ..e
                    }
                } else {
                    EngineV { comp: e.comp.subrange(0, split) + kept, ..e }
                }
            },
        },
    }
}

proof fn lemma_last_appending_found(c: Seq<TransV>)
    ensures
        last_appending_spec(c) matches Some(id) ==> by_id_spec(c, id) is Some,
    decreases c.len(),
{
    if c.len() > 0 {
        lemma_last_appending_found(c.drop_last());
    }
}

impl BambooEngine {
    /// Every engine is well formed: its composition and its input method's
    /// rules are.
    #[verifier::type_invariant]
    pub(crate) open spec fn well_formed(self) -> bool {
        engine_wf(self@)
    }

    pub fn new(input_method: InputMethod, flags: EngineFlags) -> (r: Self)
        requires
            rules_wf(input_method@.rules),
        ensures
            r@ == (EngineV { im: input_method@, flags, comp: Seq::empty(), next: 0 }),
            engine_wf(r@),
    {
        let r = BambooEngine { composition: Vec::new(), input_method, flags, ids: IdGen::new() };
        assert(cv(r.composition@) =~= Seq::<TransV>::empty());
        r
    }

    /// How many transformation ids the engine has handed out.
    pub fn ids_handed_out(&self) -> (r: u32)
        ensures
            r == self@.next,
    {
        self.ids.next
    }

    pub fn input_method(&self) -> (r: &InputMethod)
        ensures
            r@ == self@.im,
    {
        &self.input_method
    }

    pub fn set_flags(&mut self, flags: EngineFlags)
        ensures
            final(self)@ == (EngineV { flags, ..old(self)@ }),
    {
        proof {
            use_type_invariant(&*self);
        }
        self.flags = flags;
    }

    pub fn flags(&self) -> (r: EngineFlags)
        ensures
            r == self@.flags,
    {
        self.flags
    }

    /// Whether the last word is a valid (optionally fully complete) syllable.
    pub fn is_valid(&self, input_is_full_complete: bool) -> (r: bool)
        ensures
            r == is_valid_spec(last_word_of(self@), input_is_full_complete),
    {
        proof {
            use_type_invariant(&*self);
        }
        let ghost c = cv(self.composition@);
        let split = extract_last_word(self.composition.as_slice(), self.input_method.keys.as_slice());
        let n = self.composition.len();
        let last = vstd::slice::slice_subrange(self.composition.as_slice(), split, n);
        proof {
            lemma_cv_subrange(self.composition@, split as int, n as int);
            lemma_wf_subrange(c, split as int, n as int);
        }
        is_valid(last, input_is_full_complete)
    }

    /// The composed text under `mode` (last word, last space-separated word,
    /// or full text).
    pub fn processed_string(&self, mode: Mode) -> (r: String)
        ensures
            r@ == processed_spec(self@, mode),
    {
        proof {
            use_type_invariant(&*self);
        }
        let ghost c = cv(self.composition@);
        let n = self.composition.len();
        if mode.has_flag(MODE_FULL_TEXT) {
            let v = flatten(self.composition.as_slice(), mode);
            return string_from_chars(v.as_slice());
        }
        if mode.has_flag(MODE_PUNCTUATION) {
            let split = extract_last_word_with_punctuation_marks(self.composition.as_slice());
            let last = vstd::slice::slice_subrange(self.composition.as_slice(), split, n);
            proof {
                lemma_cv_subrange(self.composition@, split as int, n as int);
                lemma_wf_subrange(c, split as int, n as int);
            }
            let v = flatten(last, Mode::VIETNAMESE);
            return string_from_chars(v.as_slice());
        }
        let split = extract_last_word(self.composition.as_slice(), self.input_method.keys.as_slice());
        let last = vstd::slice::slice_subrange(self.composition.as_slice(), split, n);
        proof {
            lemma_cv_subrange(self.composition@, split as int, n as int);
            lemma_wf_subrange(c, split as int, n as int);
        }
        let v = flatten(last, mode);
        string_from_chars(v.as_slice())
    }

    pub fn can_process_key(&self, key: char) -> (r: bool)
        ensures
            r == can_process(key, self@.im.keys),
    {
        can_process_key(key, self.input_method.keys.as_slice())
    }

    pub fn reset(&mut self)
        ensures
            final(self)@ == (EngineV { comp: Seq::empty(), ..old(self)@ }),
    {
        proof {
            use_type_invariant(&*self);
        }
        self.composition = Vec::new();
        assert(cv(self.composition@) =~= Seq::<TransV>::empty());
    }

    pub fn process_key(&mut self, key: char, mode: Mode)
        requires
            key_spec(old(self)@, key, mode).next <= TEMP_ID,
        ensures
            final(self)@ == key_spec(old(self)@, key, mode),
            engine_wf(final(self)@),
    {
        proof {
            use_type_invariant(&*self);
        }
        let ghost e = self@;
        proof {
            reveal(key_spec);
        }
        let lower = lower_char(key);
        let is_upper = is_uppercase(key);
        if mode.has_flag(MODE_ENGLISH) || !self.can_process_key(lower) {
            let mut ids = IdGen { next: self.ids.next };
            let trans = new_appending_trans(&mut ids, lower, is_upper);
            self.ids = ids;
            let mut comp: Vec<Transformation> = Vec::new();
            std::mem::swap(&mut comp, &mut self.composition);
            let ghost before = comp@;
            if mode.has_flag(MODE_IN_REVERSE_ORDER) {
                comp.insert(0, trans);
                assert(cv(comp@) =~= seq![trans@] + cv(before));
            } else {
                comp.push(trans);
                assert(cv(comp@) =~= cv(before).push(trans@));
            }
            assert(comp_wf(cv(comp@))) by {
                assert forall|k: int| 0 <= k < cv(comp@).len() implies trans_wf(#[trigger] cv(comp@)[k]) by {
                    if mode.has(MODE_IN_REVERSE_ORDER) {
                        if k > 0 {
                            assert(cv(comp@)[k] == cv(before)[k - 1]);
                        }
                    } else {
                        if k < before.len() {
                            assert(cv(comp@)[k] == cv(before)[k]);
                        }
                    }
                }
            }
            self.composition = comp;
            assert(self@ =~= key_spec(e, key, mode));
            return;
        }
        let mut comp: Vec<Transformation> = Vec::new();
        std::mem::swap(&mut comp, &mut self.composition);
        let mut ids = IdGen { next: self.ids.next };
        let rebuilt = new_composition(&mut ids, &self.input_method, self.flags, comp, lower, is_upper);
        self.ids = ids;
        self.composition = rebuilt;
        assert(self@ =~= key_spec(e, key, mode));
    }

    pub fn process_string(&mut self, input: &str, mode: Mode)
        requires
            keys_spec(old(self)@, input@, mode).next <= TEMP_ID,
        ensures
            final(self)@ == keys_spec(old(self)@, input@, mode),
            engine_wf(final(self)@),
    {
        proof {
            use_type_invariant(&*self);
        }
        let keys = chars_of(input);
        let ghost e0 = self@;
        let mut i: usize = 0;
        assert(keys@.subrange(0, 0) =~= Seq::<char>::empty());
        while i < keys.len()
            invariant
                i <= keys@.len(),
                keys@ == input@,
                self@ == keys_spec(e0, keys@.subrange(0, i as int), mode),
                engine_wf(self@),
                keys_spec(e0, keys@, mode).next <= TEMP_ID,
            decreases keys@.len() - i,
        {
            proof {
                lemma_keys_monotone(e0, keys@, mode, i + 1);
                assert(keys@.subrange(0, i + 1).drop_last() =~= keys@.subrange(0, i as int));
                assert(keys@.subrange(0, i + 1).last() == keys@[i as int]);
            }
            self.process_key(keys[i], mode);
            i += 1;
        }
        assert(keys@.subrange(0, keys@.len() as int) =~= keys@);
    }

    /// Restore the last word either to its raw keystrokes or by replaying them
    /// through the Vietnamese composer.
    pub fn restore_last_word(&mut self, to_vietnamese: bool)
        requires
            restore_spec(old(self)@, to_vietnamese).next <= TEMP_ID,
        ensures
            final(self)@ == restore_spec(old(self)@, to_vietnamese),
            engine_wf(final(self)@),
    {
        proof {
            use_type_invariant(&*self);
        }
        let ghost e = self@;
        let ghost c = cv(self.composition@);
        proof {
            reveal(restore_spec);
        }
        let split = extract_last_word(self.composition.as_slice(), self.input_method.keys.as_slice());
        let n = self.composition.len();
        if split == n {
            assert(c.subrange(split as int, n as int).len() == 0);
            return;
        }
        proof {
            lemma_cv_subrange(self.composition@, split as int, n as int);
            lemma_cv_subrange(self.composition@, 0, split as int);
            lemma_wf_subrange(c, split as int, n as int);
            lemma_wf_subrange(c, 0, split as int);
        }
        let ghost last = c.subrange(split as int, n as int);
        let mut result = clone_range(self.composition.as_slice(), 0, split);
        if to_vietnamese {
            let ghost n0 = self.ids.next as nat;
            let ghost comp0 = self.composition@;
            let mut ids = IdGen { next: self.ids.next };
            let mut rebuilt: Vec<Transformation> = Vec::new();
            assert(cv(rebuilt@) =~= Seq::<TransV>::empty());
            let mut i = split;
            assert(last.subrange(0, 0) =~= Seq::<TransV>::empty());
            while i < n
                invariant
                    split <= i <= n == comp0.len(),
                    self.composition@ == comp0,
                    c == cv(comp0),
                    last == c.subrange(split as int, n as int),
                    self.input_method@ == e.im,
                    self.flags == e.flags,
                    rules_wf(e.im.rules),
                    n0 == e.next,
                    replay_spec(n0, last, e.im, e.flags).1 <= TEMP_ID,
                    cv(rebuilt@) == replay_spec(n0, last.subrange(0, i - split), e.im, e.flags).0,
                    ids.next == replay_spec(n0, last.subrange(0, i - split), e.im, e.flags).1,
                    comp_wf(cv(rebuilt@)),
                decreases n - i,
            {
                proof {
                    lemma_replay_monotone(n0, last, e.im, e.flags, i - split + 1);
                    assert(last.subrange(0, i - split + 1).drop_last() =~= last.subrange(0, i - split));
                    assert(last.subrange(0, i - split + 1).last() == c[i as int]);
                }
                let key = self.composition[i].rule.key;
                let upper = self.composition[i].is_upper_case;
                rebuilt = new_composition(&mut ids, &self.input_method, self.flags, rebuilt, key, upper);
                i += 1;
            }
            self.ids = ids;
            assert(last.subrange(0, n - split) =~= last);
            proof {
                lemma_wf_add(cv(result@), cv(rebuilt@));
            }
            extend_moved(&mut result, rebuilt);
        } else {
            let last_word = vstd::slice::slice_subrange(self.composition.as_slice(), split, n);
            let mut ids = IdGen { next: self.ids.next };
            let b = break_composition(&mut ids, last_word);
            self.ids = ids;
            proof {
                lemma_wf_add(cv(result@), cv(b@));
            }
            extend_moved(&mut result, b);
        }
        self.composition = result;
        assert(self@ =~= restore_spec(e, to_vietnamese));
    }

    /// Remove the last appended character and the effects attached to it.
    pub fn remove_last_char(&mut self, refresh: bool)
        requires
            remove_spec(old(self)@, refresh).next <= TEMP_ID,
        ensures
            final(self)@ == remove_spec(old(self)@, refresh),
            engine_wf(final(self)@),
    {
        proof {
            use_type_invariant(&*self);
        }
        let ghost e = self@;
        let ghost c = cv(self.composition@);
        proof {
            reveal(remove_spec);
            lemma_last_appending_found(c);
        }
        let last_id = match find_last_appending_trans(self.composition.as_slice()) {
            Some(id) => id,
            None => {
                return;
            },
        };
        proof {
            lemma_by_id(c, last_id);
        }
        let k = match by_id(self.composition.as_slice(), last_id) {
            Some(k) => k,
            None => {
                return;
            },
        };
        let last_key = self.composition[k].rule.key;
        if !self.can_process_key(last_key) {
            let mut comp: Vec<Transformation> = Vec::new();
            std::mem::swap(&mut comp, &mut self.composition);
            let _ = comp.pop();
            assert(cv(comp@) =~= c.drop_last());
            assert(comp_wf(c.drop_last())) by {
                assert forall|j: int| 0 <= j < c.drop_last().len() implies trans_wf(#[trigger] c.drop_last()[j]) by {
                    assert(c.drop_last()[j] == c[j]);
                }
            }
            self.composition = comp;
            assert(self@ =~= remove_spec(e, refresh));
            return;
        }
        let split = extract_last_word(self.composition.as_slice(), self.input_method.keys.as_slice());
        let n = self.composition.len();
        proof {
            lemma_cv_subrange(self.composition@, 0, split as int);
            lemma_wf_subrange(c, 0, split as int);
        }
        let mut new_comb: Vec<Transformation> = Vec::new();
        let mut i = split;
        assert(kept_spec(c.subrange(split as int, split as int), last_id) =~= Seq::<TransV>::empty()) by {
            reveal_with_fuel(Seq::filter, 1);
        }
        assert(cv(new_comb@) =~= Seq::<TransV>::empty());
        while i < n
            invariant
                split <= i <= n == self.composition@.len(),
                c == cv(self.composition@),
                comp_wf(c),
                cv(new_comb@) == kept_spec(c.subrange(split as int, i as int), last_id),
                comp_wf(cv(new_comb@)),
            decreases n - i,
        {
            let keep = match self.composition[i].target {
                Some(t) => t != last_id,
                None => true,
            } && self.composition[i].id != last_id;
            proof {
                reveal_with_fuel(Seq::filter, 1);
                assert(c.subrange(split as int, i + 1).drop_last() =~= c.subrange(split as int, i as int));
                assert(c.subrange(split as int, i + 1).last() == c[i as int]);
            }
            if keep {
                let t = self.composition[i].clone();
                proof {
                    lemma_cv_push(new_comb@, t);
                    lemma_wf_add(cv(new_comb@), seq![t@]);
                    assert(cv(new_comb@).push(t@) =~= cv(new_comb@) + seq![t@]);
                }
                new_comb.push(t);
            }
            i += 1;
        }
        let mut result = clone_range(self.composition.as_slice(), 0, split);
        if refresh {
            let ghost kept = cv(new_comb@);
            let mut ids = IdGen { next: self.ids.next };
            let (extra, retarget) = refresh_tone(&mut ids, self.flags, new_comb.as_slice());
            self.ids = ids;
            proof {
                lemma_wf_add(kept, cv(extra@));
            }
            extend_moved(&mut new_comb, extra);
            proof {
                lemma_wf_retarget(cv(new_comb@), retarget);
            }
            apply_retarget(&mut new_comb, retarget);
        }
        proof {
            lemma_wf_add(cv(result@), cv(new_comb@));
        }
        extend_moved(&mut result, new_comb);
        self.composition = result;
        assert(self@ =~= remove_spec(e, refresh));
    }
}

/// In English mode (not reversed) a keystroke appends its lowercased key as
/// a plain character, remembering whether it was typed in upper case.
pub proof fn law_english_key_appends_raw(e: EngineV, key: char, mode: Mode)
    requires
        mode.has(MODE_ENGLISH),
        !mode.has(MODE_IN_REVERSE_ORDER),
    ensures
        key_spec(e, key, mode).comp == e.comp.push(appending_spec(e.next as TransId, to_lower(key), is_uppercase_char(key))),
        key_spec(e, key, mode).next == e.next + 1,
        key_spec(e, key, mode).im == e.im,
{
    reveal(key_spec);
}

/// The raw keystrokes of a word: the key of every transformation that has
/// one (virtual transformations carry none).
pub open spec fn raw_keys(c: Seq<TransV>) -> Seq<char>
    decreases c.len(),
{
    if c.len() == 0 {
        Seq::empty()
    } else if c.last().rule.key != '\0' {
        raw_keys(c.drop_last()).push(c.last().rule.key)
    } else {
        raw_keys(c.drop_last())
    }
}

/// Whether every transformation of `c` is a plain character with no target.
pub open spec fn all_plain(c: Seq<TransV>) -> bool {
    forall|k: int|
        0 <= k < c.len() ==> (#[trigger] c[k]).target is None && c[k].rule.effect_type
            == crate::rules::EffectType::Appending && c[k].rule.result == c[k].rule.key
}

proof fn lemma_break_is_raw(n: nat, c: Seq<TransV>)
    ensures
        all_plain(break_spec(n, c)),
        break_spec(n, c).map_values(|t: TransV| t.rule.key) == raw_keys(c),
    decreases c.len(),
{
    if c.len() > 0 {
        lemma_break_is_raw(n, c.drop_last());
        let p = break_spec(n, c.drop_last());
        if c.last().rule.key != '\0' {
            let t = appending_spec(crate::generate::id_at(n, p.len()), c.last().rule.key, c.last().is_upper_case);
            assert forall|k: int| 0 <= k < p.push(t).len() implies (#[trigger] p.push(t)[k]).target is None
                && p.push(t)[k].rule.effect_type == crate::rules::EffectType::Appending && p.push(t)[k].rule.result
                == p.push(t)[k].rule.key by {
                if k < p.len() {
                    assert(p.push(t)[k] == p[k]);
                }
            }
            assert(p.push(t).map_values(|t: TransV| t.rule.key) =~= p.map_values(|t: TransV| t.rule.key).push(
                c.last().rule.key,
            ));
        }
    } else {
        assert(break_spec(n, c).map_values(|t: TransV| t.rule.key) =~= Seq::<char>::empty());
    }
}

/// Restoring the last word to its keystrokes keeps everything before it and
/// replaces it with its raw keys, each a plain character.
pub proof fn law_restore_gives_raw_keys(e: EngineV)
    ensures
        ({
            let split = last_word_spec(e.comp, e.im.keys);
            let r = restore_spec(e, false).comp;
            &&& r.subrange(0, split) == e.comp.subrange(0, split)
            &&& all_plain(r.subrange(split, r.len() as int))
            &&& r.subrange(split, r.len() as int).map_values(|t: TransV| t.rule.key) == raw_keys(
                e.comp.subrange(split, e.comp.len() as int),
            )
        }),
{
    reveal(restore_spec);
    let split = last_word_spec(e.comp, e.im.keys);
    crate::target::lemma_last_word_bounds(e.comp, e.im.keys, e.comp.len() as int);
    let last = e.comp.subrange(split, e.comp.len() as int);
    let r = restore_spec(e, false).comp;
    if last.len() == 0 {
        assert(r.subrange(split, r.len() as int) =~= Seq::<TransV>::empty());
        assert(r.subrange(split, r.len() as int).map_values(|t: TransV| t.rule.key) =~= Seq::<char>::empty());
    } else {
        let b = break_spec(e.next, last);
        lemma_break_is_raw(e.next, last);
        assert(r.subrange(0, split) =~= e.comp.subrange(0, split));
        assert(r.subrange(split, r.len() as int) =~= b);
    }
}

/// The plain characters an English-mode string appends, with ids from `n`.
pub open spec fn english_appends(n: nat, keys: Seq<char>) -> Seq<TransV> {
    Seq::new(keys.len(), |i: int| appending_spec((n + i) as TransId, to_lower(keys[i]), is_uppercase_char(keys[i])))
}

/// The character a plain keystroke `c` shows: its lowercase form, put back
/// in upper case when it was typed in upper case.
pub open spec fn typed_case(c: char) -> char {
    if is_uppercase_char(c) {
        crate::text::to_upper(to_lower(c))
    } else {
        to_lower(c)
    }
}

proof fn lemma_english_keys(e: EngineV, keys: Seq<char>, mode: Mode)
    requires
        mode.has(MODE_ENGLISH),
        !mode.has(MODE_IN_REVERSE_ORDER),
    ensures
        keys_spec(e, keys, mode).comp == e.comp + english_appends(e.next, keys),
        keys_spec(e, keys, mode).next == e.next + keys.len(),
    decreases keys.len(),
{
    if keys.len() == 0 {
        assert(e.comp + english_appends(e.next, keys) =~= e.comp);
    } else {
        let init = keys.drop_last();
        lemma_english_keys(e, init, mode);
        let e1 = keys_spec(e, init, mode);
        law_english_key_appends_raw(e1, keys.last(), mode);
        assert(english_appends(e.next, keys) =~= english_appends(e.next, init).push(
            appending_spec(e1.next as TransId, to_lower(keys.last()), is_uppercase_char(keys.last())),
        ));
        assert(e.comp + english_appends(e.next, keys) =~= (e.comp + english_appends(e.next, init)).push(
            appending_spec(e1.next as TransId, to_lower(keys.last()), is_uppercase_char(keys.last())),
        ));
    }
}

proof fn lemma_fold_plain(c: char, app: TransV, effs: Seq<TransV>)
    requires
        forall|k: int| 0 <= k < effs.len() ==> (#[trigger] effs[k]).rule.effect_type == crate::rules::EffectType::Appending,
    ensures
        crate::flatten::fold_effects(c, app, effs) == c,
    decreases effs.len(),
{
    if effs.len() > 0 {
        lemma_fold_plain(c, app, effs.drop_last());
        assert(effs.last() == effs[effs.len() - 1]);
    }
}

proof fn lemma_flat_english(n: nat, keys: Seq<char>, effs: Seq<TransV>)
    requires
        forall|k: int| 0 <= k < effs.len() ==> (#[trigger] effs[k]).rule.effect_type == crate::rules::EffectType::Appending,
        forall|k: int| 0 <= k < keys.len() ==> to_lower(#[trigger] keys[k]) != '\0',
    ensures
        crate::flatten::flat(english_appends(n, keys), effs, Mode::FULL_TEXT) == keys.map_values(|c: char| typed_case(c)),
    decreases keys.len(),
{
    let items = english_appends(n, keys);
    if keys.len() == 0 {
        assert(keys.map_values(|c: char| typed_case(c)) =~= Seq::<char>::empty());
    } else {
        let init = keys.drop_last();
        assert forall|k: int| 0 <= k < init.len() implies to_lower(#[trigger] init[k]) != '\0' by {
            assert(init[k] == keys[k]);
        }
        lemma_flat_english(n, init, effs);
        assert(items.drop_last() =~= english_appends(n, init));
        let app = items.last();
        assert(to_lower(keys[keys.len() - 1]) != '\0');
        lemma_fold_plain(app.rule.effect_on, app, effs);
        assert(Mode::FULL_TEXT.spec_bits() == 32u32);
        assert(!has_bits(32u32, MODE_ENGLISH)) by (bit_vector);
        assert(!has_bits(32u32, MODE_TONELESS)) by (bit_vector);
        assert(!has_bits(32u32, MODE_MARKLESS)) by (bit_vector);
        assert(!has_bits(32u32, MODE_LOWERCASE)) by (bit_vector);
        assert(keys.map_values(|c: char| typed_case(c)) =~= init.map_values(|c: char| typed_case(c)).push(
            typed_case(keys.last()),
        ));
    }
}

/// English mode passes typed text through: each keystroke of a string
/// appends its own plain character, so on an empty composition the full
/// text shows the typed string, each character taken to its lowercase form
/// and back to upper case when typed in upper case.
pub proof fn law_english_mode_passes_through(e: EngineV, keys: Seq<char>, mode: Mode)
    requires
        e.comp.len() == 0,
        mode.has(MODE_ENGLISH),
        !mode.has(MODE_IN_REVERSE_ORDER),
        forall|k: int| 0 <= k < keys.len() ==> to_lower(#[trigger] keys[k]) != '\0',
    ensures
        keys_spec(e, keys, mode).comp == english_appends(e.next, keys),
        processed_spec(keys_spec(e, keys, mode), Mode::FULL_TEXT) == keys.map_values(|c: char| typed_case(c)),
{
    lemma_english_keys(e, keys, mode);
    let c = english_appends(e.next, keys);
    assert(e.comp + c =~= c);
    assert(Mode::FULL_TEXT.spec_bits() == 32u32);
    assert(has_bits(32u32, MODE_FULL_TEXT)) by (bit_vector);
    lemma_flat_english(e.next, keys, c);
}

/// Processing a string is processing its first part and then the rest: the
/// engine after `a` followed by `b` is the engine after `a`, then `b`, so
/// every processed text and every validity answer agree.
pub proof fn law_process_string_concat(e: EngineV, a: Seq<char>, b: Seq<char>, mode: Mode)
    ensures
        keys_spec(e, a + b, mode) == keys_spec(keys_spec(e, a, mode), b, mode),
        forall|m: Mode|
            #![trigger processed_spec(keys_spec(e, a + b, mode), m)]
            processed_spec(keys_spec(e, a + b, mode), m) == processed_spec(keys_spec(keys_spec(e, a, mode), b, mode), m),
        forall|full: bool|
            #![trigger is_valid_spec(last_word_of(keys_spec(e, a + b, mode)), full)]
            is_valid_spec(last_word_of(keys_spec(e, a + b, mode)), full) == is_valid_spec(
                last_word_of(keys_spec(keys_spec(e, a, mode), b, mode)),
                full,
            ),
    decreases b.len(),
{
    if b.len() == 0 {
        assert(a + b =~= a);
    } else {
        law_process_string_concat(e, a, b.drop_last(), mode);
        assert((a + b).drop_last() =~= a + b.drop_last());
        assert((a + b).last() == b.last());
    }
}

/// A last word accepted as a full, complete syllable is also accepted as a
/// partial one.
pub proof fn law_full_valid_implies_partial(e: EngineV)
    requires
        is_valid_spec(last_word_of(e), true),
    ensures
        is_valid_spec(last_word_of(e), false),
{
    crate::target::lemma_valid_full_implies_partial(last_word_of(e));
}

proof fn lemma_english_flat_effects(items: Seq<TransV>, e1: Seq<TransV>, e2: Seq<TransV>, m: Mode)
    requires
        m.has(MODE_ENGLISH),
    ensures
        crate::flatten::flat(items, e1, m) == crate::flatten::flat(items, e2, m),
    decreases items.len(),
{
    if items.len() > 0 {
        lemma_english_flat_effects(items.drop_last(), e1, e2, m);
    }
}

proof fn lemma_flat_concat(p: Seq<TransV>, w: Seq<TransV>, effs: Seq<TransV>, m: Mode)
    ensures
        crate::flatten::flat(p + w, effs, m) == crate::flatten::flat(p, effs, m) + crate::flatten::flat(w, effs, m),
    decreases w.len(),
{
    if w.len() == 0 {
        assert(p + w =~= p);
        assert(crate::flatten::flat(p, effs, m) + crate::flatten::flat(w, effs, m) =~= crate::flatten::flat(p, effs, m));
    } else {
        lemma_flat_concat(p, w.drop_last(), effs, m);
        assert((p + w).drop_last() =~= p + w.drop_last());
        assert((p + w).last() == w.last());
        let a = crate::flatten::flat(p, effs, m);
        let b = crate::flatten::flat(w.drop_last(), effs, m);
        if crate::flatten::emitted(w.last(), m.has(MODE_ENGLISH)) {
            assert((a + b).push(crate::flatten::resolve(effs, w.last(), m)) =~= a + b.push(
                crate::flatten::resolve(effs, w.last(), m),
            ));
        }
    }
}

proof fn lemma_flat_break(n: nat, w: Seq<TransV>, e1: Seq<TransV>, e2: Seq<TransV>, m: Mode)
    requires
        m.has(MODE_ENGLISH),
    ensures
        crate::flatten::flat(break_spec(n, w), e1, m) == crate::flatten::flat(w, e2, m),
    decreases w.len(),
{
    if w.len() > 0 {
        lemma_flat_break(n, w.drop_last(), e1, e2, m);
        let p = break_spec(n, w.drop_last());
        if w.last().rule.key != '\0' {
            let t = appending_spec(crate::generate::id_at(n, p.len()), w.last().rule.key, w.last().is_upper_case);
            assert(p.push(t).drop_last() =~= p);
            assert(p.push(t).last() == t);
        }
    }
}

/// Restoring the last word to its keystrokes loses and adds no keystroke:
/// the full text in English mode (the raw keystrokes) is unchanged.
pub proof fn law_restore_keeps_raw_text(e: EngineV, m: Mode)
    requires
        m.has(MODE_FULL_TEXT),
        m.has(MODE_ENGLISH),
    ensures
        processed_spec(restore_spec(e, false), m) == processed_spec(e, m),
{
    reveal(restore_spec);
    let split = last_word_spec(e.comp, e.im.keys);
    crate::target::lemma_last_word_bounds(e.comp, e.im.keys, e.comp.len() as int);
    let prefix = e.comp.subrange(0, split);
    let last = e.comp.subrange(split, e.comp.len() as int);
    if last.len() > 0 {
        let b = break_spec(e.next, last);
        let c2 = prefix + b;
        assert(restore_spec(e, false).comp == c2);
        assert(e.comp =~= prefix + last);
        lemma_flat_concat(prefix, b, c2, m);
        lemma_flat_concat(prefix, last, e.comp, m);
        lemma_english_flat_effects(prefix, c2, e.comp, m);
        lemma_flat_break(e.next, last, c2, e.comp, m);
    }
}

proof fn lemma_break_keyed(n: nat, c: Seq<TransV>)
    ensures
        forall|k: int|
            0 <= k < break_spec(n, c).len() ==> {
                let t = #[trigger] break_spec(n, c)[k];
                &&& t.rule.effect_type == crate::rules::EffectType::Appending
                &&& t.rule.effect_on == t.rule.key
                &&& t.rule.key != '\0'
            },
    decreases c.len(),
{
    if c.len() > 0 {
        lemma_break_keyed(n, c.drop_last());
        let p = break_spec(n, c.drop_last());
        if c.last().rule.key != '\0' {
            let t = appending_spec(crate::generate::id_at(n, p.len()), c.last().rule.key, c.last().is_upper_case);
            assert forall|k: int| 0 <= k < p.push(t).len() implies {
                let u = #[trigger] p.push(t)[k];
                &&& u.rule.effect_type == crate::rules::EffectType::Appending
                &&& u.rule.effect_on == u.rule.key
                &&& u.rule.key != '\0'
            } by {
                if k < p.len() {
                    assert(p.push(t)[k] == p[k]);
                }
            }
        }
    }
}

proof fn lemma_flat_keyed_both_modes(items: Seq<TransV>, effs: Seq<TransV>)
    requires
        forall|k: int|
            0 <= k < items.len() ==> {
                let t = #[trigger] items[k];
                &&& t.rule.effect_type == crate::rules::EffectType::Appending
                &&& t.rule.effect_on == t.rule.key
                &&& t.rule.key != '\0'
            },
        forall|k: int| 0 <= k < effs.len() ==> (#[trigger] effs[k]).rule.effect_type == crate::rules::EffectType::Appending,
    ensures
        crate::flatten::flat(items, effs, Mode::VIETNAMESE) == crate::flatten::flat(items, effs, Mode::ENGLISH),
    decreases items.len(),
{
    if items.len() > 0 {
        let init = items.drop_last();
        assert forall|k: int| 0 <= k < init.len() implies {
            let t = #[trigger] init[k];
            &&& t.rule.effect_type == crate::rules::EffectType::Appending
            &&& t.rule.effect_on == t.rule.key
            &&& t.rule.key != '\0'
        } by {
            assert(init[k] == items[k]);
        }
        lemma_flat_keyed_both_modes(init, effs);
        let app = items.last();
        assert(app == items[items.len() - 1]);
        lemma_fold_plain(app.rule.effect_on, app, effs);
        assert(Mode::VIETNAMESE.spec_bits() == 1u32);
        assert(Mode::ENGLISH.spec_bits() == 2u32);
        assert(has_bits(2u32, MODE_ENGLISH)) by (bit_vector);
        assert(!has_bits(1u32, MODE_ENGLISH)) by (bit_vector);
        assert(!has_bits(1u32, MODE_TONELESS) && !has_bits(2u32, MODE_TONELESS)) by (bit_vector);
        assert(!has_bits(1u32, MODE_MARKLESS) && !has_bits(2u32, MODE_MARKLESS)) by (bit_vector);
        assert(!has_bits(1u32, MODE_LOWERCASE) && !has_bits(2u32, MODE_LOWERCASE)) by (bit_vector);
    }
}

/// After restoring the last word to its keystrokes, the restored word shows
/// its raw keys: its Vietnamese text is its English (raw-keystroke) text.
pub proof fn law_restored_word_shows_raw_keys(e: EngineV)
    ensures
        ({
            let split = last_word_spec(e.comp, e.im.keys);
            let r = restore_spec(e, false).comp;
            let tail = r.subrange(split, r.len() as int);
            flatten_spec(tail, Mode::VIETNAMESE) == flatten_spec(tail, Mode::ENGLISH)
        }),
{
    reveal(restore_spec);
    let split = last_word_spec(e.comp, e.im.keys);
    crate::target::lemma_last_word_bounds(e.comp, e.im.keys, e.comp.len() as int);
    let last = e.comp.subrange(split, e.comp.len() as int);
    let r = restore_spec(e, false).comp;
    let tail = r.subrange(split, r.len() as int);
    if last.len() == 0 {
        assert(tail =~= Seq::<TransV>::empty());
    } else {
        let b = break_spec(e.next, last);
        assert(tail =~= b);
        lemma_break_keyed(e.next, last);
        lemma_flat_keyed_both_modes(b, b);
    }
}

/// After `reset` the engine is a new engine for the same input method and
/// flags (only the id counter goes on), and it shows no text in any mode.
pub proof fn law_reset_is_a_new_engine(e: EngineV, m: Mode)
    ensures
        (EngineV { comp: Seq::empty(), ..e }) == (EngineV { next: e.next, ..EngineV {
            im: e.im,
            flags: e.flags,
            comp: Seq::empty(),
            next: 0,
        } }),
        processed_spec(EngineV { comp: Seq::empty(), ..e }, m) == Seq::<char>::empty(),
{
    let e2 = EngineV { comp: Seq::<TransV>::empty(), ..e };
    assert(e2.comp.subrange(0, 0) =~= Seq::<TransV>::empty());
    assert(crate::flatten::flat(Seq::<TransV>::empty(), Seq::<TransV>::empty(), m) == Seq::<char>::empty());
    assert(crate::flatten::flat(Seq::<TransV>::empty(), Seq::<TransV>::empty(), Mode::VIETNAMESE)
        == Seq::<char>::empty());
}

proof fn lemma_refresh_unkeyed(n: nat, c: Seq<TransV>, flags: EngineFlags)
    ensures
        crate::generate::all_unkeyed(refresh_tone_spec(n, c, flags).0),
{
    let rf = refresh_tone_spec(n, c, flags);
    if rf.0.len() > 0 {
        assert(rf.0 == refresh_spec(n, c, flags.has(FLAG_STD_TONE_STYLE)).0);
        assert(rf.0.len() == 2);
        assert(rf.0[0].rule.key == '\0');
        assert(rf.0[1].rule.key == '\0');
    }
}

proof fn lemma_uow_unkeyed(n: nat, c: Seq<TransV>, im: InputMethodV, flags: EngineFlags)
    ensures
        crate::generate::all_unkeyed(opt_seq(uow_spec(n, c, im, flags))),
{
    let u = opt_seq(uow_spec(n, c, im, flags));
    if u.len() > 0 {
        assert(u[0].rule.key == '\0');
    }
}

proof fn lemma_step_one_keyed(n: nat, syl: Seq<TransV>, im: InputMethodV, flags: EngineFlags, key: char, upper: bool)
    ensures
        crate::generate::at_most_one_keyed(step_gen_spec(n, syl, im, flags, key, upper).0),
{
    let rules = applicable_spec(im.rules, key);
    let g = generate_spec(n, syl, rules, flags, key, upper);
    crate::generate::lemma_generate_one_keyed(n, syl, rules, flags, key, upper);
    let fb = fallback_spec(n + g.1, rules, key, upper);
    crate::generate::lemma_fallback_one_keyed(n + g.1, rules, key, upper);
    let u = opt_seq(uow_spec(n + g.1 + fb.len(), syl + fb, im, flags));
    lemma_uow_unkeyed(n + g.1 + fb.len(), syl + fb, im, flags);
    crate::generate::lemma_keyed_concat(fb, u);
    let tu: (Seq<TransV>, nat) = if g.0.len() > 0 {
        (g.0, g.1)
    } else {
        (fb + u, g.1 + fb.len() + u.len())
    };
    assert(crate::generate::at_most_one_keyed(tu.0));
    lemma_refresh_unkeyed(n + tu.1, syl + tu.0, flags);
    let rf = refresh_tone_spec(n + tu.1, syl + tu.0, flags);
    crate::generate::lemma_keyed_concat(tu.0, rf.0);
    reveal(step_gen_spec);
    assert(step_gen_spec(n, syl, im, flags, key, upper).0 == tu.0 + rf.0);
}

proof fn lemma_english_flat_unkeyed(s: Seq<TransV>, effs: Seq<TransV>, m: Mode)
    requires
        m.has(MODE_ENGLISH),
        crate::generate::all_unkeyed(s),
    ensures
        crate::flatten::flat(s, effs, m) == Seq::<char>::empty(),
    decreases s.len(),
{
    if s.len() > 0 {
        assert(s.last() == s[s.len() - 1]);
        lemma_english_flat_unkeyed(s.drop_last(), effs, m);
    }
}

proof fn lemma_english_flat_one_keyed(s: Seq<TransV>, effs: Seq<TransV>, m: Mode)
    requires
        m.has(MODE_ENGLISH),
        crate::generate::at_most_one_keyed(s),
    ensures
        crate::flatten::flat(s, effs, m).len() <= 1,
    decreases s.len(),
{
    if s.len() > 0 {
        let init = s.drop_last();
        assert(crate::generate::at_most_one_keyed(init)) by {
            assert forall|i: int, j: int| 0 <= i < j < init.len() implies (#[trigger] init[i]).rule.key == '\0' || (
            #[trigger] init[j]).rule.key == '\0' by {
                assert(init[i] == s[i]);
                assert(init[j] == s[j]);
            }
        }
        lemma_english_flat_one_keyed(init, effs, m);
        if s.last().rule.key != '\0' {
            assert(crate::generate::all_unkeyed(init)) by {
                assert forall|k: int| 0 <= k < init.len() implies (#[trigger] init[k]).rule.key == '\0' by {
                    assert(init[k] == s[k]);
                    assert(s[s.len() - 1] == s.last());
                }
            }
            lemma_english_flat_unkeyed(init, effs, m);
        }
    }
}

proof fn lemma_english_flat_retarget(x: Seq<TransV>, rt: Option<Retarget>, effs: Seq<TransV>, m: Mode)
    requires
        m.has(MODE_ENGLISH),
    ensures
        crate::flatten::flat(retarget_spec(x, rt), effs, m) == crate::flatten::flat(x, effs, m),
    decreases x.len(),
{
    if x.len() > 0 {
        lemma_english_flat_retarget(x.drop_last(), rt, effs, m);
        let y = retarget_spec(x, rt);
        assert(y.drop_last() =~= retarget_spec(x.drop_last(), rt));
        assert(y.last().rule == x.last().rule);
        assert(y.last().is_upper_case == x.last().is_upper_case);
    }
}

/// The raw-keystroke text only grows at its end: after any keystroke (not in
/// reverse order) the full English-mode text is the text before, followed by
/// at most one character.
pub proof fn law_raw_text_grows_at_end(e: EngineV, key: char, mode: Mode, m: Mode)
    requires
        !mode.has(MODE_IN_REVERSE_ORDER),
        m.has(MODE_FULL_TEXT),
        m.has(MODE_ENGLISH),
    ensures
        ({
            let before = processed_spec(e, m);
            let after = processed_spec(key_spec(e, key, mode), m);
            &&& before.len() <= after.len() <= before.len() + 1
            &&& after.subrange(0, before.len() as int) == before
        }),
{
    reveal(key_spec);
    reveal(new_comp_spec);
    let e2 = key_spec(e, key, mode);
    let lower = to_lower(key);
    let upper = is_uppercase_char(key);
    let added: Seq<TransV> = if mode.has(MODE_ENGLISH) || !can_process(lower, e.im.keys) {
        let t = appending_spec(e.next as TransId, lower, upper);
        assert(e2.comp =~= e.comp + seq![t]);
        seq![t]
    } else {
        let split = last_syllable_spec(e.comp);
        let syl = e.comp.subrange(split, e.comp.len() as int);
        let g = step_gen_spec(e.next, syl, e.im, e.flags, lower, upper);
        lemma_step_one_keyed(e.next, syl, e.im, e.flags, lower, upper);
        lemma_english_flat_retarget(e.comp + g.0, g.1, e2.comp, m);
        g.0
    };
    assert(crate::generate::at_most_one_keyed(added));
    lemma_flat_concat(e.comp, added, e2.comp, m);
    lemma_english_flat_effects(e.comp, e2.comp, e.comp, m);
    lemma_english_flat_one_keyed(added, e2.comp, m);
    let before = crate::flatten::flat(e.comp, e.comp, m);
    let d = crate::flatten::flat(added, e2.comp, m);
    assert((before + d).subrange(0, before.len() as int) =~= before);
}

} // verus!
