//! Reconstructing displayable text from a composition.
use vstd::prelude::*;
use crate::composition::{comp_wf, cv, opt_seq, trans_wf, Transformation, TransV};
use crate::mode::{Mode, MODE_ENGLISH, MODE_LOWERCASE, MODE_MARKLESS, MODE_TONELESS};
use crate::rules::{mark_code, EffectType, Mark};
use crate::text::{lower_char, to_lower, to_upper, upper_char};
use crate::unicode_tables::{
    add_mark_to_char, add_tone_to_char, lemma_tone_fits_small, with_mark, with_tone,
};

verus! {

/// Whether `t` contributes a visible character: appending transformations
/// carry the output characters; in English mode every transformation is
/// emitted as its raw key. Virtual transformations (key `'\0'`) never are.
pub open spec fn emitted(t: TransV, english: bool) -> bool {
    (english || t.rule.effect_type == EffectType::Appending) && t.rule.key != '\0'
}

/// Fold the effect `e` into `c` if it targets `app`.
pub open spec fn apply_effect_spec(c: char, app: TransV, e: TransV) -> char {
    if e.rule.effect_type == EffectType::Appending || e.target != Some(app.id) {
        c
    } else if e.rule.effect_type == EffectType::MarkTransformation {
        if e.rule.effect == mark_code(Mark::Raw) {
            app.rule.key
        } else {
            with_mark(c, e.rule.effect)
        }
    } else if e.rule.effect_type == EffectType::ToneTransformation {
        with_tone(c, e.rule.effect)
    } else {
        c
    }
}

/// Fold every effect of `effs`, in order, into `c` for the appender `app`.
pub open spec fn fold_effects(c: char, app: TransV, effs: Seq<TransV>) -> char
    decreases effs.len(),
{
    if effs.len() == 0 {
        c
    } else {
        apply_effect_spec(fold_effects(c, app, effs.drop_last()), app, effs.last())
    }
}

/// The mode post-processing: toneless, markless, then letter case.
pub open spec fn post_mode(c: char, app: TransV, mode: Mode) -> char {
    let c1 = if mode.has(MODE_TONELESS) { with_tone(c, 0) } else { c };
    let c2 = if mode.has(MODE_MARKLESS) { with_mark(c1, 0) } else { c1 };
    if mode.has(MODE_LOWERCASE) {
        to_lower(c2)
    } else if app.is_upper_case {
        to_upper(c2)
    } else {
        c2
    }
}

/// The character appender `app` shows under `mode`, given the effects `effs`.
pub open spec fn resolve(effs: Seq<TransV>, app: TransV, mode: Mode) -> char {
    let base = if mode.has(MODE_ENGLISH) {
        app.rule.key
    } else {
        fold_effects(app.rule.effect_on, app, effs)
    };
    post_mode(base, app, mode)
}

/// The characters `items` show under `mode`, with effects taken from `effs`.
pub open spec fn flat(items: Seq<TransV>, effs: Seq<TransV>, mode: Mode) -> Seq<char>
    decreases items.len(),
{
    if items.len() == 0 {
        Seq::empty()
    } else {
        let rest = flat(items.drop_last(), effs, mode);
        if emitted(items.last(), mode.has(MODE_ENGLISH)) {
            rest.push(resolve(effs, items.last(), mode))
        } else {
            rest
        }
    }
}

/// The text of a composition under `mode`.
pub open spec fn flatten_spec(comp: Seq<TransV>, mode: Mode) -> Seq<char> {
    flat(comp, comp, mode)
}

/// The first character the composition shows under `mode`, if any.
pub open spec fn first_char_spec(comp: Seq<TransV>, mode: Mode) -> Option<char> {
    let s = flatten_spec(comp, mode);
    if s.len() > 0 {
        Some(s[0])
    } else {
        None
    }
}

fn is_emitted(t: &Transformation, english: bool) -> (r: bool)
    ensures
        r == emitted(t@, english),
{
    (english || t.rule.effect_type == EffectType::Appending) && t.rule.key != '\0'
}

fn apply_effect(c: char, app: &Transformation, e: &Transformation) -> (r: char)
    requires
        trans_wf(e@),
    ensures
        r == apply_effect_spec(c, app@, e@),
{
    if e.rule.effect_type == EffectType::Appending || e.target != Some(app.id) {
        return c;
    }
    match e.rule.effect_type {
        EffectType::MarkTransformation => {
            if e.rule.effect == Mark::Raw.code() {
                app.rule.key
            } else {
                add_mark_to_char(c, e.rule.effect)
            }
        },
        EffectType::ToneTransformation => {
            proof {
                lemma_tone_fits_small(c, e.rule.effect);
            }
            add_tone_to_char(c, e.rule.effect)
        },
        _ => c,
    }
}

/// Resolve the final character emitted by `app`, applying every effect in
/// `comp` (then `extra`) that targets it, then the `mode` post-processing.
pub fn resolve_char(
    comp: &[Transformation],
    extra: Option<&Transformation>,
    app: &Transformation,
    mode: Mode,
) -> (r: char)
    requires
        comp_wf(cv(comp@)),
        extra matches Some(e) ==> trans_wf(e@),
    ensures
        r == resolve(
            cv(comp@) + opt_seq(
                match extra {
                    Some(e) => Some(e@),
                    None => None,
                },
            ),
            app@,
            mode,
        ),
{
    let ghost effs = cv(comp@) + opt_seq(
        match extra {
            Some(e) => Some(e@),
            None => None,
        },
    );
    let english = mode.has_flag(MODE_ENGLISH);
    let mut chr;
    if english {
        chr = app.rule.key;
    } else {
        chr = app.rule.effect_on;
        let mut i: usize = 0;
        while i < comp.len()
            invariant
                i <= comp@.len(),
                comp_wf(cv(comp@)),
                chr == fold_effects(app@.rule.effect_on, app@, cv(comp@).subrange(0, i as int)),
            decreases comp@.len() - i,
        {
            proof {
                assert(trans_wf(cv(comp@)[i as int]));
                assert(cv(comp@).subrange(0, i + 1).drop_last() =~= cv(comp@).subrange(0, i as int));
            }
            chr = apply_effect(chr, app, &comp[i]);
            i += 1;
        }
        assert(cv(comp@).subrange(0, comp@.len() as int) =~= cv(comp@));
        match extra {
            Some(e) => {
                assert(effs.drop_last() =~= cv(comp@));
                chr = apply_effect(chr, app, e);
            },
            None => {
                assert(effs =~= cv(comp@));
            },
        }
    }
    if mode.has_flag(MODE_TONELESS) {
        proof {
            lemma_tone_fits_small(chr, 0);
        }
        chr = add_tone_to_char(chr, 0);
    }
    if mode.has_flag(MODE_MARKLESS) {
        chr = add_mark_to_char(chr, 0);
    }
    if mode.has_flag(MODE_LOWERCASE) {
        chr = lower_char(chr);
    } else if app.is_upper_case {
        chr = upper_char(chr);
    }
    chr
}

/// The characters of `comp[..n]` under `mode`, effects taken from all of
/// `comp` plus `extra`; `extra` itself is flattened last when present.
fn flatten_chars(comp: &[Transformation], extra: Option<&Transformation>, mode: Mode) -> (r: Vec<
    char,
>)
    requires
        comp_wf(cv(comp@)),
        extra matches Some(e) ==> trans_wf(e@),
    ensures
        ({
            let effs = cv(comp@) + opt_seq(
                match extra {
                    Some(e) => Some(e@),
                    None => None,
                },
            );
            r@ == flat(effs, effs, mode)
        }),
{
    let ghost effs = cv(comp@) + opt_seq(
        match extra {
            Some(e) => Some(e@),
            None => None,
        },
    );
    let english = mode.has_flag(MODE_ENGLISH);
    let mut out: Vec<char> = Vec::new();
    let mut i: usize = 0;
    while i < comp.len()
        invariant
            i <= comp@.len(),
            comp_wf(cv(comp@)),
            extra matches Some(e) ==> trans_wf(e@),
            english == mode.has(MODE_ENGLISH),
            effs == cv(comp@) + opt_seq(
                match extra {
                    Some(e) => Some(e@),
                    None => None,
                },
            ),
            out@ == flat(cv(comp@).subrange(0, i as int), effs, mode),
        decreases comp@.len() - i,
    {
        proof {
            assert(cv(comp@).subrange(0, i + 1).drop_last() =~= cv(comp@).subrange(0, i as int));
        }
        if is_emitted(&comp[i], english) {
            let c = resolve_char(comp, extra, &comp[i], mode);
            out.push(c);
        }
        i += 1;
    }
    assert(cv(comp@).subrange(0, comp@.len() as int) =~= cv(comp@));
    match extra {
        Some(e) => {
            assert(effs.drop_last() =~= cv(comp@));
            if is_emitted(e, english) {
                let c = resolve_char(comp, extra, e, mode);
                out.push(c);
            }
        },
        None => {
            assert(effs =~= cv(comp@));
        },
    }
    out
}

/// Flatten a composition into its characters under `mode`.
pub fn flatten(comp: &[Transformation], mode: Mode) -> (r: Vec<char>)
    requires
        comp_wf(cv(comp@)),
    ensures
        r@ == flatten_spec(cv(comp@), mode),
{
    let r = flatten_chars(comp, None, mode);
    assert(cv(comp@) + opt_seq(None) =~= cv(comp@));
    r
}

/// Flatten `comp` with one `extra` transformation appended, without cloning
/// the composition.
pub fn flatten_with_extra(comp: &[Transformation], extra: &Transformation, mode: Mode) -> (r: Vec<
    char,
>)
    requires
        comp_wf(cv(comp@)),
        trans_wf(extra@),
    ensures
        r@ == flatten_spec(cv(comp@).push(extra@), mode),
{
    let r = flatten_chars(comp, Some(extra), mode);
    assert(cv(comp@) + opt_seq(Some(extra@)) =~= cv(comp@).push(extra@));
    r
}

/// If nothing in `items[..i]` is emitted, `flat(items[..i])` is empty.
proof fn lemma_flat_none_emitted(items: Seq<TransV>, effs: Seq<TransV>, mode: Mode, i: int)
    requires
        0 <= i <= items.len(),
        forall|j: int| 0 <= j < i ==> !emitted(#[trigger] items[j], mode.has(MODE_ENGLISH)),
    ensures
        flat(items.subrange(0, i), effs, mode).len() == 0,
    decreases i,
{
    if i > 0 {
        assert(items.subrange(0, i).drop_last() =~= items.subrange(0, i - 1));
        lemma_flat_none_emitted(items, effs, mode, i - 1);
    }
}

/// The flattening of a longer prefix extends the flattening of a shorter one.
proof fn lemma_flat_prefix(items: Seq<TransV>, effs: Seq<TransV>, mode: Mode, i: int, j: int)
    requires
        0 <= i <= j <= items.len(),
    ensures
        flat(items.subrange(0, i), effs, mode).len() <= flat(items.subrange(0, j), effs, mode).len(),
        forall|k: int|
            0 <= k < flat(items.subrange(0, i), effs, mode).len() ==> #[trigger] flat(
                items.subrange(0, j),
                effs,
                mode,
            )[k] == flat(items.subrange(0, i), effs, mode)[k],
    decreases j - i,
{
    if j > i {
        assert(items.subrange(0, j).drop_last() =~= items.subrange(0, j - 1));
        lemma_flat_prefix(items, effs, mode, i, j - 1);
    }
}

/// The first character [`flatten`] would emit, without building the text.
pub fn first_char(comp: &[Transformation], mode: Mode) -> (r: Option<char>)
    requires
        comp_wf(cv(comp@)),
    ensures
        r == first_char_spec(cv(comp@), mode),
{
    let english = mode.has_flag(MODE_ENGLISH);
    let ghost items = cv(comp@);
    let mut i: usize = 0;
    while i < comp.len()
        invariant
            i <= comp@.len(),
            items == cv(comp@),
            comp_wf(cv(comp@)),
            english == mode.has(MODE_ENGLISH),
            forall|j: int| 0 <= j < i ==> !emitted(#[trigger] items[j], english),
        decreases comp@.len() - i,
    {
        if is_emitted(&comp[i], english) {
            let c = resolve_char(comp, None, &comp[i], mode);
            proof {
                assert(cv(comp@) + opt_seq(None) =~= cv(comp@));
                lemma_flat_none_emitted(items, items, mode, i as int);
                assert(items.subrange(0, i + 1).drop_last() =~= items.subrange(0, i as int));
                lemma_flat_prefix(items, items, mode, i + 1, items.len() as int);
                assert(items.subrange(0, items.len() as int) =~= items);
            }
            return Some(c);
        }
        i += 1;
    }
    proof {
        lemma_flat_none_emitted(items, items, mode, items.len() as int);
        assert(items.subrange(0, items.len() as int) =~= items);
    }
    None
}

} // verus!
