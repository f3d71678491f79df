//! Transformations, the unit a composition is made of, and the identifiers
//! that link an effect to the character it modifies.
use vstd::prelude::*;
use crate::rules::{same_rule, EffectType, Rule, RuleHead};

verus! {

/// Stable, position-independent identity for a [`Transformation`].
pub type TransId = u32;

/// Id reserved for throwaway transformations used only for trial flattening.
pub const TEMP_ID: TransId = 0xffff_ffff;

/// One keystroke's effect on the composition: an appended character, or a
/// tone/mark applied to an earlier transformation identified by `target`.
#[derive(Debug, PartialEq)]
pub struct Transformation {
    pub id: TransId,
    pub rule: Rule,
    pub target: Option<TransId>,
    pub is_upper_case: bool,
}

/// The value of a transformation that the composition logic reads.
#[derive(Clone, Copy, PartialEq, Eq, Structural, Debug)]
pub struct TransV {
    pub id: TransId,
    pub rule: RuleHead,
    pub target: Option<TransId>,
    pub is_upper_case: bool,
}

impl View for Transformation {
    type V = TransV;

    open spec fn view(&self) -> TransV {
        TransV { id: self.id, rule: self.rule@, target: self.target, is_upper_case: self.is_upper_case }
    }
}

impl Clone for Transformation {
    fn clone(&self) -> (r: Self)
        ensures
            r@ == self@,
            r.rule.appended() == self.rule.appended(),
            same_rule(r.rule, self.rule),
    {
        Transformation {
            id: self.id,
            rule: self.rule.duplicate(),
            target: self.target,
            is_upper_case: self.is_upper_case,
        }
    }
}

/// The values of a sequence of transformations.
pub open spec fn cv(s: Seq<Transformation>) -> Seq<TransV> {
    s.map_values(|t: Transformation| t@)
}

/// A transformation is well formed when a tone it applies is one of the six
/// tones (so applying it stays inside the vowel table).
pub open spec fn trans_wf(t: TransV) -> bool {
    t.rule.effect_type == EffectType::ToneTransformation ==> t.rule.effect <= 5
}

/// A rule head is well formed when a tone it applies is one of the six tones.
pub open spec fn head_wf(h: RuleHead) -> bool {
    h.effect_type == EffectType::ToneTransformation ==> h.effect <= 5
}

/// Every transformation of the sequence is well formed.
pub open spec fn comp_wf(s: Seq<TransV>) -> bool {
    forall|i: int| 0 <= i < s.len() ==> trans_wf(#[trigger] s[i])
}

/// Every rule of the sequence is well formed.
pub open spec fn heads_wf(s: Seq<RuleHead>) -> bool {
    forall|i: int| 0 <= i < s.len() ==> head_wf(#[trigger] s[i])
}

/// The one-element sequence of an optional transformation.
pub open spec fn opt_seq(t: Option<TransV>) -> Seq<TransV> {
    match t {
        Some(x) => seq![x],
        None => Seq::empty(),
    }
}

pub proof fn lemma_cv_subrange(s: Seq<Transformation>, a: int, b: int)
    requires
        0 <= a <= b <= s.len(),
    ensures
        cv(s.subrange(a, b)) == cv(s).subrange(a, b),
{
    assert(cv(s.subrange(a, b)) =~= cv(s).subrange(a, b));
}

pub proof fn lemma_cv_push(s: Seq<Transformation>, t: Transformation)
    ensures
        cv(s.push(t)) == cv(s).push(t@),
{
    assert(cv(s.push(t)) =~= cv(s).push(t@));
}

/// Hands out unique [`TransId`]s for a single engine's lifetime.
#[derive(Debug, Default)]
pub struct IdGen {
    pub next: TransId,
}

impl IdGen {
    pub fn new() -> (r: IdGen)
        ensures
            r.next == 0,
    {
        IdGen { next: 0 }
    }

    /// The next id; ids are handed out in increasing order.
    pub fn next_id(&mut self) -> (r: TransId)
        requires
            old(self).next < TEMP_ID,
        ensures
            r == old(self).next,
            final(self).next == old(self).next + 1,
    {
        let id = self.next;
        self.next = self.next + 1;
        id
    }
}

/// What one `next_id` call does to a generator: `r` is handed out, and the
/// counter moves from `before` to `after`.
pub open spec fn next_id_step(before: IdGen, after: IdGen, r: TransId) -> bool {
    r == before.next && after.next == before.next + 1
}

/// One generator hands out 0, 1, 2, ... in order: along a run of `next_id`
/// calls on a generator made by `IdGen::new`, the `k`-th id handed out is `k`,
/// so no id repeats.
pub proof fn law_ids_count_up(gens: Seq<IdGen>, ids: Seq<TransId>)
    requires
        gens.len() == ids.len() + 1,
        gens[0].next == 0,
        forall|k: int| 0 <= k < ids.len() ==> next_id_step(gens[k], gens[k + 1], #[trigger] ids[k]),
    ensures
        forall|k: int| 0 <= k < ids.len() ==> #[trigger] ids[k] == k,
        forall|i: int, j: int| 0 <= i < j < ids.len() ==> #[trigger] ids[i] != #[trigger] ids[j],
{
    assert forall|k: int| 0 <= k < gens.len() implies #[trigger] gens[k].next == k by {
        lemma_counter_at(gens, ids, k);
    }
    assert forall|k: int| 0 <= k < ids.len() implies #[trigger] ids[k] == k by {
        assert(next_id_step(gens[k], gens[k + 1], ids[k]));
        assert(gens[k].next == k);
    }
}

proof fn lemma_counter_at(gens: Seq<IdGen>, ids: Seq<TransId>, k: int)
    requires
        gens.len() == ids.len() + 1,
        gens[0].next == 0,
        forall|i: int| 0 <= i < ids.len() ==> next_id_step(gens[i], gens[i + 1], #[trigger] ids[i]),
        0 <= k < gens.len(),
    ensures
        gens[k].next == k,
    decreases k,
{
    if k > 0 {
        lemma_counter_at(gens, ids, k - 1);
        assert(next_id_step(gens[k - 1], gens[k], ids[k - 1]));
    }
}

/// Copies `s[a..b]` into a new vector.
pub fn clone_range(s: &[Transformation], a: usize, b: usize) -> (r: Vec<Transformation>)
    requires
        a <= b <= s@.len(),
    ensures
        cv(r@) == cv(s@).subrange(a as int, b as int),
{
    let mut out: Vec<Transformation> = Vec::new();
    let mut i = a;
    while i < b
        invariant
            a <= i <= b <= s@.len(),
            cv(out@) == cv(s@).subrange(a as int, i as int),
        decreases b - i,
    {
        let t = s[i].clone();
        proof {
            lemma_cv_push(out@, t);
            assert(cv(s@).subrange(a as int, i + 1) =~= cv(s@).subrange(a as int, i as int).push(t@));
        }
        out.push(t);
        i += 1;
    }
    out
}

/// Appends copies of every transformation of `src` to `dst`.
pub fn extend_cloned(dst: &mut Vec<Transformation>, src: &[Transformation])
    ensures
        cv(final(dst)@) == cv(old(dst)@) + cv(src@),
{
    let mut i: usize = 0;
    while i < src.len()
        invariant
            i <= src@.len(),
            cv(dst@) == cv(old(dst)@) + cv(src@).subrange(0, i as int),
        decreases src@.len() - i,
    {
        let t = src[i].clone();
        proof {
            lemma_cv_push(dst@, t);
            assert(cv(src@).subrange(0, i + 1) =~= cv(src@).subrange(0, i as int).push(t@));
        }
        dst.push(t);
        i += 1;
    }
    assert(cv(src@).subrange(0, src@.len() as int) =~= cv(src@));
}

/// Appends every transformation of `src` to `dst`, consuming `src`.
pub fn extend_moved(dst: &mut Vec<Transformation>, src: Vec<Transformation>)
    ensures
        cv(final(dst)@) == cv(old(dst)@) + cv(src@),
{
    let mut src = src;
    let ghost s0 = src@;
    let mut tmp: Vec<Transformation> = Vec::new();
    // Reverse into `tmp`, then pop back in order.
    while src.len() > 0
        invariant
            cv(src@) + cv(tmp@.reverse()) == cv(s0),
        decreases src@.len(),
    {
        let t = src.pop().unwrap();
        proof {
            let s = src@;
            assert(cv(tmp@.push(t).reverse()) =~= seq![t@] + cv(tmp@.reverse()));
            assert(cv(s.push(t)) =~= cv(s).push(t@));
            assert(cv(s) + cv(tmp@.push(t).reverse()) =~= cv(s.push(t)) + cv(tmp@.reverse()));
        }
        tmp.push(t);
    }
    assert(cv(tmp@.reverse()) =~= cv(s0));
    while tmp.len() > 0
        invariant
            cv(dst@) + cv(tmp@.reverse()) == cv(old(dst)@) + cv(s0),
        decreases tmp@.len(),
    {
        let t = tmp.pop().unwrap();
        proof {
            let s = tmp@;
            assert(cv(s.push(t).reverse()) =~= seq![t@] + cv(s.reverse()));
            assert(cv(dst@.push(t)) =~= cv(dst@).push(t@));
            assert(cv(dst@.push(t)) + cv(s.reverse()) =~= cv(dst@) + (seq![t@] + cv(s.reverse())));
        }
        dst.push(t);
    }
    assert(cv(tmp@.reverse()) =~= Seq::<TransV>::empty());
}

} // verus!
