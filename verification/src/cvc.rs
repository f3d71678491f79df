//! Decomposition of a syllable into first-consonant, vowel and last-consonant
//! groups, and the materialisation of one group with its effects.
use vstd::prelude::*;
use crate::composition::{comp_wf, cv, lemma_cv_push, Transformation, TransV};
use crate::unicode_tables::{is_vowel, is_vowel_char};

verus! {

/// Indices of the appending transformations (those without a target), in
/// composition order.
pub open spec fn appenders_spec(comp: Seq<TransV>) -> Seq<usize>
    decreases comp.len(),
{
    if comp.len() == 0 {
        Seq::empty()
    } else {
        let rest = appenders_spec(comp.drop_last());
        if comp.last().target is None {
            rest.push((comp.len() - 1) as usize)
        } else {
            rest
        }
    }
}

/// Where the trailing run of `app[..upto]` whose results share the vowel-ness
/// `last_is_vowel` begins.
pub open spec fn atomic_split_spec(comp: Seq<TransV>, app: Seq<usize>, upto: int, last_is_vowel: bool) -> int
    decreases upto,
{
    if upto <= 0 {
        0
    } else if is_vowel_char(comp[app[upto - 1] as int].rule.result) != last_is_vowel {
        upto
    } else {
        atomic_split_spec(comp, app, upto - 1, last_is_vowel)
    }
}

/// A decomposition: `app[..fc_end]` are the first-consonant appenders,
/// `app[fc_end..vo_end]` the vowel appenders and `app[vo_end..]` the
/// last-consonant appenders.
pub struct CvcSplitV {
    pub app: Seq<usize>,
    pub fc_end: int,
    pub vo_end: int,
}

impl CvcSplitV {
    pub open spec fn fc(self) -> Seq<usize> {
        self.app.subrange(0, self.fc_end)
    }

    pub open spec fn vo(self) -> Seq<usize> {
        self.app.subrange(self.fc_end, self.vo_end)
    }

    pub open spec fn lc(self) -> Seq<usize> {
        self.app.subrange(self.vo_end, self.app.len() as int)
    }
}

/// The CVC decomposition of a composition. An all-consonant run is a first
/// consonant; `gi` and `qu` count as initial consonants (`g|ia` becomes
/// `gi|a`, `q|ua` becomes `qu|a`, but not `g|ie|ng`).
pub open spec fn cvc_split_spec(comp: Seq<TransV>) -> CvcSplitV {
    let app = appenders_spec(comp);
    let n = app.len() as int;
    let head = atomic_split_spec(comp, app, n, false);
    let fcs = atomic_split_spec(comp, app, head, true);
    let all_consonants = head < n && fcs == 0 && head == 0;
    let fc_end = if all_consonants { n } else { fcs };
    let vo_end = if all_consonants { n } else { head };
    let vo_len = vo_end - fc_end;
    let qualified = fc_end == 1 && vo_len >= 1 && {
        let fc0 = comp[app[0] as int].rule.result;
        let vo0 = comp[app[fc_end] as int].rule.result;
        let gi = fc0 == 'g' && vo0 == 'i' && vo_len > 1 && (comp[app[fc_end + 1] as int].rule.result
            != 'e' || vo_end == n);
        let qu = fc0 == 'q' && vo0 == 'u';
        gi || qu
    };
    CvcSplitV { app, fc_end: if qualified { fc_end + 1 } else { fc_end }, vo_end }
}

/// Every appender index is in range and the indices strictly increase.
pub open spec fn indices_ok(comp_len: int, idx: Seq<usize>) -> bool {
    &&& forall|k: int| 0 <= k < idx.len() ==> (#[trigger] idx[k]) < comp_len
}

pub proof fn lemma_appenders_ok(comp: Seq<TransV>)
    requires
        comp.len() <= usize::MAX,
    ensures
        indices_ok(comp.len() as int, appenders_spec(comp)),
        appenders_spec(comp).len() <= comp.len(),
        forall|k: int|
            0 <= k < appenders_spec(comp).len() ==> (#[trigger] comp[appenders_spec(comp)[k] as int]).target is None,
    decreases comp.len(),
{
    if comp.len() > 0 {
        lemma_appenders_ok(comp.drop_last());
        let rest = appenders_spec(comp.drop_last());
        assert forall|k: int| 0 <= k < rest.len() implies (#[trigger] comp[rest[k] as int]).target is None by {
            assert(comp.drop_last()[rest[k] as int] == comp[rest[k] as int]);
        }
    }
}

pub proof fn lemma_atomic_bounds(comp: Seq<TransV>, app: Seq<usize>, upto: int, v: bool)
    ensures
        0 <= upto ==> 0 <= atomic_split_spec(comp, app, upto, v) <= upto,
    decreases upto,
{
    if upto > 0 {
        lemma_atomic_bounds(comp, app, upto - 1, v);
    }
}

pub proof fn lemma_cvc_split_bounds(comp: Seq<TransV>)
    ensures
        ({
            let s = cvc_split_spec(comp);
            &&& s.app == appenders_spec(comp)
            &&& 0 <= s.fc_end <= s.vo_end <= s.app.len()
        }),
{
    let app = appenders_spec(comp);
    let n = app.len() as int;
    lemma_atomic_bounds(comp, app, n, false);
    let head = atomic_split_spec(comp, app, n, false);
    lemma_atomic_bounds(comp, app, head, true);
}

/// An index-based decomposition of a composition; see [`CvcSplitV`].
pub struct CvcSplit {
    pub appenders: Vec<usize>,
    pub fc_end: usize,
    pub vo_end: usize,
}

impl CvcSplit {
    pub open spec fn view_split(&self) -> CvcSplitV {
        CvcSplitV { app: self.appenders@, fc_end: self.fc_end as int, vo_end: self.vo_end as int }
    }

    /// Indices of the first-consonant appenders.
    pub fn fc(&self) -> (r: &[usize])
        requires
            self.fc_end <= self.vo_end <= self.appenders@.len(),
        ensures
            r@ == self.view_split().fc(),
    {
        vstd::slice::slice_subrange(self.appenders.as_slice(), 0, self.fc_end)
    }

    /// Indices of the vowel appenders.
    pub fn vo(&self) -> (r: &[usize])
        requires
            self.fc_end <= self.vo_end <= self.appenders@.len(),
        ensures
            r@ == self.view_split().vo(),
    {
        vstd::slice::slice_subrange(self.appenders.as_slice(), self.fc_end, self.vo_end)
    }

    /// Indices of the last-consonant appenders.
    pub fn lc(&self) -> (r: &[usize])
        requires
            self.fc_end <= self.vo_end <= self.appenders@.len(),
        ensures
            r@ == self.view_split().lc(),
    {
        vstd::slice::slice_subrange(self.appenders.as_slice(), self.vo_end, self.appenders.len())
    }
}

fn appenders(comp: &[Transformation]) -> (r: Vec<usize>)
    ensures
        r@ == appenders_spec(cv(comp@)),
{
    let mut out: Vec<usize> = Vec::new();
    let mut i: usize = 0;
    while i < comp.len()
        invariant
            i <= comp@.len(),
            out@ == appenders_spec(cv(comp@).subrange(0, i as int)),
        decreases comp@.len() - i,
    {
        proof {
            assert(cv(comp@).subrange(0, i + 1).drop_last() =~= cv(comp@).subrange(0, i as int));
        }
        if comp[i].target.is_none() {
            out.push(i);
        }
        i += 1;
    }
    assert(cv(comp@).subrange(0, comp@.len() as int) =~= cv(comp@));
    out
}

fn atomic_split_idx(comp: &[Transformation], app: &[usize], upto: usize, last_is_vowel: bool) -> (r: usize)
    requires
        upto <= app@.len(),
        indices_ok(comp@.len() as int, app@),
    ensures
        r == atomic_split_spec(cv(comp@), app@, upto as int, last_is_vowel),
{
    let mut i = upto;
    while i > 0
        invariant
            i <= upto <= app@.len(),
            indices_ok(comp@.len() as int, app@),
            atomic_split_spec(cv(comp@), app@, upto as int, last_is_vowel)
                == atomic_split_spec(cv(comp@), app@, i as int, last_is_vowel),
        decreases i,
    {
        if is_vowel(comp[app[i - 1]].rule.result) != last_is_vowel {
            return i;
        }
        i -= 1;
    }
    i
}

/// Partition the appending transformations of `comp` into the CVC groups.
pub fn cvc_split(comp: &[Transformation]) -> (r: CvcSplit)
    ensures
        r.view_split() == cvc_split_spec(cv(comp@)),
        r.fc_end <= r.vo_end <= r.appenders@.len(),
        indices_ok(comp@.len() as int, r.appenders@),
{
    let app = appenders(comp);
    let _clen = comp.len();
    proof {
        assert(cv(comp@).len() == comp@.len());
        lemma_appenders_ok(cv(comp@));
        lemma_cvc_split_bounds(cv(comp@));
    }
    let n = app.len();
    let head_split = atomic_split_idx(comp, &app, n, false);
    proof {
        lemma_atomic_bounds(cv(comp@), app@, n as int, false);
    }
    let fc_split = atomic_split_idx(comp, &app, head_split, true);
    proof {
        lemma_atomic_bounds(cv(comp@), app@, head_split as int, true);
    }
    let mut fc_end = fc_split;
    let mut vo_end = head_split;
    if head_split < n && fc_split == 0 && head_split == 0 {
        fc_end = n;
        vo_end = n;
    }
    let vo_len = vo_end - fc_end;
    if fc_end == 1 && vo_len >= 1 {
        let fc0 = comp[app[0]].rule.result;
        let vo0 = comp[app[fc_end]].rule.result;
        let last_consonant_empty = vo_end == n;
        let gi = fc0 == 'g' && vo0 == 'i' && vo_len > 1 && (comp[app[fc_end + 1]].rule.result != 'e'
            || last_consonant_empty);
        let qu = fc0 == 'q' && vo0 == 'u';
        if gi || qu {
            fc_end += 1;
        }
    }
    CvcSplit { appenders: app, fc_end, vo_end }
}

/// The transformations at `idx`.
pub open spec fn members(comp: Seq<TransV>, idx: Seq<usize>) -> Seq<TransV> {
    idx.map_values(|i: usize| comp[i as int])
}

/// Whether `e` targets one of `mem`.
pub open spec fn targets_any(e: TransV, mem: Seq<TransV>) -> bool {
    match e.target {
        Some(t) => exists|k: int| 0 <= k < mem.len() && (#[trigger] mem[k]).id == t,
        None => false,
    }
}

/// One CVC group: the appenders at `idx` followed by every effect in `comp`
/// that targets one of them, in composition order.
pub open spec fn group(comp: Seq<TransV>, idx: Seq<usize>) -> Seq<TransV> {
    let mem = members(comp, idx);
    mem + comp.filter(|e: TransV| targets_any(e, mem))
}

fn targets_any_exec(e: &Transformation, mem: &[Transformation]) -> (r: bool)
    ensures
        r == targets_any(e@, cv(mem@)),
{
    let target = e.target;
    match target {
        Some(t) => {
            let mut k: usize = 0;
            while k < mem.len()
                invariant
                    k <= mem@.len(),
                    e@.target == Some(t),
                    forall|j: int| 0 <= j < k ==> (#[trigger] cv(mem@)[j]).id != t,
                decreases mem@.len() - k,
            {
                if mem[k].id == t {
                    assert(cv(mem@).len() == mem@.len());
                    assert(cv(mem@)[k as int].id == t);
                    assert(targets_any(e@, cv(mem@)));
                    return true;
                }
                k += 1;
            }
            false
        },
        None => false,
    }
}

/// Clone the appenders at `idx` and append the effects that target them.
pub fn materialize_group(comp: &[Transformation], idx: &[usize]) -> (r: Vec<Transformation>)
    requires
        indices_ok(comp@.len() as int, idx@),
    ensures
        cv(r@) == group(cv(comp@), idx@),
        comp_wf(cv(comp@)) ==> comp_wf(cv(r@)),
{
    let ghost c = cv(comp@);
    let mut out: Vec<Transformation> = Vec::new();
    let mut i: usize = 0;
    while i < idx.len()
        invariant
            i <= idx@.len(),
            c == cv(comp@),
            indices_ok(comp@.len() as int, idx@),
            cv(out@) == members(c, idx@.subrange(0, i as int)),
        decreases idx@.len() - i,
    {
        let t = comp[idx[i]].clone();
        proof {
            lemma_cv_push(out@, t);
            assert(members(c, idx@.subrange(0, i + 1)) =~= members(c, idx@.subrange(0, i as int)).push(t@));
        }
        out.push(t);
        i += 1;
    }
    assert(idx@.subrange(0, idx@.len() as int) =~= idx@);
    let ghost mem = cv(out@);
    let n = out.len();
    let mut j: usize = 0;
    while j < comp.len()
        invariant
            j <= comp@.len(),
            c == cv(comp@),
            n <= out@.len(),
            mem == members(c, idx@),
            cv(out@).subrange(0, n as int) == mem,
            cv(out@) == mem + c.subrange(0, j as int).filter(|e: TransV| targets_any(e, mem)),
        decreases comp@.len() - j,
    {
        proof {
            reveal_with_fuel(Seq::filter, 1);
            assert(c.subrange(0, j + 1).drop_last() =~= c.subrange(0, j as int));
        }
        let prefix = vstd::slice::slice_subrange(out.as_slice(), 0, n);
        assert(cv(prefix@) =~= mem);
        if targets_any_exec(&comp[j], prefix) {
            let t = comp[j].clone();
            proof {
                lemma_cv_push(out@, t);
            }
            out.push(t);
            assert(cv(out@).subrange(0, n as int) =~= mem);
        }
        j += 1;
    }
    assert(c.subrange(0, comp@.len() as int) =~= c);
    proof {
        if comp_wf(c) {
            assert forall|k: int| 0 <= k < cv(out@).len() implies crate::composition::trans_wf(
                #[trigger] cv(out@)[k],
            ) by {
                if k < mem.len() {
                    assert(mem[k] == c[idx@[k] as int]);
                } else {
                    let f = c.filter(|e: TransV| targets_any(e, mem));
                    assert(cv(out@)[k] == f[k - mem.len()]);
                    assert(f.contains(f[k - mem.len()]));
                    c.lemma_filter_contains_rev(|e: TransV| targets_any(e, mem), f[k - mem.len()]);
                }
            }
        }
    }
    out
}

} // verus!
