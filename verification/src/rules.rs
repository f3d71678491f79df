//! Transformation rules and their effect classification.
use vstd::prelude::*;

verus! {

/// What a rule does to the composition it is applied to.
#[derive(Clone, Copy, PartialEq, Eq, Structural, Debug, Default)]
pub enum EffectType {
    /// Append a character.
    #[default]
    Appending,
    /// Add a diacritical mark to a character.
    MarkTransformation,
    /// Add a tone to a character.
    ToneTransformation,
    /// Replace a character outright.
    Replacing,
}

impl EffectType {
    /// The numeric code of the effect type (its declaration index).
    pub fn code(self) -> (r: u8)
        ensures
            r == effect_type_code(self),
    {
        match self {
            EffectType::Appending => 0,
            EffectType::MarkTransformation => 1,
            EffectType::ToneTransformation => 2,
            EffectType::Replacing => 3,
        }
    }
}

pub open spec fn effect_type_code(e: EffectType) -> u8 {
    match e {
        EffectType::Appending => 0,
        EffectType::MarkTransformation => 1,
        EffectType::ToneTransformation => 2,
        EffectType::Replacing => 3,
    }
}

/// A diacritical mark.
#[derive(Clone, Copy, PartialEq, Eq, Structural, Debug, Default)]
pub enum Mark {
    #[default]
    NoMark,
    Hat,
    Breve,
    Horn,
    Dash,
    Raw,
}

/// A tone marking.
#[derive(Clone, Copy, PartialEq, Eq, Structural, Debug, Default)]
pub enum Tone {
    #[default]
    NoTone,
    Grave,
    Acute,
    Hook,
    Tilde,
    Dot,
}

/// Raised when a byte does not correspond to a known enum value.
#[derive(Clone, Copy, PartialEq, Eq, Structural, Debug)]
pub struct OutOfRange(pub u8);

/// The byte a mark is stored as (its declaration index).
pub open spec fn mark_code(m: Mark) -> u8 {
    match m {
        Mark::NoMark => 0,
        Mark::Hat => 1,
        Mark::Breve => 2,
        Mark::Horn => 3,
        Mark::Dash => 4,
        Mark::Raw => 5,
    }
}

/// The byte a tone is stored as (its declaration index).
pub open spec fn tone_code(t: Tone) -> u8 {
    match t {
        Tone::NoTone => 0,
        Tone::Grave => 1,
        Tone::Acute => 2,
        Tone::Hook => 3,
        Tone::Tilde => 4,
        Tone::Dot => 5,
    }
}

/// The mark stored as byte `v`, if any.
pub open spec fn mark_of_code(v: u8) -> Option<Mark> {
    if v == 0 {
        Some(Mark::NoMark)
    } else if v == 1 {
        Some(Mark::Hat)
    } else if v == 2 {
        Some(Mark::Breve)
    } else if v == 3 {
        Some(Mark::Horn)
    } else if v == 4 {
        Some(Mark::Dash)
    } else if v == 5 {
        Some(Mark::Raw)
    } else {
        None
    }
}

/// The tone stored as byte `v`, if any.
pub open spec fn tone_of_code(v: u8) -> Option<Tone> {
    if v == 0 {
        Some(Tone::NoTone)
    } else if v == 1 {
        Some(Tone::Grave)
    } else if v == 2 {
        Some(Tone::Acute)
    } else if v == 3 {
        Some(Tone::Hook)
    } else if v == 4 {
        Some(Tone::Tilde)
    } else if v == 5 {
        Some(Tone::Dot)
    } else {
        None
    }
}

/// The tone stored as byte `v`, defaulting to no tone for unknown bytes.
pub open spec fn tone_or_none(v: u8) -> Tone {
    match tone_of_code(v) {
        Some(t) => t,
        None => Tone::NoTone,
    }
}

/// The mark stored as byte `v`, defaulting to no mark for unknown bytes.
pub open spec fn mark_or_none(v: u8) -> Mark {
    match mark_of_code(v) {
        Some(m) => m,
        None => Mark::NoMark,
    }
}

impl Mark {
    /// The byte this mark is stored as.
    pub fn code(self) -> (r: u8)
        ensures
            r == mark_code(self),
    {
        match self {
            Mark::NoMark => 0,
            Mark::Hat => 1,
            Mark::Breve => 2,
            Mark::Horn => 3,
            Mark::Dash => 4,
            Mark::Raw => 5,
        }
    }

    /// The mark stored as byte `v`, if `v` is a known mark.
    pub fn from_code(v: u8) -> (r: Option<Mark>)
        ensures
            r == mark_of_code(v),
    {
        if v == 0 {
            Some(Mark::NoMark)
        } else if v == 1 {
            Some(Mark::Hat)
        } else if v == 2 {
            Some(Mark::Breve)
        } else if v == 3 {
            Some(Mark::Horn)
        } else if v == 4 {
            Some(Mark::Dash)
        } else if v == 5 {
            Some(Mark::Raw)
        } else {
            None
        }
    }
}

impl Tone {
    /// The byte this tone is stored as.
    pub fn code(self) -> (r: u8)
        ensures
            r == tone_code(self),
    {
        match self {
            Tone::NoTone => 0,
            Tone::Grave => 1,
            Tone::Acute => 2,
            Tone::Hook => 3,
            Tone::Tilde => 4,
            Tone::Dot => 5,
        }
    }

    /// The tone stored as byte `v`, if `v` is a known tone.
    pub fn from_code(v: u8) -> (r: Option<Tone>)
        ensures
            r == tone_of_code(v),
    {
        if v == 0 {
            Some(Tone::NoTone)
        } else if v == 1 {
            Some(Tone::Grave)
        } else if v == 2 {
            Some(Tone::Acute)
        } else if v == 3 {
            Some(Tone::Hook)
        } else if v == 4 {
            Some(Tone::Tilde)
        } else if v == 5 {
            Some(Tone::Dot)
        } else {
            None
        }
    }

    /// The tone stored as byte `v`, or no tone when `v` is unknown.
    pub fn from_code_or_none(v: u8) -> (r: Tone)
        ensures
            r == tone_or_none(v),
    {
        match Tone::from_code(v) {
            Some(t) => t,
            None => Tone::NoTone,
        }
    }
}

impl TryFrom<u8> for Mark {
    type Error = OutOfRange;

    fn try_from(value: u8) -> (r: Result<Self, Self::Error>)
        ensures
            r == (match mark_of_code(value) {
                Some(m) => Ok(m),
                None => Err(OutOfRange(value)),
            }),
    {
        match Mark::from_code(value) {
            Some(m) => Ok(m),
            None => Err(OutOfRange(value)),
        }
    }
}

impl TryFrom<u8> for Tone {
    type Error = OutOfRange;

    fn try_from(value: u8) -> (r: Result<Self, Self::Error>)
        ensures
            r == (match tone_of_code(value) {
                Some(t) => Ok(t),
                None => Err(OutOfRange(value)),
            }),
    {
        match Tone::from_code(value) {
            Some(t) => Ok(t),
            None => Err(OutOfRange(value)),
        }
    }
}

impl vstd::std_specs::convert::TryFromSpecImpl<u8> for Mark {
    open spec fn obeys_try_from_spec() -> bool {
        true
    }

    open spec fn try_from_spec(v: u8) -> Result<Self, OutOfRange> {
        match mark_of_code(v) {
            Some(m) => Ok(m),
            None => Err(OutOfRange(v)),
        }
    }
}

impl vstd::std_specs::convert::TryFromSpecImpl<u8> for Tone {
    open spec fn obeys_try_from_spec() -> bool {
        true
    }

    open spec fn try_from_spec(v: u8) -> Result<Self, OutOfRange> {
        match tone_of_code(v) {
            Some(t) => Ok(t),
            None => Err(OutOfRange(v)),
        }
    }
}

/// The scalar part of a rule: everything but its appended rules.
#[derive(Clone, Copy, PartialEq, Eq, Structural, Debug)]
pub struct RuleHead {
    pub key: char,
    pub effect: u8,
    pub effect_type: EffectType,
    pub effect_on: char,
    pub result: char,
}

/// A single transformation rule keyed on an input character.
///
/// `effect` holds either a [`Tone`] or a [`Mark`] as a raw byte, interpreted
/// according to `effect_type`.
#[derive(PartialEq, Eq, Debug, Default)]
pub struct Rule {
    pub key: char,
    pub effect: u8,
    pub effect_type: EffectType,
    pub effect_on: char,
    pub result: char,
    pub appended_rules: Vec<Rule>,
}

impl View for Rule {
    type V = RuleHead;

    open spec fn view(&self) -> RuleHead {
        RuleHead {
            key: self.key,
            effect: self.effect,
            effect_type: self.effect_type,
            effect_on: self.effect_on,
            result: self.result,
        }
    }
}

/// The heads of a sequence of rules.
pub open spec fn heads(rules: Seq<Rule>) -> Seq<RuleHead> {
    rules.map_values(|r: Rule| r@)
}

/// The value of a rule the composition logic reads: its head and the heads
/// of its appended rules.
pub struct RuleV {
    pub head: RuleHead,
    pub appended: Seq<RuleHead>,
}

/// The values of a sequence of rules.
pub open spec fn rv(rules: Seq<Rule>) -> Seq<RuleV> {
    rules.map_values(|r: Rule| RuleV { head: r@, appended: r.appended() })
}

/// Whether two rules have equal heads, as many appended rules, and their
/// first `n` appended rules the same all the way down.
pub open spec fn same_rule_upto(a: Rule, b: Rule, n: int) -> bool
    decreases a, n,
{
    if n <= 0 {
        a@ == b@ && a.appended_rules@.len() == b.appended_rules@.len()
    } else {
        &&& same_rule_upto(a, b, n - 1)
        &&& (n - 1 < a.appended_rules@.len() ==> {
            proof {
                assert(decreases_to!(a => a.appended_rules@[n - 1]));
            }
            same_rule_upto(
                a.appended_rules@[n - 1],
                b.appended_rules@[n - 1],
                a.appended_rules@[n - 1].appended_rules@.len() as int,
            )
        })
    }
}

/// Whether two rules are the same all the way down: equal heads and, in
/// order, the same appended rules.
pub open spec fn same_rule(a: Rule, b: Rule) -> bool {
    same_rule_upto(a, b, a.appended_rules@.len() as int)
}

/// Whether two sequences of rules are pairwise the same all the way down.
pub open spec fn same_rules(a: Seq<Rule>, b: Seq<Rule>) -> bool {
    &&& a.len() == b.len()
    &&& forall|i: int| 0 <= i < a.len() ==> #[trigger] same_rule(a[i], b[i])
}

proof fn lemma_same_rule_upto(a: Rule, b: Rule, n: int)
    requires
        0 <= n <= a.appended_rules@.len(),
    ensures
        same_rule_upto(a, b, n) <==> {
            &&& a@ == b@
            &&& a.appended_rules@.len() == b.appended_rules@.len()
            &&& forall|i: int| 0 <= i < n ==> #[trigger] same_rule(a.appended_rules@[i], b.appended_rules@[i])
        },
    decreases n,
{
    if n > 0 {
        lemma_same_rule_upto(a, b, n - 1);
        let c = a.appended_rules@[n - 1];
        let d = b.appended_rules@[n - 1];
        assert(decreases_to!(a => c));
        assert(same_rule_upto(a, b, n) == (same_rule_upto(a, b, n - 1) && same_rule(c, d)));
        if same_rule_upto(a, b, n - 1) && same_rule(c, d) {
            assert forall|i: int| 0 <= i < n implies #[trigger] same_rule(a.appended_rules@[i], b.appended_rules@[i]) by {
                if i < n - 1 {
                } else {
                    assert(i == n - 1);
                }
            }
        }
        if a@ == b@ && a.appended_rules@.len() == b.appended_rules@.len() && forall|i: int|
            0 <= i < n ==> #[trigger] same_rule(a.appended_rules@[i], b.appended_rules@[i]) {
            assert(same_rule(a.appended_rules@[n - 1], b.appended_rules@[n - 1]));
        }
    }
}

/// Two rules are the same exactly when their heads are equal and their
/// appended rules are pairwise the same.
pub proof fn lemma_same_rule_parts(a: Rule, b: Rule)
    ensures
        same_rule(a, b) <==> (a@ == b@ && same_rules(a.appended_rules@, b.appended_rules@)),
{
    lemma_same_rule_upto(a, b, a.appended_rules@.len() as int);
}

impl Rule {
    /// The heads of the rules appended after this one.
    pub open spec fn appended(&self) -> Seq<RuleHead> {
        heads(self.appended_rules@)
    }

    /// A rule with head `h` and no appended rules.
    pub fn from_head(h: RuleHead) -> (r: Rule)
        ensures
            r@ == h,
            r.appended_rules@.len() == 0,
    {
        Rule {
            key: h.key,
            effect: h.effect,
            effect_type: h.effect_type,
            effect_on: h.effect_on,
            result: h.result,
            appended_rules: Vec::new(),
        }
    }

    /// The head of this rule.
    pub fn head(&self) -> (r: RuleHead)
        ensures
            r == self@,
    {
        RuleHead {
            key: self.key,
            effect: self.effect,
            effect_type: self.effect_type,
            effect_on: self.effect_on,
            result: self.result,
        }
    }

    /// A copy of this rule, appended rules included, all the way down.
    pub fn duplicate(&self) -> (r: Rule)
        ensures
            r@ == self@,
            r.appended() == self.appended(),
            same_rule(r, *self),
        decreases self,
    {
        let mut appended: Vec<Rule> = Vec::new();
        let n = self.appended_rules.len();
        let mut i: usize = 0;
        while i < n
            invariant
                n == self.appended_rules@.len(),
                i <= n,
                appended@.len() == i,
                forall|j: int| 0 <= j < i ==> appended@[j]@ == self.appended_rules@[j]@,
                forall|j: int| 0 <= j < i ==> same_rule(#[trigger] appended@[j], self.appended_rules@[j]),
            decreases n - i,
        {
            assert(decreases_to!(self => self.appended_rules@[i as int]));
            let c = self.appended_rules[i].duplicate();
            appended.push(c);
            i += 1;
        }
        let r = Rule {
            key: self.key,
            effect: self.effect,
            effect_type: self.effect_type,
            effect_on: self.effect_on,
            result: self.result,
            appended_rules: appended,
        };
        assert(r.appended() =~= self.appended());
        proof {
            lemma_same_rule_parts(r, *self);
        }
        r
    }

    pub fn set_tone(&mut self, tone: Tone)
        ensures
            final(self)@ == (RuleHead { effect: tone_code(tone), ..old(self)@ }),
            final(self).appended() == old(self).appended(),
            final(self).appended_rules@ == old(self).appended_rules@,
    {
        self.effect = tone.code();
    }

    pub fn set_mark(&mut self, mark: Mark)
        ensures
            final(self)@ == (RuleHead { effect: mark_code(mark), ..old(self)@ }),
            final(self).appended() == old(self).appended(),
            final(self).appended_rules@ == old(self).appended_rules@,
    {
        self.effect = mark.code();
    }

    pub fn tone(&self) -> (r: Tone)
        ensures
            r == tone_or_none(self.effect),
    {
        Tone::from_code_or_none(self.effect)
    }

    pub fn mark(&self) -> (r: Mark)
        ensures
            r == mark_or_none(self.effect),
    {
        match Mark::from_code(self.effect) {
            Some(m) => m,
            None => Mark::NoMark,
        }
    }
}

impl Clone for Rule {
    fn clone(&self) -> (r: Self)
        ensures
            r@ == self@,
            r.appended() == self.appended(),
            same_rule(r, *self),
    {
        self.duplicate()
    }
}

/// Storing a tone and reading it back gives the stored tone.
pub proof fn law_tone_code_roundtrip(t: Tone)
    ensures
        tone_of_code(tone_code(t)) == Some(t),
        tone_or_none(tone_code(t)) == t,
{
}

/// Storing a mark and reading it back gives the stored mark.
pub proof fn law_mark_code_roundtrip(m: Mark)
    ensures
        mark_of_code(mark_code(m)) == Some(m),
        mark_or_none(mark_code(m)) == m,
{
}

/// Exactly the bytes `0..=5` are tone and mark codes, and decoding them
/// inverts encoding.
pub proof fn law_codes_are_exactly_0_to_5(v: u8)
    ensures
        (tone_of_code(v) is Some) <==> v <= 5,
        (mark_of_code(v) is Some) <==> v <= 5,
        v <= 5 ==> tone_code(tone_of_code(v).unwrap()) == v,
        v <= 5 ==> mark_code(mark_of_code(v).unwrap()) == v,
{
}

} // verus!
