//! The built-in input-method layouts and the builder that compiles a
//! definition into an [`InputMethod`].
use vstd::prelude::*;
use crate::generate::rules_wf;
use crate::parser::{append_rules, lemma_rules_wf_add, parse_rules, parse_rules_spec};
use crate::rules::{rv, EffectType, Rule, RuleV};
use crate::text::{chars_eq, chars_of, lowercase_str, str_to_lowercase};

verus! {

/// A compiled input method: its rules plus the key classifications the engine
/// needs at runtime.
#[derive(Debug, Default)]
pub struct InputMethod {
    pub name: String,
    pub rules: Vec<Rule>,
    /// Keys whose definition involves the `uo` cluster (drive the `uow`
    /// shortcut).
    pub super_keys: Vec<char>,
    /// Keys that apply a tone.
    pub tone_keys: Vec<char>,
    /// Keys that append a character.
    pub appending_keys: Vec<char>,
    /// Every key the method binds.
    pub keys: Vec<char>,
}

/// The value of an input method that the composition logic reads.
pub struct InputMethodV {
    pub name: Seq<char>,
    pub rules: Seq<RuleV>,
    pub super_keys: Seq<char>,
    pub tone_keys: Seq<char>,
    pub appending_keys: Seq<char>,
    pub keys: Seq<char>,
}

impl View for InputMethod {
    type V = InputMethodV;

    open spec fn view(&self) -> InputMethodV {
        InputMethodV {
            name: self.name@,
            rules: rv(self.rules@),
            super_keys: self.super_keys@,
            tone_keys: self.tone_keys@,
            appending_keys: self.appending_keys@,
            keys: self.keys@,
        }
    }
}

/// The first character of the key of definition pair `i`.
pub open spec fn def_key(d: Seq<(&str, &str)>, i: int) -> char {
    d[i].0@[0]
}

/// The rules of the first `i` definition pairs, in order.
pub open spec fn def_rules(d: Seq<(&str, &str)>, i: int) -> Seq<RuleV>
    decreases i,
{
    if i <= 0 {
        Seq::empty()
    } else {
        def_rules(d, i - 1) + parse_rules_spec(def_key(d, i - 1), d[i - 1].1@)
    }
}

/// Whether the text holds `uo`.
pub open spec fn has_uo(s: Seq<char>) -> bool {
    exists|j: int| 0 <= j && j + 1 < s.len() && #[trigger] s[j] == 'u' && s[j + 1] == 'o'
}

/// The keys of the first `i` definition pairs whose lowercased line holds `uo`.
pub open spec fn def_super_keys(d: Seq<(&str, &str)>, i: int) -> Seq<char>
    decreases i,
{
    if i <= 0 {
        Seq::empty()
    } else {
        let p = def_super_keys(d, i - 1);
        if has_uo(lowercase_str(d[i - 1].1@)) {
            p.push(def_key(d, i - 1))
        } else {
            p
        }
    }
}

/// The keys of the first `i` definition pairs.
pub open spec fn def_keys(d: Seq<(&str, &str)>, i: int) -> Seq<char>
    decreases i,
{
    if i <= 0 {
        Seq::empty()
    } else {
        def_keys(d, i - 1).push(def_key(d, i - 1))
    }
}

/// The key of every rule of effect type `ty`, in rule order.
pub open spec fn keys_of_type(rules: Seq<RuleV>, ty: EffectType) -> Seq<char>
    decreases rules.len(),
{
    if rules.len() == 0 {
        Seq::empty()
    } else {
        let p = keys_of_type(rules.drop_last(), ty);
        if rules.last().head.effect_type == ty {
            p.push(rules.last().head.key)
        } else {
            p
        }
    }
}

/// The input method compiled from a definition: the rules of every line in
/// order, the keys whose line mentions `uo`, the keys of the tone and
/// appending rules, and every key.
pub open spec fn build_spec(name: Seq<char>, d: Seq<(&str, &str)>) -> InputMethodV {
    let rules = def_rules(d, d.len() as int);
    InputMethodV {
        name,
        rules,
        super_keys: def_super_keys(d, d.len() as int),
        tone_keys: keys_of_type(rules, EffectType::ToneTransformation),
        appending_keys: keys_of_type(rules, EffectType::Appending),
        keys: def_keys(d, d.len() as int),
    }
}

fn contains_uo(s: &[char]) -> (r: bool)
    ensures
        r == has_uo(s@),
{
    let mut i: usize = 0;
    while i < s.len() && s.len() - i > 1
        invariant
            i <= s@.len(),
            forall|j: int| 0 <= j < i && j + 1 < s@.len() ==> !(#[trigger] s@[j] == 'u' && s@[j + 1] == 'o'),
        decreases s@.len() - i,
    {
        if s[i] == 'u' && s[i + 1] == 'o' {
            return true;
        }
        i += 1;
    }
    false
}

/// Compile an arbitrary input-method definition into an [`InputMethod`].
///
/// `definition` is a list of `(key, rule-line)` pairs in the same language
/// the built-in layouts use, letting callers build user-defined layouts
/// loaded from configuration.
pub fn build_input_method(name: &str, definition: &[(&str, &str)]) -> (r: InputMethod)
    requires
        forall|i: int| 0 <= i < definition@.len() ==> (#[trigger] definition@[i]).0@.len() > 0,
    ensures
        r@ == build_spec(name@, definition@),
        rules_wf(r@.rules),
{
    let ghost d = definition@;
    let mut rules: Vec<Rule> = Vec::new();
    let mut super_keys: Vec<char> = Vec::new();
    let mut keys: Vec<char> = Vec::new();
    assert(rv(rules@) =~= Seq::<RuleV>::empty());
    let mut i: usize = 0;
    while i < definition.len()
        invariant
            d == definition@,
            i <= d.len(),
            forall|j: int| 0 <= j < d.len() ==> (#[trigger] d[j]).0@.len() > 0,
            rv(rules@) == def_rules(d, i as int),
            rules_wf(rv(rules@)),
            super_keys@ == def_super_keys(d, i as int),
            keys@ == def_keys(d, i as int),
        decreases d.len() - i,
    {
        let (key_str, line) = definition[i];
        let key_chars = chars_of(key_str);
        assert(d[i as int].0@.len() > 0);
        let key = key_chars[0];
        let more = parse_rules(key, line);
        proof {
            lemma_rules_wf_add(rv(rules@), rv(more@));
        }
        append_rules(&mut rules, more);
        let lower_s = str_to_lowercase(line);
        let lower = chars_of(lower_s.as_str());
        if contains_uo(lower.as_slice()) {
            super_keys.push(key);
        }
        keys.push(key);
        i += 1;
    }
    let mut tone_keys: Vec<char> = Vec::new();
    let mut appending_keys: Vec<char> = Vec::new();
    let ghost all = rv(rules@);
    let mut k: usize = 0;
    while k < rules.len()
        invariant
            all == rv(rules@),
            k <= all.len(),
            tone_keys@ == keys_of_type(all.subrange(0, k as int), EffectType::ToneTransformation),
            appending_keys@ == keys_of_type(all.subrange(0, k as int), EffectType::Appending),
        decreases all.len() - k,
    {
        proof {
            assert(all.subrange(0, k + 1).drop_last() =~= all.subrange(0, k as int));
            assert(all.subrange(0, k + 1).last() == all[k as int]);
        }
        match rules[k].effect_type {
            EffectType::Appending => appending_keys.push(rules[k].key),
            EffectType::ToneTransformation => tone_keys.push(rules[k].key),
            _ => {},
        }
        k += 1;
    }
    assert(all.subrange(0, all.len() as int) =~= all);
    InputMethod { name: name.to_owned(), rules, super_keys, tone_keys, appending_keys, keys }
}
/// The names of the built-in layouts, in declaration order.
pub const LAYOUT_NAMES: [&'static str; 11] = [
    "Telex",
    "VNI",
    "VIQR",
    "Microsoft layout",
    "Telex 2",
    "Telex + VNI",
    "Telex + VNI + VIQR",
    "VNI Bàn phím tiếng Pháp",
    "Telex W",
    "VNI (AZERTY)",
    "VNI (AZERTY, AFNOR)",
];

/// The `Telex` layout.
pub const TELEX: [(&'static str, &'static str); 11] = [
    ("z", "XoáDấuThanh"),
    ("s", "DấuSắc"),
    ("f", "DấuHuyền"),
    ("r", "DấuHỏi"),
    ("x", "DấuNgã"),
    ("j", "DấuNặng"),
    ("a", "A_Â"),
    ("e", "E_Ê"),
    ("o", "O_Ô"),
    ("w", "UOA_ƯƠĂ"),
    ("d", "D_Đ"),
];

/// The `VNI` layout.
pub const VNI: [(&'static str, &'static str); 10] = [
    ("0", "XoáDấuThanh"),
    ("1", "DấuSắc"),
    ("2", "DấuHuyền"),
    ("3", "DấuHỏi"),
    ("4", "DấuNgã"),
    ("5", "DấuNặng"),
    ("6", "AEO_ÂÊÔ"),
    ("7", "UO_ƯƠ"),
    ("8", "A_Ă"),
    ("9", "D_Đ"),
];

/// The `VIQR` layout.
pub const VIQR: [(&'static str, &'static str); 11] = [
    ("0", "XoáDấuThanh"),
    ("'", "DấuSắc"),
    ("`", "DấuHuyền"),
    ("?", "DấuHỏi"),
    ("~", "DấuNgã"),
    (".", "DấuNặng"),
    ("^", "AEO_ÂÊÔ"),
    ("+", "UO_ƯƠ"),
    ("*", "UO_ƯƠ"),
    ("(", "A_Ă"),
    ("d", "D_Đ"),
];

/// The `Microsoft layout` layout.
pub const MICROSOFT: [(&'static str, &'static str); 19] = [
    ("8", "DấuSắc"),
    ("5", "DấuHuyền"),
    ("6", "DấuHỏi"),
    ("7", "DấuNgã"),
    ("9", "DấuNặng"),
    ("1", "__ă"),
    ("!", "_Ă"),
    ("2", "__â"),
    ("@", "_Â"),
    ("3", "__ê"),
    ("#", "_Ê"),
    ("4", "__ô"),
    ("$", "_Ô"),
    ("0", "__đ"),
    (")", "_Đ"),
    ("[", "__ư"),
    ("{", "_Ư"),
    ("]", "__ơ"),
    ("}", "_Ơ"),
];

/// The `Telex 2` layout.
pub const TELEX_2: [(&'static str, &'static str); 15] = [
    ("z", "XoáDấuThanh"),
    ("s", "DấuSắc"),
    ("f", "DấuHuyền"),
    ("r", "DấuHỏi"),
    ("x", "DấuNgã"),
    ("j", "DấuNặng"),
    ("a", "A_Â"),
    ("e", "E_Ê"),
    ("o", "O_Ô"),
    ("w", "UOA_ƯƠĂ__Ư"),
    ("d", "D_Đ"),
    ("]", "__ư"),
    ("[", "__ơ"),
    ("}", "_Ư"),
    ("{", "_Ơ"),
];

/// The `Telex + VNI` layout.
pub const TELEX_VNI: [(&'static str, &'static str); 21] = [
    ("z", "XoáDấuThanh"),
    ("s", "DấuSắc"),
    ("f", "DấuHuyền"),
    ("r", "DấuHỏi"),
    ("x", "DấuNgã"),
    ("j", "DấuNặng"),
    ("a", "A_Â"),
    ("e", "E_Ê"),
    ("o", "O_Ô"),
    ("w", "UOA_ƯƠĂ"),
    ("d", "D_Đ"),
    ("0", "XoáDấuThanh"),
    ("1", "DấuSắc"),
    ("2", "DấuHuyền"),
    ("3", "DấuHỏi"),
    ("4", "DấuNgã"),
    ("5", "DấuNặng"),
    ("6", "AEO_ÂÊÔ"),
    ("7", "UO_ƯƠ"),
    ("8", "A_Ă"),
    ("9", "D_Đ"),
];

/// The `Telex + VNI + VIQR` layout.
pub const TELEX_VNI_VIQR: [(&'static str, &'static str); 31] = [
    ("z", "XoáDấuThanh"),
    ("s", "DấuSắc"),
    ("f", "DấuHuyền"),
    ("r", "DấuHỏi"),
    ("x", "DấuNgã"),
    ("j", "DấuNặng"),
    ("a", "A_Â"),
    ("e", "E_Ê"),
    ("o", "O_Ô"),
    ("w", "UOA_ƯƠĂ"),
    ("d", "D_Đ"),
    ("0", "XoáDấuThanh"),
    ("1", "DấuSắc"),
    ("2", "DấuHuyền"),
    ("3", "DấuHỏi"),
    ("4", "DấuNgã"),
    ("5", "DấuNặng"),
    ("6", "AEO_ÂÊÔ"),
    ("7", "UO_ƯƠ"),
    ("8", "A_Ă"),
    ("9", "D_Đ"),
    ("'", "DấuSắc"),
    ("`", "DấuHuyền"),
    ("?", "DấuHỏi"),
    ("~", "DấuNgã"),
    (".", "DấuNặng"),
    ("^", "AEO_ÂÊÔ"),
    ("+", "UO_ƯƠ"),
    ("*", "UO_ƯƠ"),
    ("(", "A_Ă"),
    ("\\", "D_Đ"),
];

/// The `VNI Bàn phím tiếng Pháp` layout.
pub const VNI_FRENCH: [(&'static str, &'static str); 10] = [
    ("&", "XoáDấuThanh"),
    ("é", "DấuSắc"),
    ("\"", "DấuHuyền"),
    ("'", "DấuHỏi"),
    ("(", "DấuNgã"),
    ("-", "DấuNặng"),
    ("è", "AEO_ÂÊÔ"),
    ("_", "UO_ƯƠ"),
    ("ç", "A_Ă"),
    ("à", "D_Đ"),
];

/// The `Telex W` layout.
pub const TELEX_W: [(&'static str, &'static str); 11] = [
    ("z", "XoáDấuThanh"),
    ("s", "DấuSắc"),
    ("f", "DấuHuyền"),
    ("r", "DấuHỏi"),
    ("x", "DấuNgã"),
    ("j", "DấuNặng"),
    ("a", "A_Â"),
    ("e", "E_Ê"),
    ("o", "O_Ô"),
    ("w", "UOA_ƯƠĂ__Ư"),
    ("d", "D_Đ"),
];

/// The `VNI (AZERTY)` layout.
pub const VNI_AZERTY: [(&'static str, &'static str); 10] = [
    ("&", "XoáDấuThanh"),
    ("é", "DấuSắc"),
    ("\"", "DấuHuyền"),
    ("'", "DấuHỏi"),
    ("(", "DấuNgã"),
    ("-", "DấuNặng"),
    ("è", "AEO_ÂÊÔ"),
    ("_", "UO_ƯƠ"),
    ("ç", "A_Ă"),
    ("à", "D_Đ"),
];

/// The `VNI (AZERTY, AFNOR)` layout.
pub const VNI_AFNOR: [(&'static str, &'static str); 10] = [
    ("&", "XoáDấuThanh"),
    ("é", "DấuSắc"),
    ("è", "DấuHuyền"),
    (")", "DấuHỏi"),
    ("(", "DấuNgã"),
    ("-", "DấuNặng"),
    ("ê", "AEO_ÂÊÔ"),
    ("«", "UO_ƯƠ"),
    ("»", "A_Ă"),
    ("à", "D_Đ"),
];

/// The definition of built-in layout `i` (in declaration order).
pub open spec fn layout_pairs(i: int) -> Seq<(&'static str, &'static str)> {
    if i == 0 {
        TELEX@
    } else if i == 1 {
        VNI@
    } else if i == 2 {
        VIQR@
    } else if i == 3 {
        MICROSOFT@
    } else if i == 4 {
        TELEX_2@
    } else if i == 5 {
        TELEX_VNI@
    } else if i == 6 {
        TELEX_VNI_VIQR@
    } else if i == 7 {
        VNI_FRENCH@
    } else if i == 8 {
        TELEX_W@
    } else if i == 9 {
        VNI_AZERTY@
    } else if i == 10 {
        VNI_AFNOR@
    } else {
        Seq::empty()
    }
}

/// Builds built-in layout `i` under the name `name`.
fn build_layout(name: &str, i: usize) -> (r: InputMethod)
    requires
        i < LAYOUT_NAMES@.len(),
    ensures
        r@ == build_spec(name@, layout_pairs(i as int)),
        rules_wf(r@.rules),
{
    if i == 0 {
        let d = TELEX;
        proof {
            reveal_strlit("z");
            reveal_strlit("s");
            reveal_strlit("f");
            reveal_strlit("r");
            reveal_strlit("x");
            reveal_strlit("j");
            reveal_strlit("a");
            reveal_strlit("e");
            reveal_strlit("o");
            reveal_strlit("w");
            reveal_strlit("d");
        }
        build_input_method(name, d.as_slice())
    } else if i == 1 {
        let d = VNI;
        proof {
            reveal_strlit("0");
            reveal_strlit("1");
            reveal_strlit("2");
            reveal_strlit("3");
            reveal_strlit("4");
            reveal_strlit("5");
            reveal_strlit("6");
            reveal_strlit("7");
            reveal_strlit("8");
            reveal_strlit("9");
        }
        build_input_method(name, d.as_slice())
    } else if i == 2 {
        let d = VIQR;
        proof {
            reveal_strlit("0");
            reveal_strlit("'");
            reveal_strlit("`");
            reveal_strlit("?");
            reveal_strlit("~");
            reveal_strlit(".");
            reveal_strlit("^");
            reveal_strlit("+");
            reveal_strlit("*");
            reveal_strlit("(");
            reveal_strlit("d");
        }
        build_input_method(name, d.as_slice())
    } else if i == 3 {
        let d = MICROSOFT;
        proof {
            reveal_strlit("8");
            reveal_strlit("5");
            reveal_strlit("6");
            reveal_strlit("7");
            reveal_strlit("9");
            reveal_strlit("1");
            reveal_strlit("!");
            reveal_strlit("2");
            reveal_strlit("@");
            reveal_strlit("3");
            reveal_strlit("#");
            reveal_strlit("4");
            reveal_strlit("$");
            reveal_strlit("0");
            reveal_strlit(")");
            reveal_strlit("[");
            reveal_strlit("{");
            reveal_strlit("]");
            reveal_strlit("}");
        }
        build_input_method(name, d.as_slice())
    } else if i == 4 {
        let d = TELEX_2;
        proof {
            reveal_strlit("z");
            reveal_strlit("s");
            reveal_strlit("f");
            reveal_strlit("r");
            reveal_strlit("x");
            reveal_strlit("j");
            reveal_strlit("a");
            reveal_strlit("e");
            reveal_strlit("o");
            reveal_strlit("w");
            reveal_strlit("d");
            reveal_strlit("]");
            reveal_strlit("[");
            reveal_strlit("}");
            reveal_strlit("{");
        }
        build_input_method(name, d.as_slice())
    } else if i == 5 {
        let d = TELEX_VNI;
        proof {
            reveal_strlit("z");
            reveal_strlit("s");
            reveal_strlit("f");
            reveal_strlit("r");
            reveal_strlit("x");
            reveal_strlit("j");
            reveal_strlit("a");
            reveal_strlit("e");
            reveal_strlit("o");
            reveal_strlit("w");
            reveal_strlit("d");
            reveal_strlit("0");
            reveal_strlit("1");
            reveal_strlit("2");
            reveal_strlit("3");
            reveal_strlit("4");
            reveal_strlit("5");
            reveal_strlit("6");
            reveal_strlit("7");
            reveal_strlit("8");
            reveal_strlit("9");
        }
        build_input_method(name, d.as_slice())
    } else if i == 6 {
        let d = TELEX_VNI_VIQR;
        proof {
            reveal_strlit("z");
            reveal_strlit("s");
            reveal_strlit("f");
            reveal_strlit("r");
            reveal_strlit("x");
            reveal_strlit("j");
            reveal_strlit("a");
            reveal_strlit("e");
            reveal_strlit("o");
            reveal_strlit("w");
            reveal_strlit("d");
            reveal_strlit("0");
            reveal_strlit("1");
            reveal_strlit("2");
            reveal_strlit("3");
            reveal_strlit("4");
            reveal_strlit("5");
            reveal_strlit("6");
            reveal_strlit("7");
            reveal_strlit("8");
            reveal_strlit("9");
            reveal_strlit("'");
            reveal_strlit("`");
            reveal_strlit("?");
            reveal_strlit("~");
            reveal_strlit(".");
            reveal_strlit("^");
            reveal_strlit("+");
            reveal_strlit("*");
            reveal_strlit("(");
            reveal_strlit("\\");
        }
        build_input_method(name, d.as_slice())
    } else if i == 7 {
        let d = VNI_FRENCH;
        proof {
            reveal_strlit("&");
            reveal_strlit("é");
            reveal_strlit("\"");
            reveal_strlit("'");
            reveal_strlit("(");
            reveal_strlit("-");
            reveal_strlit("è");
            reveal_strlit("_");
            reveal_strlit("ç");
            reveal_strlit("à");
        }
        build_input_method(name, d.as_slice())
    } else if i == 8 {
        let d = TELEX_W;
        proof {
            reveal_strlit("z");
            reveal_strlit("s");
            reveal_strlit("f");
            reveal_strlit("r");
            reveal_strlit("x");
            reveal_strlit("j");
            reveal_strlit("a");
            reveal_strlit("e");
            reveal_strlit("o");
            reveal_strlit("w");
            reveal_strlit("d");
        }
        build_input_method(name, d.as_slice())
    } else if i == 9 {
        let d = VNI_AZERTY;
        proof {
            reveal_strlit("&");
            reveal_strlit("é");
            reveal_strlit("\"");
            reveal_strlit("'");
            reveal_strlit("(");
            reveal_strlit("-");
            reveal_strlit("è");
            reveal_strlit("_");
            reveal_strlit("ç");
            reveal_strlit("à");
        }
        build_input_method(name, d.as_slice())
    } else {
        let d = VNI_AFNOR;
        proof {
            reveal_strlit("&");
            reveal_strlit("é");
            reveal_strlit("è");
            reveal_strlit(")");
            reveal_strlit("(");
            reveal_strlit("-");
            reveal_strlit("ê");
            reveal_strlit("«");
            reveal_strlit("»");
            reveal_strlit("à");
        }
        build_input_method(name, d.as_slice())
    }
}

/// The index of the built-in layout named `name` among the first `n`, if any.
pub open spec fn layout_scan(name: Seq<char>, n: int) -> Option<int>
    decreases n,
{
    if n <= 0 {
        None
    } else {
        match layout_scan(name, n - 1) {
            Some(i) => Some(i),
            None => if LAYOUT_NAMES@[n - 1]@ == name {
                Some(n - 1)
            } else {
                None
            },
        }
    }
}

/// The index of the built-in layout named `name`, if any.
pub open spec fn layout_index(name: Seq<char>) -> Option<int> {
    layout_scan(name, LAYOUT_NAMES@.len() as int)
}

proof fn lemma_layout_scan(name: Seq<char>, n: int)
    requires
        0 <= n <= LAYOUT_NAMES@.len(),
    ensures
        layout_scan(name, n) matches Some(i) ==> 0 <= i < n && LAYOUT_NAMES@[i]@ == name,
        layout_scan(name, n) is None ==> forall|j: int| 0 <= j < n ==> (#[trigger] LAYOUT_NAMES@[j])@ != name,
    decreases n,
{
    if n > 0 {
        lemma_layout_scan(name, n - 1);
    }
}

/// The names of every built-in input method, in declaration order.
pub fn input_method_names() -> (r: Vec<&'static str>)
    ensures
        r@ == LAYOUT_NAMES@,
{
    let names = LAYOUT_NAMES;
    let mut out: Vec<&'static str> = Vec::new();
    let mut i: usize = 0;
    while i < names.len()
        invariant
            names@ == LAYOUT_NAMES@,
            i <= names@.len(),
            out@ == names@.subrange(0, i as int),
        decreases names@.len() - i,
    {
        out.push(names[i]);
        i += 1;
    }
    assert(out@ =~= names@);
    out
}

/// Compile the named built-in input method, or `None` if it is not built in.
pub fn parse_input_method(name: &str) -> (r: Option<InputMethod>)
    ensures
        r is None <==> layout_index(name@) is None,
        r matches Some(im) ==> layout_index(name@) matches Some(i) && im@ == build_spec(name@, layout_pairs(i)),
        r matches Some(im) ==> rules_wf(im@.rules),
{
    let wanted = chars_of(name);
    let names = LAYOUT_NAMES;
    let mut i: usize = 0;
    while i < names.len()
        invariant
            names@ == LAYOUT_NAMES@,
            wanted@ == name@,
            i <= names@.len(),
            layout_index(name@) == layout_scan(name@, i as int) || layout_scan(name@, i as int) is None,
            layout_scan(name@, i as int) is None,
        decreases names@.len() - i,
    {
        let candidate = chars_of(names[i]);
        if chars_eq(candidate.as_slice(), wanted.as_slice()) {
            proof {
                lemma_layout_scan(name@, i as int);
                lemma_layout_scan_from(name@, i as int + 1);
            }
            return Some(build_layout(name, i));
        }
        i += 1;
    }
    None
}

/// A name of a built-in layout is found.
pub proof fn lemma_layout_found(name: Seq<char>)
    ensures
        (exists|j: int| 0 <= j < LAYOUT_NAMES@.len() && (#[trigger] LAYOUT_NAMES@[j])@ == name) ==> layout_index(
            name,
        ) is Some,
{
    lemma_layout_scan(name, LAYOUT_NAMES@.len() as int);
}

/// `Telex` is a built-in layout, the first one.
pub proof fn lemma_telex_is_built_in()
    ensures
        layout_index("Telex"@) == Some(0int),
{
    assert(LAYOUT_NAMES@[0]@ == "Telex"@);
    assert(layout_scan("Telex"@, 0) is None);
    assert(layout_scan("Telex"@, 1) == Some(0int));
    lemma_layout_scan_from_keep("Telex"@, 1, LAYOUT_NAMES@.len() as int);
}

/// A scan that found nothing in the first `n` finds `n`'s match later on.
proof fn lemma_layout_scan_from(name: Seq<char>, n: int)
    requires
        1 <= n <= LAYOUT_NAMES@.len(),
        layout_scan(name, n - 1) is None,
        LAYOUT_NAMES@[n - 1]@ == name,
    ensures
        layout_index(name) == Some(n - 1),
    decreases LAYOUT_NAMES@.len() - n,
{
    if n < LAYOUT_NAMES@.len() {
        lemma_layout_scan_from_keep(name, n, LAYOUT_NAMES@.len() as int);
    }
}

/// Once a scan has found a match, scanning further keeps it.
proof fn lemma_layout_scan_from_keep(name: Seq<char>, n: int, m: int)
    requires
        1 <= n <= m <= LAYOUT_NAMES@.len(),
        layout_scan(name, n) == Some(n - 1),
    ensures
        layout_scan(name, m) == Some(n - 1),
    decreases m - n,
{
    if m > n {
        lemma_layout_scan_from_keep(name, n, m - 1);
    }
}

proof fn lemma_def_rules_keyed(d: Seq<(&str, &str)>, i: int)
    requires
        0 <= i <= d.len(),
    ensures
        forall|j: int| 0 <= j < def_rules(d, i).len() ==> def_keys(d, i).contains(#[trigger] def_rules(d, i)[j].head.key),
    decreases i,
{
    if i > 0 {
        lemma_def_rules_keyed(d, i - 1);
        let key = def_key(d, i - 1);
        let prev = def_rules(d, i - 1);
        let more = parse_rules_spec(key, d[i - 1].1@);
        crate::parser::law_parsed_rules_carry_key(key, d[i - 1].1@);
        let keys = def_keys(d, i);
        assert(keys == def_keys(d, i - 1).push(key));
        assert forall|j: int| 0 <= j < (prev + more).len() implies keys.contains(#[trigger] (prev + more)[j].head.key) by {
            if j < prev.len() {
                assert((prev + more)[j] == prev[j]);
                let k = def_keys(d, i - 1);
                let w = choose|w: int| 0 <= w < k.len() && k[w] == prev[j].head.key;
                assert(keys[w] == k[w]);
            } else {
                assert((prev + more)[j] == more[j - prev.len()]);
                assert(keys[keys.len() - 1] == key);
            }
        }
    }
}

/// Every rule of a compiled input method is bound to one of its keys.
pub proof fn law_rules_are_bound_to_keys(name: Seq<char>, d: Seq<(&str, &str)>)
    ensures
        forall|j: int|
            0 <= j < build_spec(name, d).rules.len() ==> build_spec(name, d).keys.contains(
                #[trigger] build_spec(name, d).rules[j].head.key,
            ),
{
    lemma_def_rules_keyed(d, d.len() as int);
}

} // verus!
