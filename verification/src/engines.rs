//! The IBus engines exposed, one per typing method.
//!
//! Each entry is a separate IBus input source, so the desktop switches between
//! methods (and remembers them per window) on its own; the engine name IBus
//! hands to `CreateEngine` maps back to a method. Engine names share the
//! `bambusa:` family prefix so the desktop resolves a single preferences entry
//! for all of them.
use vstd::prelude::*;

verus! {

/// `(ibus engine name, input method name)`. The method names are built-in
/// input methods.
pub const ENGINES: [(&'static str, &'static str); 8] = [
    ("bambusa:telex", "Telex"),
    ("bambusa:telexw", "Telex W"),
    ("bambusa:telex2", "Telex 2"),
    ("bambusa:vni", "VNI"),
    ("bambusa:viqr", "VIQR"),
    ("bambusa:microsoft", "Microsoft layout"),
    ("bambusa:vni-azerty", "VNI (AZERTY)"),
    ("bambusa:vni-afnor", "VNI (AZERTY, AFNOR)"),
];

/// The method of the first engine named `name` among the first `n` engines.
pub open spec fn engine_scan(name: Seq<char>, n: int) -> Option<int>
    decreases n,
{
    if n <= 0 {
        None
    } else {
        match engine_scan(name, n - 1) {
            Some(i) => Some(i),
            None => if ENGINES@[n - 1].0@ == name {
                Some(n - 1)
            } else {
                None
            },
        }
    }
}

/// The input method name for an IBus engine name: that of the first engine
/// so named, or `Telex`.
pub open spec fn method_for_engine_spec(name: Seq<char>) -> Seq<char> {
    match engine_scan(name, ENGINES@.len() as int) {
        Some(i) => ENGINES@[i].1@,
        None => "Telex"@,
    }
}

proof fn lemma_engine_scan_keeps(name: Seq<char>, n: int, m: int)
    requires
        1 <= n <= m <= ENGINES@.len(),
        engine_scan(name, n) == Some(n - 1),
    ensures
        engine_scan(name, m) == Some(n - 1),
    decreases m - n,
{
    if m > n {
        lemma_engine_scan_keeps(name, n, m - 1);
    }
}

/// The input method for an IBus engine name, defaulting to Telex.
pub fn method_for_engine(name: &str) -> (r: &'static str)
    ensures
        r@ == method_for_engine_spec(name@),
{
    let wanted = crate::text::chars_of(name);
    let engines = ENGINES;
    let mut i: usize = 0;
    while i < engines.len()
        invariant
            engines@ == ENGINES@,
            wanted@ == name@,
            i <= engines@.len(),
            engine_scan(name@, i as int) is None,
        decreases engines@.len() - i,
    {
        let (engine, method) = engines[i];
        let candidate = crate::text::chars_of(engine);
        if crate::text::chars_eq(candidate.as_slice(), wanted.as_slice()) {
            proof {
                lemma_engine_scan_keeps(name@, i + 1, ENGINES@.len() as int);
            }
            return method;
        }
        i += 1;
    }
    "Telex"
}

/// Every exposed engine maps to a built-in input method.
pub proof fn law_every_engine_method_is_built_in(i: int)
    requires
        0 <= i < ENGINES@.len(),
    ensures
        crate::input_method::layout_index(ENGINES@[i].1@) is Some,
{
    let n = crate::input_method::LAYOUT_NAMES@.len() as int;
    let names = crate::input_method::LAYOUT_NAMES@;
    assert(ENGINES@[0].1@ == names[0]@);
    assert(ENGINES@[1].1@ == names[8]@);
    assert(ENGINES@[2].1@ == names[4]@);
    assert(ENGINES@[3].1@ == names[1]@);
    assert(ENGINES@[4].1@ == names[2]@);
    assert(ENGINES@[5].1@ == names[3]@);
    assert(ENGINES@[6].1@ == names[9]@);
    assert(ENGINES@[7].1@ == names[10]@);
    crate::input_method::lemma_layout_found(ENGINES@[i].1@);
}

/// Upper bound on concurrently live engines. Normal use needs about one (IBus
/// creates one per input context and destroys it with the context); the cap
/// is a backstop against a caller that creates engines without destroying
/// them.
pub const MAX_LIVE_ENGINES: usize = 64;

/// Whether another engine may be created while `live` engines are alive.
pub fn may_create_engine(live: usize) -> (r: bool)
    ensures
        r == (live < MAX_LIVE_ENGINES),
{
    live < MAX_LIVE_ENGINES
}

/// Each exposed engine name maps to its own method: the names are distinct,
/// every engine name gives the method listed beside it, and any other name
/// gives Telex.
pub proof fn law_engine_names_map_to_their_methods()
    ensures
        forall|i: int, j: int|
            0 <= i < j < ENGINES@.len() ==> #[trigger] ENGINES@[i].0@ != #[trigger] ENGINES@[j].0@,
        forall|i: int| 0 <= i < ENGINES@.len() ==> #[trigger] method_for_engine_spec(ENGINES@[i].0@) == ENGINES@[i].1@,
        forall|name: Seq<char>|
            (forall|i: int| 0 <= i < ENGINES@.len() ==> #[trigger] ENGINES@[i].0@ != name) ==> #[trigger] method_for_engine_spec(
                name,
            ) == "Telex"@,
{
    reveal_strlit("bambusa:telex");
    reveal_strlit("bambusa:telexw");
    reveal_strlit("bambusa:telex2");
    reveal_strlit("bambusa:vni");
    reveal_strlit("bambusa:viqr");
    reveal_strlit("bambusa:microsoft");
    reveal_strlit("bambusa:vni-azerty");
    reveal_strlit("bambusa:vni-afnor");
    assert(ENGINES@[0].0@.len() != ENGINES@[1].0@.len());
    assert(ENGINES@[0].0@.len() != ENGINES@[2].0@.len());
    assert(ENGINES@[0].0@.len() != ENGINES@[3].0@.len());
    assert(ENGINES@[0].0@.len() != ENGINES@[4].0@.len());
    assert(ENGINES@[0].0@.len() != ENGINES@[5].0@.len());
    assert(ENGINES@[0].0@.len() != ENGINES@[6].0@.len());
    assert(ENGINES@[0].0@.len() != ENGINES@[7].0@.len());
    assert(ENGINES@[1].0@[13] != ENGINES@[2].0@[13]);
    assert(ENGINES@[1].0@.len() != ENGINES@[3].0@.len());
    assert(ENGINES@[1].0@.len() != ENGINES@[4].0@.len());
    assert(ENGINES@[1].0@.len() != ENGINES@[5].0@.len());
    assert(ENGINES@[1].0@.len() != ENGINES@[6].0@.len());
    assert(ENGINES@[1].0@.len() != ENGINES@[7].0@.len());
    assert(ENGINES@[2].0@.len() != ENGINES@[3].0@.len());
    assert(ENGINES@[2].0@.len() != ENGINES@[4].0@.len());
    assert(ENGINES@[2].0@.len() != ENGINES@[5].0@.len());
    assert(ENGINES@[2].0@.len() != ENGINES@[6].0@.len());
    assert(ENGINES@[2].0@.len() != ENGINES@[7].0@.len());
    assert(ENGINES@[3].0@.len() != ENGINES@[4].0@.len());
    assert(ENGINES@[3].0@.len() != ENGINES@[5].0@.len());
    assert(ENGINES@[3].0@.len() != ENGINES@[6].0@.len());
    assert(ENGINES@[3].0@.len() != ENGINES@[7].0@.len());
    assert(ENGINES@[4].0@.len() != ENGINES@[5].0@.len());
    assert(ENGINES@[4].0@.len() != ENGINES@[6].0@.len());
    assert(ENGINES@[4].0@.len() != ENGINES@[7].0@.len());
    assert(ENGINES@[5].0@.len() != ENGINES@[6].0@.len());
    assert(ENGINES@[5].0@[8] != ENGINES@[7].0@[8]);
    assert(ENGINES@[6].0@.len() != ENGINES@[7].0@.len());
    reveal_with_fuel(engine_scan, 9);
    assert forall|i: int| 0 <= i < ENGINES@.len() implies #[trigger] method_for_engine_spec(ENGINES@[i].0@)
        == ENGINES@[i].1@ by {
        assert(i == 0 || i == 1 || i == 2 || i == 3 || i == 4 || i == 5 || i == 6 || i == 7);
    }
    assert forall|name: Seq<char>| (forall|i: int| 0 <= i < ENGINES@.len() ==> #[trigger] ENGINES@[i].0@ != name)
        implies #[trigger] method_for_engine_spec(name) == "Telex"@ by {
        assert(ENGINES@[0].0@ != name);
        assert(ENGINES@[1].0@ != name);
        assert(ENGINES@[2].0@ != name);
        assert(ENGINES@[3].0@ != name);
        assert(ENGINES@[4].0@ != name);
        assert(ENGINES@[5].0@ != name);
        assert(ENGINES@[6].0@ != name);
        assert(ENGINES@[7].0@ != name);
    }
}

} // verus!
