//! User-defined text macros: `shortcut -> expansion` pairs, expanded on a word
//! break or Tab.
//!
//! With auto-capitalize on, keys are matched case-insensitively (stored and
//! looked up lowercased) and the expansion follows the typed case.
use vstd::prelude::*;
use crate::text::{
    chars_eq, chars_of, lowercase_str, split_lines, split_lines_spec, str_to_lowercase,
    string_from_chars, trim_chars, trim_spec, trim_start_spec, trim_end_spec, is_whitespace_char,
};

verus! {

/// A key as the table stores and looks it up.
pub open spec fn norm_key(auto_capitalize: bool, key: Seq<char>) -> Seq<char> {
    if auto_capitalize {
        lowercase_str(key)
    } else {
        key
    }
}

/// The table built from the first `n` `(shortcut, expansion)` pairs: pairs with
/// an empty part are skipped, and a later pair for the same key wins.
pub open spec fn table_of(entries: Seq<(Seq<char>, Seq<char>)>, auto_capitalize: bool, n: int) -> Map<
    Seq<char>,
    Seq<char>,
>
    decreases n,
{
    if n <= 0 {
        Map::empty()
    } else {
        let m = table_of(entries, auto_capitalize, n - 1);
        let (k, v) = entries[n - 1];
        if k.len() == 0 || v.len() == 0 {
            m
        } else {
            m.insert(norm_key(auto_capitalize, k), v)
        }
    }
}

/// The values of `(String, String)` pairs.
pub open spec fn string_pairs(entries: Seq<(String, String)>) -> Seq<(Seq<char>, Seq<char>)> {
    entries.map_values(|e: (String, String)| (e.0@, e.1@))
}

/// The values of `(&str, &str)` pairs.
pub open spec fn str_pairs(entries: Seq<(&str, &str)>) -> Seq<(Seq<char>, Seq<char>)> {
    entries.map_values(|e: (&str, &str)| (e.0@, e.1@))
}

/// The value of a macro table: whether keys are matched case-insensitively,
/// and the stored keys with their expansions.
pub struct MacroTableV {
    pub auto_capitalize: bool,
    pub table: Map<Seq<char>, Seq<char>>,
}

/// The expansion stored for `key` (normalised), if it is a non-empty one.
pub open spec fn lookup_spec(m: MacroTableV, key: Seq<char>) -> Option<Seq<char>> {
    let k = norm_key(m.auto_capitalize, key);
    if m.table.contains_key(k) && m.table[k].len() > 0 {
        Some(m.table[k])
    } else {
        None
    }
}

/// Whether `p` starts `k`.
pub open spec fn is_prefix_of(p: Seq<char>, k: Seq<char>) -> bool {
    p.len() <= k.len() && k.subrange(0, p.len() as int) == p
}

/// The position of the first key equal to `k`, scanning from `i`.
pub open spec fn key_scan(keys: Seq<Seq<char>>, k: Seq<char>, i: int) -> Option<int>
    decreases keys.len() - i,
{
    if i < 0 || i >= keys.len() {
        None
    } else if keys[i] == k {
        Some(i)
    } else {
        key_scan(keys, k, i + 1)
    }
}

proof fn lemma_key_scan(keys: Seq<Seq<char>>, k: Seq<char>, i: int)
    requires
        0 <= i,
    ensures
        key_scan(keys, k, i) matches Some(j) ==> i <= j < keys.len() && keys[j] == k,
        key_scan(keys, k, i) is None ==> forall|j: int| i <= j < keys.len() ==> keys[j] != k,
    decreases keys.len() - i,
{
    if i < keys.len() && keys[i] != k {
        lemma_key_scan(keys, k, i + 1);
    }
}

proof fn lemma_key_scan_push(keys: Seq<Seq<char>>, x: Seq<char>, k: Seq<char>, i: int)
    requires
        0 <= i <= keys.len(),
    ensures
        key_scan(keys.push(x), k, i) == match key_scan(keys, k, i) {
            Some(j) => Some(j),
            None => if x == k {
                Some(keys.len() as int)
            } else {
                None
            },
        },
    decreases keys.len() - i,
{
    if i < keys.len() {
        assert(keys.push(x)[i] == keys[i]);
        lemma_key_scan_push(keys, x, k, i + 1);
    } else {
        assert(keys.push(x)[i] == x);
        if x != k {
            assert(key_scan(keys.push(x), k, i + 1) is None);
        }
    }
}

/// User macros.
pub struct MacroTable {
    auto_capitalize: bool,
    entries: Vec<(Vec<char>, String)>,
}

impl MacroTable {
    spec fn key_seq(&self) -> Seq<Seq<char>> {
        self.entries@.map_values(|e: (Vec<char>, String)| e.0@)
    }

    pub closed spec fn auto(&self) -> bool {
        self.auto_capitalize
    }

    pub closed spec fn table(&self) -> Map<Seq<char>, Seq<char>> {
        Map::new(
            |k: Seq<char>| key_scan(self.key_seq(), k, 0) is Some,
            |k: Seq<char>| self.entries@[key_scan(self.key_seq(), k, 0).unwrap()].1@,
        )
    }
}

impl View for MacroTable {
    type V = MacroTableV;

    open spec fn view(&self) -> MacroTableV {
        MacroTableV { auto_capitalize: self.auto(), table: self.table() }
    }
}

impl MacroTable {
    /// An empty table (macros disabled).
    pub fn empty(auto_capitalize: bool) -> (r: MacroTable)
        ensures
            r@.auto_capitalize == auto_capitalize,
            r@.table == Map::<Seq<char>, Seq<char>>::empty(),
    {
        let r = MacroTable { auto_capitalize, entries: Vec::new() };
        assert(r.table() =~= Map::<Seq<char>, Seq<char>>::empty());
        r
    }

    /// The position of `key` among the stored keys.
    fn position(&self, key: &[char]) -> (r: Option<usize>)
        ensures
            r matches Some(i) ==> key_scan(self.key_seq(), key@, 0) == Some(i as int),
            r is None ==> key_scan(self.key_seq(), key@, 0) is None,
    {
        let mut i: usize = 0;
        while i < self.entries.len()
            invariant
                i <= self.entries@.len(),
                key_scan(self.key_seq(), key@, 0) == key_scan(self.key_seq(), key@, i as int),
            decreases self.entries@.len() - i,
        {
            if chars_eq(self.entries[i].0.as_slice(), key) {
                return Some(i);
            }
            i += 1;
        }
        None
    }

    /// Stores `value` for `key`, replacing an earlier expansion.
    fn insert(&mut self, key: Vec<char>, value: String)
        ensures
            final(self)@.auto_capitalize == old(self)@.auto_capitalize,
            final(self)@.table == old(self)@.table.insert(key@, value@),
    {
        let ghost keys0 = self.key_seq();
        let ghost t0 = self.table();
        match self.position(key.as_slice()) {
            Some(i) => {
                proof {
                    lemma_key_scan(keys0, key@, 0);
                }
                let ghost before = self.entries@;
                let ghost kv = key@;
                let ghost vv = value@;
                self.entries[i] = (key, value);
                assert forall|j: int| 0 <= j < self.key_seq().len() implies self.key_seq()[j] == keys0[j] by {
                    if j != i {
                        assert(self.entries@[j] == before[j]);
                    }
                }
                assert(self.key_seq() =~= keys0);
                assert(self.table() =~= t0.insert(kv, vv)) by {
                    assert forall|k: Seq<char>| #[trigger] self.table().contains_key(k) implies self.table()[k]
                        == t0.insert(kv, vv)[k] by {
                        lemma_key_scan(keys0, k, 0);
                        if k != kv {
                            assert(key_scan(keys0, k, 0) != Some(i as int));
                        }
                    }
                }
            },
            None => {
                let ghost kv = key@;
                proof {
                    assert forall|k: Seq<char>| true implies key_scan(keys0.push(kv), k, 0) == match key_scan(keys0, k, 0) {
                        Some(j) => Some(j),
                        None => if kv == k {
                            Some(keys0.len() as int)
                        } else {
                            None
                        },
                    } by {
                        lemma_key_scan_push(keys0, kv, k, 0);
                    }
                }
                let ghost vv = value@;
                self.entries.push((key, value));
                assert(self.key_seq() =~= keys0.push(kv));
                assert(self.table() =~= t0.insert(kv, vv)) by {
                    assert forall|k: Seq<char>| #[trigger] self.table().contains_key(k) implies self.table()[k]
                        == t0.insert(kv, vv)[k] by {
                        lemma_key_scan(keys0, k, 0);
                    }
                }
            },
        }
    }

    /// Build a table from `(shortcut, expansion)` pairs.
    pub fn from_entries(entries: &[(String, String)], auto_capitalize: bool) -> (r: MacroTable)
        ensures
            r@.auto_capitalize == auto_capitalize,
            r@.table == table_of(string_pairs(entries@), auto_capitalize, entries@.len() as int),
    {
        let ghost es = string_pairs(entries@);
        let mut t = MacroTable::empty(auto_capitalize);
        let mut i: usize = 0;
        while i < entries.len()
            invariant
                i <= entries@.len(),
                es == string_pairs(entries@),
                t@.auto_capitalize == auto_capitalize,
                t@.table == table_of(es, auto_capitalize, i as int),
            decreases entries@.len() - i,
        {
            let (key, value) = &entries[i];
            assert(es[i as int] == (key@, value@));
            let kc = chars_of(key.as_str());
            let vc = chars_of(value.as_str());
            if kc.len() > 0 && vc.len() > 0 {
                let norm = if auto_capitalize {
                    let lower = str_to_lowercase(key.as_str());
                    chars_of(lower.as_str())
                } else {
                    kc
                };
                t.insert(norm, string_from_chars(vc.as_slice()));
            }
            i += 1;
        }
        t
    }

    /// Build a table from `(shortcut, expansion)` string pairs.
    pub fn from_pairs(pairs: &[(&str, &str)], auto_capitalize: bool) -> (r: MacroTable)
        ensures
            r@.auto_capitalize == auto_capitalize,
            r@.table == table_of(str_pairs(pairs@), auto_capitalize, pairs@.len() as int),
    {
        let mut entries: Vec<(String, String)> = Vec::new();
        let mut i: usize = 0;
        while i < pairs.len()
            invariant
                i <= pairs@.len(),
                string_pairs(entries@) == str_pairs(pairs@).subrange(0, i as int),
            decreases pairs@.len() - i,
        {
            let (k, v) = pairs[i];
            let e = (k.to_owned(), v.to_owned());
            proof {
                assert(string_pairs(entries@.push(e)) =~= string_pairs(entries@).push((e.0@, e.1@)));
                assert(str_pairs(pairs@).subrange(0, i + 1) =~= str_pairs(pairs@).subrange(0, i as int).push(
                    (k@, v@),
                ));
            }
            entries.push(e);
            i += 1;
        }
        assert(str_pairs(pairs@).subrange(0, pairs@.len() as int) =~= str_pairs(pairs@));
        MacroTable::from_entries(entries.as_slice(), auto_capitalize)
    }

    /// The characters of `key` as the table stores keys.
    fn norm(&self, key: &str) -> (r: Vec<char>)
        ensures
            r@ == norm_key(self.auto_capitalize, key@),
    {
        if self.auto_capitalize {
            let lower = str_to_lowercase(key);
            chars_of(lower.as_str())
        } else {
            chars_of(key)
        }
    }

    /// The raw expansion for `key`, or `None` if there is no such macro.
    pub fn get(&self, key: &str) -> (r: Option<&str>)
        ensures
            r matches Some(s) ==> lookup_spec(self@, key@) == Some(s@),
            r is None ==> lookup_spec(self@, key@) is None,
    {
        let k = self.norm(key);
        match self.position(k.as_slice()) {
            Some(i) => {
                proof {
                    lemma_key_scan(self.key_seq(), k@, 0);
                }
                let v = self.entries[i].1.as_str();
                if v.unicode_len() > 0 {
                    Some(v)
                } else {
                    None
                }
            },
            None => None,
        }
    }

    pub fn has_key(&self, key: &str) -> (r: bool)
        ensures
            r == lookup_spec(self@, key@) is Some,
    {
        self.get(key).is_some()
    }

    /// Whether `key` is a macro key or the prefix of one (so the caller keeps
    /// buffering).
    pub fn has_prefix(&self, key: &str) -> (r: bool)
        ensures
            r == exists|k: Seq<char>| #[trigger] self@.table.contains_key(k) && is_prefix_of(norm_key(self@.auto_capitalize, key@), k),
    {
        let p = self.norm(key);
        let ghost ks = self.key_seq();
        let mut i: usize = 0;
        while i < self.entries.len()
            invariant
                i <= self.entries@.len(),
                ks == self.key_seq(),
                p@ == norm_key(self@.auto_capitalize, key@),
                forall|j: int| 0 <= j < i ==> !is_prefix_of(p@, #[trigger] ks[j]),
            decreases self.entries@.len() - i,
        {
            let k = self.entries[i].0.as_slice();
            if p.len() <= k.len() {
                let head = vstd::slice::slice_subrange(k, 0, p.len());
                if chars_eq(head, p.as_slice()) {
                    proof {
                        assert(ks[i as int] == k@);
                        assert(is_prefix_of(p@, ks[i as int]));
                        lemma_key_scan(ks, ks[i as int], 0);
                        assert(self@.table.contains_key(ks[i as int]));
                    }
                    return true;
                }
            }
            i += 1;
        }
        proof {
            assert forall|k: Seq<char>| #[trigger] self@.table.contains_key(k) implies !is_prefix_of(p@, k) by {
                lemma_key_scan(ks, k, 0);
            }
        }
        false
    }
}

/// The position of the first `:` in `s` from `i` on.
pub open spec fn colon_scan(s: Seq<char>, i: int) -> Option<int>
    decreases s.len() - i,
{
    if i < 0 || i >= s.len() {
        None
    } else if s[i] == ':' {
        Some(i)
    } else {
        colon_scan(s, i + 1)
    }
}

/// `s` split at its first `:` into its trimmed parts, if it has one.
pub open spec fn split_colon(s: Seq<char>) -> Option<(Seq<char>, Seq<char>)> {
    match colon_scan(s, 0) {
        Some(p) => Some((trim_spec(s.subrange(0, p)), trim_spec(s.subrange(p + 1, s.len() as int)))),
        None => None,
    }
}

/// The trimmed parts of `s` around its first `:`.
fn split_colon_exec(s: &[char]) -> (r: Option<(Vec<char>, Vec<char>)>)
    ensures
        r matches Some(kv) ==> split_colon(s@) == Some((kv.0@, kv.1@)),
        r is None ==> split_colon(s@) is None,
{
    let mut i: usize = 0;
    while i < s.len()
        invariant
            i <= s@.len(),
            colon_scan(s@, 0) == colon_scan(s@, i as int),
        decreases s@.len() - i,
    {
        if s[i] == ':' {
            let k = trim_chars(vstd::slice::slice_subrange(s, 0, i));
            let v = trim_chars(vstd::slice::slice_subrange(s, i + 1, s.len()));
            return Some((k, v));
        }
        i += 1;
    }
    None
}

/// The macro pairs of GSettings entries (`"shortcut:expansion"` strings):
/// each entry with a `:` gives its trimmed parts, kept when both are
/// non-empty.
pub open spec fn entry_pairs(entries: Seq<Seq<char>>) -> Seq<(Seq<char>, Seq<char>)>
    decreases entries.len(),
{
    if entries.len() == 0 {
        Seq::empty()
    } else {
        let p = entry_pairs(entries.drop_last());
        match split_colon(entries.last()) {
            Some((k, v)) => if k.len() > 0 && v.len() > 0 {
                p.push((k, v))
            } else {
                p
            },
            None => p,
        }
    }
}

/// Parse stored macro entries (`"shortcut:expansion"` strings) into pairs.
pub fn parse_macro_entries(entries: &[String]) -> (r: Vec<(String, String)>)
    ensures
        string_pairs(r@) == entry_pairs(entries@.map_values(|e: String| e@)),
{
    let ghost es = entries@.map_values(|e: String| e@);
    let mut out: Vec<(String, String)> = Vec::new();
    let mut i: usize = 0;
    assert(es.subrange(0, 0) =~= Seq::<Seq<char>>::empty());
    assert(string_pairs(out@) =~= Seq::<(Seq<char>, Seq<char>)>::empty());
    while i < entries.len()
        invariant
            i <= entries@.len(),
            es == entries@.map_values(|e: String| e@),
            string_pairs(out@) == entry_pairs(es.subrange(0, i as int)),
        decreases entries@.len() - i,
    {
        proof {
            assert(es.subrange(0, i + 1).drop_last() =~= es.subrange(0, i as int));
            assert(es.subrange(0, i + 1).last() == entries@[i as int]@);
        }
        let chars = chars_of(entries[i].as_str());
        match split_colon_exec(chars.as_slice()) {
            Some((k, v)) => {
                if k.len() > 0 && v.len() > 0 {
                    let e = (string_from_chars(k.as_slice()), string_from_chars(v.as_slice()));
                    proof {
                        assert(string_pairs(out@.push(e)) =~= string_pairs(out@).push((e.0@, e.1@)));
                    }
                    out.push(e);
                }
            },
            None => {},
        }
        i += 1;
    }
    assert(es.subrange(0, entries@.len() as int) =~= es);
    out
}

/// The stored form of a macro pair: `shortcut:expansion`.
pub open spec fn entry_of(k: Seq<char>, v: Seq<char>) -> Seq<char> {
    k + seq![':'] + v
}

/// The stored entries of macro pairs, one per pair, in order.
pub open spec fn pair_entries(pairs: Seq<(Seq<char>, Seq<char>)>) -> Seq<Seq<char>> {
    pairs.map_values(|p: (Seq<char>, Seq<char>)| entry_of(p.0, p.1))
}

/// The GSettings entries for macro pairs: `shortcut:expansion` for each pair,
/// in order.
pub fn macro_entries(pairs: &[(String, String)]) -> (r: Vec<String>)
    ensures
        r@.map_values(|e: String| e@) == pair_entries(string_pairs(pairs@)),
{
    let ghost ps = string_pairs(pairs@);
    let mut out: Vec<String> = Vec::new();
    let mut i: usize = 0;
    while i < pairs.len()
        invariant
            i <= pairs@.len(),
            ps == string_pairs(pairs@),
            out@.map_values(|e: String| e@) == pair_entries(ps.subrange(0, i as int)),
        decreases pairs@.len() - i,
    {
        let mut chars = chars_of(pairs[i].0.as_str());
        chars.push(':');
        let mut rest = chars_of(pairs[i].1.as_str());
        chars.append(&mut rest);
        let e = string_from_chars(chars.as_slice());
        proof {
            assert(ps.subrange(0, i + 1) =~= ps.subrange(0, i as int).push(ps[i as int]));
            assert(e@ =~= entry_of(ps[i as int].0, ps[i as int].1));
            assert(out@.push(e).map_values(|e: String| e@) =~= out@.map_values(|e: String| e@).push(e@));
            assert(pair_entries(ps.subrange(0, i + 1)) =~= pair_entries(ps.subrange(0, i as int)).push(e@));
        }
        out.push(e);
        i += 1;
    }
    assert(ps.subrange(0, pairs@.len() as int) =~= ps);
    out
}

/// A macro pair that survives being stored and read back: both parts
/// non-empty and free of surrounding white space, and no `:` in the shortcut.
pub open spec fn clean_pair(p: (Seq<char>, Seq<char>)) -> bool {
    &&& p.0.len() > 0
    &&& p.1.len() > 0
    &&& !p.0.contains(':')
    &&& trim_spec(p.0) == p.0
    &&& trim_spec(p.1) == p.1
}

proof fn lemma_colon_after_key(k: Seq<char>, v: Seq<char>, i: int)
    requires
        0 <= i <= k.len(),
        !k.contains(':'),
    ensures
        colon_scan(entry_of(k, v), i) == Some(k.len() as int),
    decreases k.len() - i,
{
    let s = entry_of(k, v);
    if i < k.len() {
        assert(s[i] == k[i]);
        if s[i] == ':' {
            assert(k.contains(':'));
        }
        lemma_colon_after_key(k, v, i + 1);
    } else {
        assert(s[i] == ':');
    }
}

/// Storing macro pairs as GSettings entries and reading them back gives the
/// same pairs, for pairs that are clean (see [`clean_pair`]).
pub proof fn law_stored_macros_read_back(pairs: Seq<(Seq<char>, Seq<char>)>)
    requires
        forall|i: int| 0 <= i < pairs.len() ==> clean_pair(#[trigger] pairs[i]),
    ensures
        entry_pairs(pair_entries(pairs)) == pairs,
    decreases pairs.len(),
{
    if pairs.len() > 0 {
        let init = pairs.drop_last();
        let (k, v) = pairs.last();
        assert forall|i: int| 0 <= i < init.len() implies clean_pair(#[trigger] init[i]) by {
            assert(init[i] == pairs[i]);
        }
        law_stored_macros_read_back(init);
        assert(clean_pair(pairs[pairs.len() - 1]));
        let es = pair_entries(pairs);
        assert(es.drop_last() =~= pair_entries(init));
        assert(es.last() == entry_of(k, v));
        lemma_colon_after_key(k, v, 0);
        let e = entry_of(k, v);
        assert(e.subrange(0, k.len() as int) =~= k);
        assert(e.subrange(k.len() as int + 1, e.len() as int) =~= v);
        assert(split_colon(e) == Some((k, v)));
        assert(entry_pairs(es) =~= pairs);
    } else {
        assert(entry_pairs(pair_entries(pairs)) =~= pairs);
    }
}

/// The rows of the macro editor that are kept on close: both parts trimmed,
/// and only the rows where both are non-empty.
pub open spec fn kept_rows_spec(rows: Seq<(Seq<char>, Seq<char>)>) -> Seq<(Seq<char>, Seq<char>)>
    decreases rows.len(),
{
    if rows.len() == 0 {
        Seq::empty()
    } else {
        let p = kept_rows_spec(rows.drop_last());
        let k = trim_spec(rows.last().0);
        let v = trim_spec(rows.last().1);
        if k.len() > 0 && v.len() > 0 {
            p.push((k, v))
        } else {
            p
        }
    }
}

/// The macro pairs the editor's rows give: each row trimmed, kept when both
/// parts are non-empty.
pub fn kept_macro_rows(rows: &[(String, String)]) -> (r: Vec<(String, String)>)
    ensures
        string_pairs(r@) == kept_rows_spec(string_pairs(rows@)),
{
    let ghost rs = string_pairs(rows@);
    let mut out: Vec<(String, String)> = Vec::new();
    let mut i: usize = 0;
    assert(rs.subrange(0, 0) =~= Seq::<(Seq<char>, Seq<char>)>::empty());
    assert(string_pairs(out@) =~= Seq::<(Seq<char>, Seq<char>)>::empty());
    while i < rows.len()
        invariant
            i <= rows@.len(),
            rs == string_pairs(rows@),
            string_pairs(out@) == kept_rows_spec(rs.subrange(0, i as int)),
        decreases rows@.len() - i,
    {
        proof {
            assert(rs.subrange(0, i + 1).drop_last() =~= rs.subrange(0, i as int));
            assert(rs.subrange(0, i + 1).last() == rs[i as int]);
        }
        let kc = chars_of(rows[i].0.as_str());
        let vc = chars_of(rows[i].1.as_str());
        let k = trim_chars(kc.as_slice());
        let v = trim_chars(vc.as_slice());
        if k.len() > 0 && v.len() > 0 {
            let e = (string_from_chars(k.as_slice()), string_from_chars(v.as_slice()));
            proof {
                assert(string_pairs(out@.push(e)) =~= string_pairs(out@).push((e.0@, e.1@)));
            }
            out.push(e);
        }
        i += 1;
    }
    assert(rs.subrange(0, rows@.len() as int) =~= rs);
    out
}

/// The text a macro export writes: one `shortcut:expansion` line per row
/// whose trimmed shortcut is non-empty, both parts trimmed, each line ended
/// by a newline.
pub open spec fn export_spec(rows: Seq<(Seq<char>, Seq<char>)>) -> Seq<char>
    decreases rows.len(),
{
    if rows.len() == 0 {
        Seq::empty()
    } else {
        let p = export_spec(rows.drop_last());
        let k = trim_spec(rows.last().0);
        if k.len() > 0 {
            p + entry_of(k, trim_spec(rows.last().1)).push('\n')
        } else {
            p
        }
    }
}

/// The text of a macro export of the editor's rows.
pub fn export_macro_text(rows: &[(String, String)]) -> (r: String)
    ensures
        r@ == export_spec(string_pairs(rows@)),
{
    let ghost rs = string_pairs(rows@);
    let mut out: Vec<char> = Vec::new();
    let mut i: usize = 0;
    assert(rs.subrange(0, 0) =~= Seq::<(Seq<char>, Seq<char>)>::empty());
    while i < rows.len()
        invariant
            i <= rows@.len(),
            rs == string_pairs(rows@),
            out@ == export_spec(rs.subrange(0, i as int)),
        decreases rows@.len() - i,
    {
        proof {
            assert(rs.subrange(0, i + 1).drop_last() =~= rs.subrange(0, i as int));
            assert(rs.subrange(0, i + 1).last() == rs[i as int]);
        }
        let kc = chars_of(rows[i].0.as_str());
        let mut k = trim_chars(kc.as_slice());
        if k.len() > 0 {
            let vc = chars_of(rows[i].1.as_str());
            let mut v = trim_chars(vc.as_slice());
            let ghost before = out@;
            let ghost line = entry_of(k@, v@).push('\n');
            out.append(&mut k);
            out.push(':');
            out.append(&mut v);
            out.push('\n');
            assert(out@ =~= before + line);
        }
        i += 1;
    }
    assert(rs.subrange(0, rows@.len() as int) =~= rs);
    string_from_chars(out.as_slice())
}

proof fn lemma_trim_start_shape(s: Seq<char>)
    ensures
        trim_start_spec(s).len() <= s.len(),
        trim_start_spec(s) == s.subrange(s.len() - trim_start_spec(s).len(), s.len() as int),
        s.len() > 0 && is_whitespace_char(s[0]) ==> trim_start_spec(s).len() < s.len(),
    decreases s.len(),
{
    if s.len() > 0 && is_whitespace_char(s[0]) {
        lemma_trim_start_shape(s.drop_first());
        let t = trim_start_spec(s.drop_first());
        assert(s.drop_first().subrange(s.drop_first().len() - t.len(), s.drop_first().len() as int) =~= s.subrange(
            s.len() - t.len(),
            s.len() as int,
        ));
    } else {
        assert(s.subrange(0, s.len() as int) =~= s);
    }
}

proof fn lemma_trim_end_shape(s: Seq<char>)
    ensures
        trim_end_spec(s).len() <= s.len(),
        s.len() > 0 && is_whitespace_char(s.last()) ==> trim_end_spec(s).len() < s.len(),
    decreases s.len(),
{
    if s.len() > 0 && is_whitespace_char(s.last()) {
        lemma_trim_end_shape(s.drop_last());
    }
}

/// A non-empty string that trimming leaves unchanged neither starts nor ends
/// with white space.
proof fn lemma_trimmed_ends(s: Seq<char>)
    requires
        s.len() > 0,
        trim_spec(s) == s,
    ensures
        !is_whitespace_char(s[0]),
        !is_whitespace_char(s.last()),
{
    lemma_trim_start_shape(s);
    let t = trim_start_spec(s);
    lemma_trim_end_shape(t);
    if t.len() > 0 {
        assert(t.last() == s.last());
    }
}

/// A macro pair that a macro file export writes and reads back unchanged: a
/// clean pair (see [`clean_pair`]) with no newline in either part and a
/// shortcut that does not start a comment.
pub open spec fn exportable_pair(p: (Seq<char>, Seq<char>)) -> bool {
    &&& clean_pair(p)
    &&& !p.0.contains('\n')
    &&& !p.1.contains('\n')
    &&& p.0[0] != '#'
    &&& p.0[0] != ';'
}

proof fn lemma_split_no_newline(s: Seq<char>, t: Seq<char>)
    requires
        !t.contains('\n'),
    ensures
        split_lines_spec(s + t) == split_lines_spec(s).update(
            split_lines_spec(s).len() - 1,
            split_lines_spec(s).last() + t,
        ),
    decreases t.len(),
{
    crate::text::lemma_split_lines_len(s);
    if t.len() == 0 {
        assert(s + t =~= s);
        assert(split_lines_spec(s).last() + t =~= split_lines_spec(s).last());
        assert(split_lines_spec(s).update(split_lines_spec(s).len() - 1, split_lines_spec(s).last())
            =~= split_lines_spec(s));
    } else {
        let t0 = t.drop_last();
        assert(!t0.contains('\n')) by {
            if t0.contains('\n') {
                let j = choose|j: int| 0 <= j < t0.len() && t0[j] == '\n';
                assert(t[j] == '\n');
            }
        }
        assert(t.last() != '\n') by {
            assert(t[t.len() - 1] == t.last());
        }
        lemma_split_no_newline(s, t0);
        assert((s + t).drop_last() =~= s + t0);
        assert((s + t).last() == t.last());
        let p = split_lines_spec(s);
        assert(p.update(p.len() - 1, p.last() + t0).last() == p.last() + t0);
        assert((p.last() + t0).push(t.last()) =~= p.last() + t);
        assert(p.update(p.len() - 1, p.last() + t0).update(p.len() - 1, p.last() + t) =~= p.update(
            p.len() - 1,
            p.last() + t,
        ));
    }
}

proof fn lemma_export_lines(pairs: Seq<(Seq<char>, Seq<char>)>)
    requires
        forall|i: int| 0 <= i < pairs.len() ==> exportable_pair(#[trigger] pairs[i]),
    ensures
        split_lines_spec(export_spec(pairs)) == pair_entries(pairs).push(Seq::<char>::empty()),
    decreases pairs.len(),
{
    if pairs.len() == 0 {
        assert(pair_entries(pairs).push(Seq::<char>::empty()) =~= seq![Seq::<char>::empty()]);
    } else {
        let init = pairs.drop_last();
        let (k, v) = pairs.last();
        assert forall|i: int| 0 <= i < init.len() implies exportable_pair(#[trigger] init[i]) by {
            assert(init[i] == pairs[i]);
        }
        lemma_export_lines(init);
        assert(exportable_pair(pairs[pairs.len() - 1]));
        let e = entry_of(k, v);
        let prev = export_spec(init);
        assert(export_spec(pairs) == prev + e.push('\n'));
        assert(prev + e.push('\n') =~= (prev + e).push('\n'));
        assert(!e.contains('\n')) by {
            if e.contains('\n') {
                let j = choose|j: int| 0 <= j < e.len() && e[j] == '\n';
                if j < k.len() {
                    assert(k[j] == '\n');
                } else if j > k.len() {
                    assert(v[j - k.len() - 1] == '\n');
                }
            }
        }
        lemma_split_no_newline(prev, e);
        let full = (prev + e).push('\n');
        assert(full.drop_last() =~= prev + e);
        assert(full.last() == '\n');
        assert(split_lines_spec(full) == split_lines_spec(prev + e).push(Seq::<char>::empty()));
        let ps = split_lines_spec(prev);
        assert(ps.last() == Seq::<char>::empty());
        assert(ps.last() + e =~= e);
        assert(pair_entries(pairs) =~= pair_entries(init).push(e));
        assert(ps.update(ps.len() - 1, e).push(Seq::<char>::empty()) =~= pair_entries(pairs).push(
            Seq::<char>::empty(),
        ));
    }
}

proof fn lemma_exported_line(k: Seq<char>, v: Seq<char>)
    requires
        exportable_pair((k, v)),
    ensures
        trim_spec(entry_of(k, v)) == entry_of(k, v),
        !skipped_line(entry_of(k, v)),
        macro_line(entry_of(k, v)) == Some((k, v)),
{
    let e = entry_of(k, v);
    lemma_trimmed_ends(k);
    lemma_trimmed_ends(v);
    assert(e[0] == k[0]);
    assert(e.last() == v.last());
    assert(trim_start_spec(e) == e);
    assert(trim_end_spec(e) == e);
    lemma_colon_after_key(k, v, 0);
    assert(e.subrange(0, k.len() as int) =~= k);
    assert(e.subrange(k.len() as int + 1, e.len() as int) =~= v);
}

proof fn lemma_export_read(pairs: Seq<(Seq<char>, Seq<char>)>, lines: Seq<Seq<char>>, n: int)
    requires
        forall|i: int| 0 <= i < pairs.len() ==> exportable_pair(#[trigger] pairs[i]),
        lines == pair_entries(pairs).push(Seq::<char>::empty()),
        0 <= n <= pairs.len(),
    ensures
        macro_lines(lines, n) == Ok::<_, (int, Seq<char>)>(pairs.subrange(0, n)),
    decreases n,
{
    if n == 0 {
        assert(pairs.subrange(0, 0) =~= Seq::<(Seq<char>, Seq<char>)>::empty());
    } else {
        lemma_export_read(pairs, lines, n - 1);
        let (k, v) = pairs[n - 1];
        assert(exportable_pair(pairs[n - 1]));
        assert(lines[n - 1] == entry_of(k, v));
        lemma_exported_line(k, v);
        assert(pairs.subrange(0, n - 1).push((k, v)) =~= pairs.subrange(0, n));
    }
}

/// Exporting macro pairs to a file and importing the file gives the same
/// pairs, for a non-empty list of pairs that survive the round trip (see
/// [`exportable_pair`]).
pub proof fn law_export_then_import(pairs: Seq<(Seq<char>, Seq<char>)>)
    requires
        pairs.len() > 0,
        forall|i: int| 0 <= i < pairs.len() ==> exportable_pair(#[trigger] pairs[i]),
    ensures
        macro_file_spec(export_spec(pairs)) == Ok::<_, Option<(int, Seq<char>)>>(pairs),
{
    let lines = split_lines_spec(export_spec(pairs));
    lemma_export_lines(pairs);
    lemma_export_read(pairs, lines, pairs.len() as int);
    assert(pairs.subrange(0, pairs.len() as int) =~= pairs);
    assert(lines[pairs.len() as int] == Seq::<char>::empty());
    assert(trim_spec(Seq::<char>::empty()) =~= Seq::<char>::empty());
}

/// Why a macro file was refused.
#[derive(Debug, PartialEq, Eq)]
pub enum MacroFileError {
    /// The line (numbered from 1) is not a `shortcut:expansion` pair with
    /// both parts non-empty; `text` is the line, trimmed.
    MalformedLine { line: usize, text: String },
    /// The file holds no macro.
    NoMacros,
}

/// Whether a trimmed line is blank or a `#`/`;` comment.
pub open spec fn skipped_line(s: Seq<char>) -> bool {
    s.len() == 0 || s[0] == '#' || s[0] == ';'
}

/// The macro pair a trimmed line gives, if it is a well-formed pair.
pub open spec fn macro_line(s: Seq<char>) -> Option<(Seq<char>, Seq<char>)> {
    match split_colon(s) {
        Some((k, v)) => if k.len() > 0 && v.len() > 0 {
            Some((k, v))
        } else {
            None
        },
        None => None,
    }
}

/// Reading the first `n` lines of a macro file: the pairs so far, or the
/// number (from 1) and trimmed text of the first malformed line.
pub open spec fn macro_lines(lines: Seq<Seq<char>>, n: int) -> Result<Seq<(Seq<char>, Seq<char>)>, (int, Seq<char>)>
    decreases n,
{
    if n <= 0 {
        Ok(Seq::empty())
    } else {
        match macro_lines(lines, n - 1) {
            Err(e) => Err(e),
            Ok(acc) => {
                let s = trim_spec(lines[n - 1]);
                if skipped_line(s) {
                    Ok(acc)
                } else {
                    match macro_line(s) {
                        Some(kv) => Ok(acc.push(kv)),
                        None => Err((n, s)),
                    }
                }
            },
        }
    }
}

proof fn lemma_macro_lines_err(lines: Seq<Seq<char>>, n: int, m: int)
    requires
        n <= m,
        macro_lines(lines, n) is Err,
    ensures
        macro_lines(lines, m) == macro_lines(lines, n),
    decreases m - n,
{
    if m > n {
        lemma_macro_lines_err(lines, n, m - 1);
    }
}

/// The outcome of reading a macro file: its pairs, the first malformed line,
/// or no macros at all.
pub open spec fn macro_file_spec(content: Seq<char>) -> Result<Seq<(Seq<char>, Seq<char>)>, Option<(int, Seq<char>)>> {
    let lines = split_lines_spec(content);
    match macro_lines(lines, lines.len() as int) {
        Err(e) => Err(Some(e)),
        Ok(acc) => if acc.len() == 0 {
            Err(None)
        } else {
            Ok(acc)
        },
    }
}

/// Validate and parse a macro file into `(shortcut, expansion)` pairs. Blank
/// lines and `#`/`;` comments are ignored; every other line must be a
/// `shortcut:expansion` pair with both parts non-empty. Fails on the first
/// malformed line, or when no macros are found.
pub fn parse_macro_file(content: &str) -> (r: Result<Vec<(String, String)>, MacroFileError>)
    ensures
        match r {
            Ok(pairs) => macro_file_spec(content@) == Ok::<_, Option<(int, Seq<char>)>>(string_pairs(pairs@)),
            Err(MacroFileError::MalformedLine { line, text }) => macro_file_spec(content@) == Err::<Seq<(Seq<char>, Seq<char>)>, _>(
                Some((line as int, text@)),
            ),
            Err(MacroFileError::NoMacros) => macro_file_spec(content@) == Err::<Seq<(Seq<char>, Seq<char>)>, _>(
                None::<(int, Seq<char>)>,
            ),
        },
{
    let chars = chars_of(content);
    let lines = split_lines(chars.as_slice());
    let ghost ls = split_lines_spec(content@);
    let mut pairs: Vec<(String, String)> = Vec::new();
    let mut i: usize = 0;
    assert(string_pairs(pairs@) =~= Seq::<(Seq<char>, Seq<char>)>::empty());
    while i < lines.len()
        invariant
            i <= lines@.len() == ls.len(),
            ls == split_lines_spec(content@),
            forall|k: int| 0 <= k < lines@.len() ==> (#[trigger] lines@[k])@ == ls[k],
            macro_lines(ls, i as int) == Ok::<_, (int, Seq<char>)>(string_pairs(pairs@)),
        decreases lines@.len() - i,
    {
        let s = trim_chars(lines[i].as_slice());
        if s.len() == 0 || s[0] == '#' || s[0] == ';' {
            i += 1;
            continue;
        }
        match split_colon_exec(s.as_slice()) {
            Some((k, v)) => {
                if k.len() > 0 && v.len() > 0 {
                    let e = (string_from_chars(k.as_slice()), string_from_chars(v.as_slice()));
                    proof {
                        assert(string_pairs(pairs@.push(e)) =~= string_pairs(pairs@).push((e.0@, e.1@)));
                    }
                    pairs.push(e);
                    i += 1;
                    continue;
                }
            },
            None => {},
        }
        assert(i < usize::MAX);
        proof {
            assert(lines@[i as int]@ == ls[i as int]);
            assert(!skipped_line(s@));
            assert(macro_line(s@) is None);
            assert(macro_lines(ls, i + 1) == Err::<Seq<(Seq<char>, Seq<char>)>, _>((i + 1, s@)));
            lemma_macro_lines_err(ls, i + 1, ls.len() as int);

        }
        let text = string_from_chars(s.as_slice());
        return Err(MacroFileError::MalformedLine { line: i + 1, text });
    }
    if pairs.len() == 0 {
        return Err(MacroFileError::NoMacros);
    }
    Ok(pairs)
}

/// With auto-capitalize on, keys are matched case-insensitively: keys with
/// the same lowercase form look up the same expansion.
pub proof fn law_auto_capitalize_ignores_case(m: MacroTableV, k1: Seq<char>, k2: Seq<char>)
    requires
        m.auto_capitalize,
        lowercase_str(k1) == lowercase_str(k2),
    ensures
        lookup_spec(m, k1) == lookup_spec(m, k2),
{
}

/// The last pair for a key wins: after a pair with non-empty parts, its key
/// looks up its expansion.
pub proof fn law_later_pair_wins(entries: Seq<(Seq<char>, Seq<char>)>, auto_capitalize: bool, k: Seq<char>, v: Seq<char>)
    requires
        k.len() > 0,
        v.len() > 0,
    ensures
        lookup_spec(
            MacroTableV {
                auto_capitalize,
                table: table_of(entries.push((k, v)), auto_capitalize, entries.len() as int + 1),
            },
            k,
        ) == Some(v),
{
    assert(entries.push((k, v))[entries.len() as int] == (k, v));
}

proof fn lemma_macro_lines_ok(lines: Seq<Seq<char>>, n: int)
    ensures
        macro_lines(lines, n) matches Ok(ps) ==> forall|i: int|
            0 <= i < ps.len() ==> (#[trigger] ps[i]).0.len() > 0 && ps[i].1.len() > 0,
    decreases n,
{
    if n > 0 {
        lemma_macro_lines_ok(lines, n - 1);
    }
}

/// An accepted macro file holds at least one pair, and every pair has a
/// non-empty shortcut and expansion.
pub proof fn law_macro_file_pairs_are_complete(content: Seq<char>)
    ensures
        macro_file_spec(content) matches Ok(ps) ==> ps.len() > 0 && forall|i: int|
            0 <= i < ps.len() ==> (#[trigger] ps[i]).0.len() > 0 && ps[i].1.len() > 0,
{
    let lines = split_lines_spec(content);
    lemma_macro_lines_ok(lines, lines.len() as int);
}

} // verus!
