//! Character and string primitives: Unicode case mapping and classification
//! from the standard library, and conversion between `str`/`String` and
//! character vectors.
use vstd::prelude::*;

verus! {

/// The first character of the Unicode lowercase mapping of `c`, as
/// `char::to_lowercase` yields it.
pub uninterp spec fn lowercase_first(c: char) -> Option<char>;

/// The first character of the Unicode uppercase mapping of `c`, as
/// `char::to_uppercase` yields it.
pub uninterp spec fn uppercase_first(c: char) -> Option<char>;

/// Whether `c` has the Unicode `Uppercase` property (`char::is_uppercase`).
pub uninterp spec fn is_uppercase_char(c: char) -> bool;

/// Whether `c` has the Unicode `Lowercase` property (`char::is_lowercase`).
pub uninterp spec fn is_lowercase_char(c: char) -> bool;

/// Whether `c` has the Unicode `Alphabetic` property (`char::is_alphabetic`).
pub uninterp spec fn is_alphabetic_char(c: char) -> bool;

/// Whether `c` has the Unicode `White_Space` property, the property that
/// `char::is_whitespace` tests: tab to carriage return, space, next line,
/// no-break space, ogham space mark, the spaces U+2000 to U+200A, the line and
/// paragraph separators, narrow no-break space, medium mathematical space and
/// ideographic space.
pub open spec fn is_whitespace_char(c: char) -> bool {
    let u = c as u32;
    ||| 0x9 <= u <= 0xD
    ||| u == 0x20
    ||| u == 0x85
    ||| u == 0xA0
    ||| u == 0x1680
    ||| 0x2000 <= u <= 0x200A
    ||| u == 0x2028
    ||| u == 0x2029
    ||| u == 0x202F
    ||| u == 0x205F
    ||| u == 0x3000
}

/// Whether `c` is a Unicode letter: general category `L`, the `\p{L}` class
/// of regular expressions.
pub uninterp spec fn is_letter_char(c: char) -> bool;

/// The Unicode lowercase form of a string (`str::to_lowercase`).
pub uninterp spec fn lowercase_str(s: Seq<char>) -> Seq<char>;

/// The Unicode uppercase form of a string (`str::to_uppercase`).
pub uninterp spec fn uppercase_str(s: Seq<char>) -> Seq<char>;

/// Calls `char::to_lowercase` and takes the first character of the mapping.
/// Claimed: the result is `lowercase_first(c)`, a function of `c` alone.
#[verifier::external_body]
fn char_lowercase_first(c: char) -> (r: Option<char>)
    ensures
        r == lowercase_first(c),
{
    c.to_lowercase().next()
}

/// Calls `char::to_uppercase` and takes the first character of the mapping.
/// Claimed: the result is `uppercase_first(c)`, a function of `c` alone.
#[verifier::external_body]
fn char_uppercase_first(c: char) -> (r: Option<char>)
    ensures
        r == uppercase_first(c),
{
    c.to_uppercase().next()
}

/// Calls `char::is_uppercase`. Claimed: the result is `is_uppercase_char(c)`.
#[verifier::external_body]
pub(crate) fn is_uppercase(c: char) -> (r: bool)
    ensures
        r == is_uppercase_char(c),
{
    c.is_uppercase()
}

/// Calls `char::is_lowercase`. Claimed: the result is `is_lowercase_char(c)`.
#[verifier::external_body]
pub(crate) fn is_lowercase(c: char) -> (r: bool)
    ensures
        r == is_lowercase_char(c),
{
    c.is_lowercase()
}

/// Calls `char::is_alphabetic`. Claimed: the result is `is_alphabetic_char(c)`.
#[verifier::external_body]
pub(crate) fn is_alphabetic(c: char) -> (r: bool)
    ensures
        r == is_alphabetic_char(c),
{
    c.is_alphabetic()
}

/// Matches `c` against the pattern `^\p{L}$` with `regex::Regex::is_match`.
/// Claimed: the result is `is_letter_char(c)`, a function of `c` alone (the
/// pattern is valid, so compiling it does not fail).
#[verifier::external_body]
pub(crate) fn is_letter(c: char) -> (r: bool)
    ensures
        r == is_letter_char(c),
{
    let mut buf = [0u8; 4];
    match regex::Regex::new(r"^\p{L}$") {
        Ok(re) => re.is_match(c.encode_utf8(&mut buf)),
        Err(_) => false,
    }
}

/// Whether `c` is white space (Unicode `White_Space`).
pub fn is_whitespace(c: char) -> (r: bool)
    ensures
        r == is_whitespace_char(c),
{
    let u = c as u32;
    (0x9 <= u && u <= 0xD) || u == 0x20 || u == 0x85 || u == 0xA0 || u == 0x1680 || (0x2000 <= u && u <= 0x200A)
        || u == 0x2028 || u == 0x2029 || u == 0x202F || u == 0x205F || u == 0x3000
}

/// Calls `str::to_lowercase`. Claimed: the result's characters are
/// `lowercase_str(s@)`.
#[verifier::external_body]
pub(crate) fn str_to_lowercase(s: &str) -> (r: String)
    ensures
        r@ == lowercase_str(s@),
{
    s.to_lowercase()
}

/// Calls `str::to_uppercase`. Claimed: the result's characters are
/// `uppercase_str(s@)`.
#[verifier::external_body]
pub(crate) fn str_to_uppercase(s: &str) -> (r: String)
    ensures
        r@ == uppercase_str(s@),
{
    s.to_uppercase()
}

/// Collects characters into a `String` (`FromIterator<char>`). Claimed: the
/// string holds exactly `v`, in order.
#[verifier::external_body]
pub(crate) fn string_from_chars(v: &[char]) -> (r: String)
    ensures
        r@ == v@,
{
    v.iter().collect()
}

/// Lowercase a single character: the first character of its Unicode
/// lowercase mapping, or the character itself if the mapping were empty.
pub open spec fn to_lower(c: char) -> char {
    match lowercase_first(c) {
        Some(l) => l,
        None => c,
    }
}

/// Uppercase a single character: the first character of its Unicode
/// uppercase mapping, or the character itself if the mapping were empty.
pub open spec fn to_upper(c: char) -> char {
    match uppercase_first(c) {
        Some(u) => u,
        None => c,
    }
}

pub fn lower_char(c: char) -> (r: char)
    ensures
        r == to_lower(c),
{
    match char_lowercase_first(c) {
        Some(l) => l,
        None => c,
    }
}

pub fn upper_char(c: char) -> (r: char)
    ensures
        r == to_upper(c),
{
    match char_uppercase_first(c) {
        Some(u) => u,
        None => c,
    }
}

/// Whether `c` is an ASCII letter.
pub open spec fn is_ascii_alpha(c: char) -> bool {
    ('a' <= c && c <= 'z') || ('A' <= c && c <= 'Z')
}

/// Whether `c` is an ASCII decimal digit.
pub open spec fn is_ascii_digit(c: char) -> bool {
    '0' <= c && c <= '9'
}

pub fn ascii_alpha(c: char) -> (r: bool)
    ensures
        r == is_ascii_alpha(c),
{
    ('a' <= c && c <= 'z') || ('A' <= c && c <= 'Z')
}

pub fn ascii_digit(c: char) -> (r: bool)
    ensures
        r == is_ascii_digit(c),
{
    '0' <= c && c <= '9'
}

/// The characters of `s`, in order.
pub fn chars_of(s: &str) -> (r: Vec<char>)
    ensures
        r@ == s@,
{
    let n = s.unicode_len();
    let mut v: Vec<char> = Vec::new();
    let mut i: usize = 0;
    while i < n
        invariant
            n == s@.len(),
            i <= n,
            v@ == s@.subrange(0, i as int),
        decreases n - i,
    {
        v.push(s.get_char(i));
        i += 1;
    }
    assert(v@ =~= s@);
    v
}

/// Whether `s` contains `c`.
pub fn seq_contains(s: &[char], c: char) -> (r: bool)
    ensures
        r == s@.contains(c),
{
    let mut i: usize = 0;
    while i < s.len()
        invariant
            i <= s@.len(),
            forall|j: int| 0 <= j < i ==> s@[j] != c,
        decreases s@.len() - i,
    {
        if s[i] == c {
            return true;
        }
        i += 1;
    }
    false
}

/// Whether two character sequences are equal.
pub fn chars_eq(a: &[char], b: &[char]) -> (r: bool)
    ensures
        r == (a@ == b@),
{
    if a.len() != b.len() {
        return false;
    }
    let mut i: usize = 0;
    while i < a.len()
        invariant
            a@.len() == b@.len(),
            i <= a@.len(),
            forall|j: int| 0 <= j < i ==> a@[j] == b@[j],
        decreases a@.len() - i,
    {
        if a[i] != b[i] {
            return false;
        }
        i += 1;
    }
    assert(a@ =~= b@);
    true
}

/// `s` without its leading whitespace.
pub open spec fn trim_start_spec(s: Seq<char>) -> Seq<char>
    decreases s.len(),
{
    if s.len() > 0 && is_whitespace_char(s[0]) {
        trim_start_spec(s.drop_first())
    } else {
        s
    }
}

/// `s` without its trailing whitespace.
pub open spec fn trim_end_spec(s: Seq<char>) -> Seq<char>
    decreases s.len(),
{
    if s.len() > 0 && is_whitespace_char(s.last()) {
        trim_end_spec(s.drop_last())
    } else {
        s
    }
}

/// `s` without leading and trailing whitespace (`str::trim`).
pub open spec fn trim_spec(s: Seq<char>) -> Seq<char> {
    trim_end_spec(trim_start_spec(s))
}

/// The pieces of `s` between newlines, in order (one more than the number of
/// newlines; `\r` before a newline stays with its piece).
pub open spec fn split_lines_spec(s: Seq<char>) -> Seq<Seq<char>>
    decreases s.len(),
{
    if s.len() == 0 {
        seq![Seq::empty()]
    } else {
        let p = split_lines_spec(s.drop_last());
        if s.last() == '\n' {
            p.push(Seq::empty())
        } else {
            p.update(p.len() - 1, p.last().push(s.last()))
        }
    }
}

pub proof fn lemma_split_lines_len(s: Seq<char>)
    ensures
        split_lines_spec(s).len() >= 1,
    decreases s.len(),
{
    if s.len() > 0 {
        lemma_split_lines_len(s.drop_last());
    }
}

/// `s` without leading and trailing whitespace.
pub fn trim_chars(s: &[char]) -> (r: Vec<char>)
    ensures
        r@ == trim_spec(s@),
{
    let n = s.len();
    let mut a: usize = 0;
    assert(s@.subrange(0, n as int) =~= s@);
    while a < n && is_whitespace(s[a])
        invariant
            a <= n == s@.len(),
            trim_start_spec(s@) == trim_start_spec(s@.subrange(a as int, n as int)),
        decreases n - a,
    {
        assert(s@.subrange(a as int, n as int).drop_first() =~= s@.subrange(a + 1, n as int));
        a += 1;
    }
    let ghost st = s@.subrange(a as int, n as int);
    assert(trim_start_spec(st) == st);
    let mut b: usize = n;
    while b > a && is_whitespace(s[b - 1])
        invariant
            a <= b <= n == s@.len(),
            st == s@.subrange(a as int, n as int),
            trim_end_spec(st) == trim_end_spec(s@.subrange(a as int, b as int)),
        decreases b,
    {
        assert(s@.subrange(a as int, b as int).drop_last() =~= s@.subrange(a as int, b - 1));
        b -= 1;
    }
    assert(trim_end_spec(s@.subrange(a as int, b as int)) == s@.subrange(a as int, b as int));
    let mut out: Vec<char> = Vec::new();
    let mut i = a;
    while i < b
        invariant
            a <= i <= b <= n == s@.len(),
            out@ == s@.subrange(a as int, i as int),
        decreases b - i,
    {
        out.push(s[i]);
        i += 1;
    }
    out
}

/// The pieces of `s` between newlines.
pub fn split_lines(s: &[char]) -> (r: Vec<Vec<char>>)
    ensures
        r@.len() == split_lines_spec(s@).len(),
        forall|i: int| 0 <= i < r@.len() ==> (#[trigger] r@[i])@ == split_lines_spec(s@)[i],
{
    let mut done: Vec<Vec<char>> = Vec::new();
    let mut cur: Vec<char> = Vec::new();
    let mut i: usize = 0;
    assert(s@.subrange(0, 0) =~= Seq::<char>::empty());
    while i < s.len()
        invariant
            i <= s@.len(),
            done@.len() + 1 == split_lines_spec(s@.subrange(0, i as int)).len(),
            forall|k: int| 0 <= k < done@.len() ==> (#[trigger] done@[k])@ == split_lines_spec(s@.subrange(0, i as int))[k],
            cur@ == split_lines_spec(s@.subrange(0, i as int)).last(),
        decreases s@.len() - i,
    {
        proof {
            assert(s@.subrange(0, i + 1).drop_last() =~= s@.subrange(0, i as int));
            lemma_split_lines_len(s@.subrange(0, i as int));
        }
        let c = s[i];
        if c == '\n' {
            let piece = cur;
            done.push(piece);
            cur = Vec::new();
        } else {
            cur.push(c);
        }
        i += 1;
    }
    assert(s@.subrange(0, s@.len() as int) =~= s@);
    done.push(cur);
    done
}

} // verus!
