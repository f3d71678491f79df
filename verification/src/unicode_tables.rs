//! Vietnamese character tables and the tone/mark arithmetic that operates on
//! individual characters.
use vstd::prelude::*;
use crate::rules::{mark_code, mark_of_code, tone_code, tone_or_none, Mark, Tone};
use crate::text::{ascii_alpha, ascii_digit, chars_of, is_ascii_alpha, is_ascii_digit, lower_char, seq_contains, to_lower};

verus! {

/// Number of entries in the vowel table.
pub const VOWEL_COUNT: usize = 72;

/// Position of `c` in the vowel table, which lists every Vietnamese vowel in
/// runs of six: the base vowel followed by its grave, acute, hook, tilde and
/// dot variants (`a à á ả ã ạ ă ằ … y ỳ ý ỷ ỹ ỵ`). The tone of an entry is
/// its position modulo six.
pub open spec fn vowel_pos(c: char) -> Option<nat> {
    match c {
        'a' => Some(0),
        'à' => Some(1),
        'á' => Some(2),
        'ả' => Some(3),
        'ã' => Some(4),
        'ạ' => Some(5),
        'ă' => Some(6),
        'ằ' => Some(7),
        'ắ' => Some(8),
        'ẳ' => Some(9),
        'ẵ' => Some(10),
        'ặ' => Some(11),
        'â' => Some(12),
        'ầ' => Some(13),
        'ấ' => Some(14),
        'ẩ' => Some(15),
        'ẫ' => Some(16),
        'ậ' => Some(17),
        'e' => Some(18),
        'è' => Some(19),
        'é' => Some(20),
        'ẻ' => Some(21),
        'ẽ' => Some(22),
        'ẹ' => Some(23),
        'ê' => Some(24),
        'ề' => Some(25),
        'ế' => Some(26),
        'ể' => Some(27),
        'ễ' => Some(28),
        'ệ' => Some(29),
        'i' => Some(30),
        'ì' => Some(31),
        'í' => Some(32),
        'ỉ' => Some(33),
        'ĩ' => Some(34),
        'ị' => Some(35),
        'o' => Some(36),
        'ò' => Some(37),
        'ó' => Some(38),
        'ỏ' => Some(39),
        'õ' => Some(40),
        'ọ' => Some(41),
        'ô' => Some(42),
        'ồ' => Some(43),
        'ố' => Some(44),
        'ổ' => Some(45),
        'ỗ' => Some(46),
        'ộ' => Some(47),
        'ơ' => Some(48),
        'ờ' => Some(49),
        'ớ' => Some(50),
        'ở' => Some(51),
        'ỡ' => Some(52),
        'ợ' => Some(53),
        'u' => Some(54),
        'ù' => Some(55),
        'ú' => Some(56),
        'ủ' => Some(57),
        'ũ' => Some(58),
        'ụ' => Some(59),
        'ư' => Some(60),
        'ừ' => Some(61),
        'ứ' => Some(62),
        'ử' => Some(63),
        'ữ' => Some(64),
        'ự' => Some(65),
        'y' => Some(66),
        'ỳ' => Some(67),
        'ý' => Some(68),
        'ỷ' => Some(69),
        'ỹ' => Some(70),
        'ỵ' => Some(71),
        _ => None,
    }
}

/// The vowel table entry at position `i` (for `i < 72`).
pub open spec fn vowel_at(i: nat) -> char {
    if i == 0 {
        'a'
    } else if i == 1 {
        'à'
    } else if i == 2 {
        'á'
    } else if i == 3 {
        'ả'
    } else if i == 4 {
        'ã'
    } else if i == 5 {
        'ạ'
    } else if i == 6 {
        'ă'
    } else if i == 7 {
        'ằ'
    } else if i == 8 {
        'ắ'
    } else if i == 9 {
        'ẳ'
    } else if i == 10 {
        'ẵ'
    } else if i == 11 {
        'ặ'
    } else if i == 12 {
        'â'
    } else if i == 13 {
        'ầ'
    } else if i == 14 {
        'ấ'
    } else if i == 15 {
        'ẩ'
    } else if i == 16 {
        'ẫ'
    } else if i == 17 {
        'ậ'
    } else if i == 18 {
        'e'
    } else if i == 19 {
        'è'
    } else if i == 20 {
        'é'
    } else if i == 21 {
        'ẻ'
    } else if i == 22 {
        'ẽ'
    } else if i == 23 {
        'ẹ'
    } else if i == 24 {
        'ê'
    } else if i == 25 {
        'ề'
    } else if i == 26 {
        'ế'
    } else if i == 27 {
        'ể'
    } else if i == 28 {
        'ễ'
    } else if i == 29 {
        'ệ'
    } else if i == 30 {
        'i'
    } else if i == 31 {
        'ì'
    } else if i == 32 {
        'í'
    } else if i == 33 {
        'ỉ'
    } else if i == 34 {
        'ĩ'
    } else if i == 35 {
        'ị'
    } else if i == 36 {
        'o'
    } else if i == 37 {
        'ò'
    } else if i == 38 {
        'ó'
    } else if i == 39 {
        'ỏ'
    } else if i == 40 {
        'õ'
    } else if i == 41 {
        'ọ'
    } else if i == 42 {
        'ô'
    } else if i == 43 {
        'ồ'
    } else if i == 44 {
        'ố'
    } else if i == 45 {
        'ổ'
    } else if i == 46 {
        'ỗ'
    } else if i == 47 {
        'ộ'
    } else if i == 48 {
        'ơ'
    } else if i == 49 {
        'ờ'
    } else if i == 50 {
        'ớ'
    } else if i == 51 {
        'ở'
    } else if i == 52 {
        'ỡ'
    } else if i == 53 {
        'ợ'
    } else if i == 54 {
        'u'
    } else if i == 55 {
        'ù'
    } else if i == 56 {
        'ú'
    } else if i == 57 {
        'ủ'
    } else if i == 58 {
        'ũ'
    } else if i == 59 {
        'ụ'
    } else if i == 60 {
        'ư'
    } else if i == 61 {
        'ừ'
    } else if i == 62 {
        'ứ'
    } else if i == 63 {
        'ử'
    } else if i == 64 {
        'ữ'
    } else if i == 65 {
        'ự'
    } else if i == 66 {
        'y'
    } else if i == 67 {
        'ỳ'
    } else if i == 68 {
        'ý'
    } else if i == 69 {
        'ỷ'
    } else if i == 70 {
        'ỹ'
    } else if i == 71 {
        'ỵ'
    } else {
        '\0'
    }
}

/// Whether `c` is a Vietnamese vowel (in any tone, lowercase).
pub open spec fn is_vowel_char(c: char) -> bool {
    vowel_pos(c) is Some
}

/// For each markable character, its five-character family indexed by mark
/// (none, hat, breve, horn, dash); `_` marks an absent slot.
pub open spec fn mark_family(c: char) -> Option<Seq<char>> {
    match c {
        'a' => Some(seq!['a', 'â', 'ă', '_', '_']),
        'â' => Some(seq!['a', 'â', 'ă', '_', '_']),
        'ă' => Some(seq!['a', 'â', 'ă', '_', '_']),
        'e' => Some(seq!['e', 'ê', '_', '_', '_']),
        'ê' => Some(seq!['e', 'ê', '_', '_', '_']),
        'o' => Some(seq!['o', 'ô', '_', 'ơ', '_']),
        'ô' => Some(seq!['o', 'ô', '_', 'ơ', '_']),
        'ơ' => Some(seq!['o', 'ô', '_', 'ơ', '_']),
        'u' => Some(seq!['u', '_', '_', 'ư', '_']),
        'ư' => Some(seq!['u', '_', '_', 'ư', '_']),
        'd' => Some(seq!['d', '_', '_', '_', 'đ']),
        'đ' => Some(seq!['d', '_', '_', '_', 'đ']),
        _ => None,
    }
}

/// The index of `c` within its own mark family.
pub open spec fn mark_pos(c: char) -> Option<nat> {
    match c {
        'a' => Some(0),
        'â' => Some(1),
        'ă' => Some(2),
        'e' => Some(0),
        'ê' => Some(1),
        'o' => Some(0),
        'ô' => Some(1),
        'ơ' => Some(3),
        'u' => Some(0),
        'ư' => Some(3),
        'd' => Some(0),
        'đ' => Some(4),
        _ => None,
    }
}

/// Symbols that break a word boundary.
pub open spec fn is_punctuation(c: char) -> bool {
    c == ',' || c == ';' || c == ':' || c == '.' || c == '"' || c == '\'' || c == '!' || c == '?' || c == ' ' || c == '<' || c == '>' || c == '=' || c == '+' || c == '-' || c == '*' || c == '/' || c == '\\' || c == '_' || c == '~' || c == '`' || c == '@' || c == '#' || c == '$' || c == '%' || c == '^' || c == '&' || c == '(' || c == ')' || c == '{' || c == '}' || c == '[' || c == ']' || c == '|'
}

/// A punctuation mark or an ASCII digit.
pub open spec fn is_word_break(c: char) -> bool {
    is_punctuation(c) || is_ascii_digit(c)
}

/// The tone a character carries.
pub open spec fn tone_of_char(c: char) -> Tone {
    match vowel_pos(c) {
        Some(p) => tone_or_none((p % 6) as u8),
        None => Tone::NoTone,
    }
}

/// Whether `tone` can be put on `c` without leaving the vowel table.
pub open spec fn tone_fits(c: char, tone: u8) -> bool {
    match vowel_pos(c) {
        Some(p) => p - p % 6 + tone < 72,
        None => true,
    }
}

/// `c` with its tone replaced by `tone`; non-vowels are unchanged.
pub open spec fn with_tone(c: char, tone: u8) -> char {
    match vowel_pos(c) {
        Some(p) => vowel_at((p - p % 6 + tone) as nat),
        None => c,
    }
}

/// The toneless `c` with its mark replaced by `mark`, where the family has
/// such a member; otherwise `c` unchanged.
pub open spec fn with_mark_toneless(c: char, mark: u8) -> char {
    match mark_family(c) {
        Some(f) => if mark < 5 && f[mark as int] != '_' {
            f[mark as int]
        } else {
            c
        },
        None => c,
    }
}

/// `c` with its mark replaced by `mark`, keeping its tone.
pub open spec fn with_mark(c: char, mark: u8) -> char {
    with_tone(with_mark_toneless(with_tone(c, 0), mark), tone_code(tone_of_char(c)))
}

/// The mark `c` carries, if it belongs to a mark family.
pub open spec fn mark_of_char(c: char) -> Option<Mark> {
    match mark_pos(c) {
        Some(p) => mark_of_code(p as u8),
        None => None,
    }
}

/// Whether `c` (lowercase) is specific to Vietnamese: it carries a tone or a
/// mark.
pub open spec fn is_vietnamese_char(c: char) -> bool {
    tone_of_char(c) != Tone::NoTone || c != with_mark_toneless(c, 0)
}

/// Whether the engine handles `lower_key`: an ASCII letter, a key bound by
/// the input method, or a Vietnamese character that is not a word break.
pub open spec fn can_process(lower_key: char, effect_keys: Seq<char>) -> bool {
    if is_ascii_alpha(lower_key) || effect_keys.contains(lower_key) {
        true
    } else if is_word_break(lower_key) {
        false
    } else {
        is_vietnamese_char(lower_key)
    }
}

pub proof fn lemma_vowel_table(c: char)
    ensures
        vowel_pos(c) matches Some(p) ==> p < 72 && vowel_at(p) == c,
{
}

pub proof fn lemma_vowel_table_index(i: nat)
    requires
        i < 72,
    ensures
        vowel_pos(vowel_at(i)) == Some(i),
{
}

pub fn find_vowel_position(c: char) -> (r: Option<usize>)
    ensures
        r matches Some(p) ==> vowel_pos(c) == Some(p as nat),
        r is None ==> vowel_pos(c) is None,
{
    match c {
        'a' => Some(0),
        'à' => Some(1),
        'á' => Some(2),
        'ả' => Some(3),
        'ã' => Some(4),
        'ạ' => Some(5),
        'ă' => Some(6),
        'ằ' => Some(7),
        'ắ' => Some(8),
        'ẳ' => Some(9),
        'ẵ' => Some(10),
        'ặ' => Some(11),
        'â' => Some(12),
        'ầ' => Some(13),
        'ấ' => Some(14),
        'ẩ' => Some(15),
        'ẫ' => Some(16),
        'ậ' => Some(17),
        'e' => Some(18),
        'è' => Some(19),
        'é' => Some(20),
        'ẻ' => Some(21),
        'ẽ' => Some(22),
        'ẹ' => Some(23),
        'ê' => Some(24),
        'ề' => Some(25),
        'ế' => Some(26),
        'ể' => Some(27),
        'ễ' => Some(28),
        'ệ' => Some(29),
        'i' => Some(30),
        'ì' => Some(31),
        'í' => Some(32),
        'ỉ' => Some(33),
        'ĩ' => Some(34),
        'ị' => Some(35),
        'o' => Some(36),
        'ò' => Some(37),
        'ó' => Some(38),
        'ỏ' => Some(39),
        'õ' => Some(40),
        'ọ' => Some(41),
        'ô' => Some(42),
        'ồ' => Some(43),
        'ố' => Some(44),
        'ổ' => Some(45),
        'ỗ' => Some(46),
        'ộ' => Some(47),
        'ơ' => Some(48),
        'ờ' => Some(49),
        'ớ' => Some(50),
        'ở' => Some(51),
        'ỡ' => Some(52),
        'ợ' => Some(53),
        'u' => Some(54),
        'ù' => Some(55),
        'ú' => Some(56),
        'ủ' => Some(57),
        'ũ' => Some(58),
        'ụ' => Some(59),
        'ư' => Some(60),
        'ừ' => Some(61),
        'ứ' => Some(62),
        'ử' => Some(63),
        'ữ' => Some(64),
        'ự' => Some(65),
        'y' => Some(66),
        'ỳ' => Some(67),
        'ý' => Some(68),
        'ỷ' => Some(69),
        'ỹ' => Some(70),
        'ỵ' => Some(71),
        _ => None,
    }
}

/// The vowel at position `i` of the vowel table.
pub fn vowel_char(i: usize) -> (r: char)
    requires
        i < 72,
    ensures
        r == vowel_at(i as nat),
{
    match i {
        0 => 'a',
        1 => 'à',
        2 => 'á',
        3 => 'ả',
        4 => 'ã',
        5 => 'ạ',
        6 => 'ă',
        7 => 'ằ',
        8 => 'ắ',
        9 => 'ẳ',
        10 => 'ẵ',
        11 => 'ặ',
        12 => 'â',
        13 => 'ầ',
        14 => 'ấ',
        15 => 'ẩ',
        16 => 'ẫ',
        17 => 'ậ',
        18 => 'e',
        19 => 'è',
        20 => 'é',
        21 => 'ẻ',
        22 => 'ẽ',
        23 => 'ẹ',
        24 => 'ê',
        25 => 'ề',
        26 => 'ế',
        27 => 'ể',
        28 => 'ễ',
        29 => 'ệ',
        30 => 'i',
        31 => 'ì',
        32 => 'í',
        33 => 'ỉ',
        34 => 'ĩ',
        35 => 'ị',
        36 => 'o',
        37 => 'ò',
        38 => 'ó',
        39 => 'ỏ',
        40 => 'õ',
        41 => 'ọ',
        42 => 'ô',
        43 => 'ồ',
        44 => 'ố',
        45 => 'ổ',
        46 => 'ỗ',
        47 => 'ộ',
        48 => 'ơ',
        49 => 'ờ',
        50 => 'ớ',
        51 => 'ở',
        52 => 'ỡ',
        53 => 'ợ',
        54 => 'u',
        55 => 'ù',
        56 => 'ú',
        57 => 'ủ',
        58 => 'ũ',
        59 => 'ụ',
        60 => 'ư',
        61 => 'ừ',
        62 => 'ứ',
        63 => 'ử',
        64 => 'ữ',
        65 => 'ự',
        66 => 'y',
        67 => 'ỳ',
        68 => 'ý',
        69 => 'ỷ',
        70 => 'ỹ',
        71 => 'ỵ',
        _ => '\0',
    }
}

pub fn is_vowel(c: char) -> (r: bool)
    ensures
        r == is_vowel_char(c),
{
    find_vowel_position(c).is_some()
}

fn mark_family_of(c: char) -> (r: Option<[char; 5]>)
    ensures
        r is Some <==> mark_family(c) is Some,
        r matches Some(a) ==> a@ == mark_family(c).unwrap(),
{
    match c {
        'a' => Some(['a', 'â', 'ă', '_', '_']),
        'â' => Some(['a', 'â', 'ă', '_', '_']),
        'ă' => Some(['a', 'â', 'ă', '_', '_']),
        'e' => Some(['e', 'ê', '_', '_', '_']),
        'ê' => Some(['e', 'ê', '_', '_', '_']),
        'o' => Some(['o', 'ô', '_', 'ơ', '_']),
        'ô' => Some(['o', 'ô', '_', 'ơ', '_']),
        'ơ' => Some(['o', 'ô', '_', 'ơ', '_']),
        'u' => Some(['u', '_', '_', 'ư', '_']),
        'ư' => Some(['u', '_', '_', 'ư', '_']),
        'd' => Some(['d', '_', '_', '_', 'đ']),
        'đ' => Some(['d', '_', '_', '_', 'đ']),
        _ => None,
    }
}

pub fn find_mark_position(c: char) -> (r: Option<usize>)
    ensures
        r matches Some(p) ==> mark_pos(c) == Some(p as nat),
        r is None ==> mark_pos(c) is None,
{
    match c {
        'a' => Some(0),
        'â' => Some(1),
        'ă' => Some(2),
        'e' => Some(0),
        'ê' => Some(1),
        'o' => Some(0),
        'ô' => Some(1),
        'ơ' => Some(3),
        'u' => Some(0),
        'ư' => Some(3),
        'd' => Some(0),
        'đ' => Some(4),
        _ => None,
    }
}

pub fn is_punctuation_mark(c: char) -> (r: bool)
    ensures
        r == is_punctuation(c),
{
    c == ',' || c == ';' || c == ':' || c == '.' || c == '"' || c == '\'' || c == '!' || c == '?' || c == ' ' || c == '<' || c == '>' || c == '=' || c == '+' || c == '-' || c == '*' || c == '/' || c == '\\' || c == '_' || c == '~' || c == '`' || c == '@' || c == '#' || c == '$' || c == '%' || c == '^' || c == '&' || c == '(' || c == ')' || c == '{' || c == '}' || c == '[' || c == ']' || c == '|'
}

pub fn is_word_break_symbol(c: char) -> (r: bool)
    ensures
        r == is_word_break(c),
{
    is_punctuation_mark(c) || ascii_digit(c)
}

pub fn is_space(c: char) -> (r: bool)
    ensures
        r == (c == ' '),
{
    c == ' '
}

pub fn find_tone_from_char(c: char) -> (r: Tone)
    ensures
        r == tone_of_char(c),
{
    match find_vowel_position(c) {
        Some(p) => Tone::from_code_or_none((p % 6) as u8),
        None => Tone::NoTone,
    }
}

pub fn add_tone_to_char(c: char, tone: u8) -> (r: char)
    requires
        tone_fits(c, tone),
    ensures
        r == with_tone(c, tone),
{
    match find_vowel_position(c) {
        Some(p) => vowel_char(p - p % 6 + tone as usize),
        None => c,
    }
}

pub fn add_mark_to_toneless_char(c: char, mark: u8) -> (r: char)
    ensures
        r == with_mark_toneless(c, mark),
{
    match mark_family_of(c) {
        Some(f) => {
            if mark < 5 && f[mark as usize] != '_' {
                f[mark as usize]
            } else {
                c
            }
        },
        None => c,
    }
}

pub proof fn lemma_tone_fits_small(c: char, tone: u8)
    requires
        tone <= 5,
    ensures
        tone_fits(c, tone),
{
    lemma_vowel_table(c);
}

pub proof fn lemma_tone_of_char_small(c: char)
    ensures
        tone_code(tone_of_char(c)) <= 5,
{
}

pub fn add_mark_to_char(c: char, mark: u8) -> (r: char)
    ensures
        r == with_mark(c, mark),
{
    let tone = find_tone_from_char(c);
    proof {
        lemma_tone_fits_small(c, 0);
        lemma_tone_of_char_small(c);
    }
    let toneless = add_tone_to_char(c, 0);
    let marked = add_mark_to_toneless_char(toneless, mark);
    proof {
        lemma_tone_fits_small(marked, tone_code(tone));
    }
    add_tone_to_char(marked, tone.code())
}

pub fn find_mark_from_char(c: char) -> (r: Option<Mark>)
    ensures
        r == mark_of_char(c),
{
    match find_mark_position(c) {
        Some(p) => Mark::from_code(p as u8),
        None => None,
    }
}

/// The members of `c`'s mark family, in mark order, without absent slots.
pub open spec fn family_members(c: char) -> Seq<char> {
    match mark_family(c) {
        Some(f) => f.filter(|x: char| x != '_'),
        None => Seq::empty(),
    }
}

pub fn get_mark_family(c: char) -> (r: Vec<char>)
    ensures
        r@ == family_members(c),
{
    let mut out: Vec<char> = Vec::new();
    match mark_family_of(c) {
        Some(f) => {
            let ghost fs = f@;
            let mut i: usize = 0;
            while i < 5
                invariant
                    i <= 5,
                    fs == f@,
                    fs.len() == 5,
                    out@ == fs.subrange(0, i as int).filter(|x: char| x != '_'),
                decreases 5 - i,
            {
                proof {
                    reveal_with_fuel(Seq::filter, 1);
                    assert(fs.subrange(0, i + 1).drop_last() =~= fs.subrange(0, i as int));
                }
                if f[i] != '_' {
                    out.push(f[i]);
                }
                i += 1;
            }
            assert(fs.subrange(0, 5) =~= fs);
        },
        None => {},
    }
    out
}

pub fn is_vietnamese_rune(c: char) -> (r: bool)
    ensures
        r == is_vietnamese_char(c),
{
    let t = find_tone_from_char(c);
    if t != Tone::NoTone {
        return true;
    }
    c != add_mark_to_toneless_char(c, 0)
}

pub fn can_process_key(lower_key: char, effect_keys: &[char]) -> (r: bool)
    ensures
        r == can_process(lower_key, effect_keys@),
{
    if ascii_alpha(lower_key) || seq_contains(effect_keys, lower_key) {
        return true;
    }
    if is_word_break_symbol(lower_key) {
        return false;
    }
    is_vietnamese_rune(lower_key)
}

/// Whether some character of `word`, lowercased, is Vietnamese-specific.
pub open spec fn any_vietnamese_rune(word: Seq<char>) -> bool {
    exists|i: int| 0 <= i < word.len() && is_vietnamese_char(#[trigger] to_lower(word[i]))
}

/// Whether some character of `word`, lowercased, is a Vietnamese vowel.
pub open spec fn any_vietnamese_vowel(word: Seq<char>) -> bool {
    exists|i: int| 0 <= i < word.len() && is_vowel_char(#[trigger] to_lower(word[i]))
}

/// Whether `word` contains any Vietnamese-specific character.
pub fn has_any_vietnamese_rune(word: &str) -> (r: bool)
    ensures
        r == any_vietnamese_rune(word@),
{
    let cs = chars_of(word);
    let mut i: usize = 0;
    while i < cs.len()
        invariant
            cs@ == word@,
            i <= cs@.len(),
            forall|j: int| 0 <= j < i ==> !is_vietnamese_char(#[trigger] to_lower(cs@[j])),
        decreases cs@.len() - i,
    {
        if is_vietnamese_rune(lower_char(cs[i])) {
            return true;
        }
        i += 1;
    }
    false
}

/// Whether `word` contains any Vietnamese vowel.
pub fn has_any_vietnamese_vowel(word: &str) -> (r: bool)
    ensures
        r == any_vietnamese_vowel(word@),
{
    let cs = chars_of(word);
    let mut i: usize = 0;
    while i < cs.len()
        invariant
            cs@ == word@,
            i <= cs@.len(),
            forall|j: int| 0 <= j < i ==> !is_vowel_char(#[trigger] to_lower(cs@[j])),
        decreases cs@.len() - i,
    {
        if is_vowel(lower_char(cs[i])) {
            return true;
        }
        i += 1;
    }
    false
}


/// Putting tone `t` on a vowel gives a vowel carrying exactly tone `t`.
pub proof fn law_tone_roundtrip(c: char, t: u8)
    requires
        is_vowel_char(c),
        t <= 5,
    ensures
        is_vowel_char(with_tone(c, t)),
        tone_of_char(with_tone(c, t)) == tone_or_none(t),
{
    lemma_vowel_table(c);
    let p = vowel_pos(c).unwrap();
    let q = (p - p % 6 + t) as nat;
    assert(q < 72 && q % 6 == t) by (nonlinear_arith)
        requires
            p < 72,
            t <= 5,
            q == p - p % 6 + t,
    ;
    lemma_vowel_table_index(q);
}

/// Re-toning a vowel only depends on the last tone put on it.
pub proof fn law_retone_forgets_tone(c: char, t1: u8, t2: u8)
    requires
        t1 <= 5,
        t2 <= 5,
    ensures
        with_tone(with_tone(c, t1), t2) == with_tone(c, t2),
{
    lemma_vowel_table(c);
    if let Some(p) = vowel_pos(c) {
        let q = (p - p % 6 + t1) as nat;
        assert(q < 72 && q - q % 6 == p - p % 6) by (nonlinear_arith)
            requires
                p < 72,
                t1 <= 5,
                q == p - p % 6 + t1,
        ;
        lemma_vowel_table_index(q);
    }
}

/// Changing a character's mark keeps its tone.
pub proof fn law_mark_keeps_tone(c: char, m: u8)
    ensures
        tone_of_char(with_mark(c, m)) == tone_of_char(c),
{
    lemma_vowel_table(c);
    let t = tone_code(tone_of_char(c));
    lemma_tone_of_char_small(c);
    let base = with_tone(c, 0);
    let marked = with_mark_toneless(base, m);
    if is_vowel_char(c) {
        law_tone_roundtrip(c, 0);
        assert(is_vowel_char(base));
        assert(is_vowel_char(marked));
        law_tone_roundtrip(marked, t);
        let p = vowel_pos(c).unwrap();
        assert(tone_of_char(c) == tone_or_none((p % 6) as u8));
    } else {
        assert(base == c);
        assert(!is_vowel_char(marked));
    }
}

/// The vowel table in its documented order: each base vowel followed by its
/// grave, acute, hook-above, tilde and dot-below forms.
pub open spec fn vowel_order() -> Seq<char> {
    "aàáảãạăằắẳẵặâầấẩẫậeèéẻẽẹêềếểễệiìíỉĩịoòóỏõọôồốổỗộơờớởỡợuùúủũụưừứửữựyỳýỷỹỵ"@
}

/// The vowel table is the documented order: entry `i` is the `i`-th
/// character of [`vowel_order`], and each of those characters sits at its
/// own position; so a tone code applied to a vowel gives the vowel of that
/// tone in the documented order (e.g. hook above on `o` gives `ỏ`).
pub proof fn law_vowel_table_is_documented_order()
    ensures
        vowel_order().len() == 72,
        forall|i: nat| i < 72 ==> #[trigger] vowel_at(i) == vowel_order()[i as int],
        forall|i: nat| i < 72 ==> vowel_pos(#[trigger] vowel_order()[i as int]) == Some(i),
        forall|i: nat, t: u8|
            i < 72 && t <= 5 && i - i % 6 + t < 72 ==> #[trigger] with_tone(vowel_order()[i as int], t)
                == vowel_order()[i - i % 6 + t],
        forall|i: nat| i < 72 ==> #[trigger] tone_of_char(vowel_order()[i as int]) == tone_or_none((i % 6) as u8),
{
    reveal_strlit("aàáảãạăằắẳẵặâầấẩẫậeèéẻẽẹêềếểễệiìíỉĩịoòóỏõọôồốổỗộơờớởỡợuùúủũụưừứửữựyỳýỷỹỵ");
    assert forall|i: nat| i < 72 implies #[trigger] vowel_at(i) == vowel_order()[i as int]
        && vowel_pos(vowel_order()[i as int]) == Some(i) by {
        assert(i == 0 || i == 1 || i == 2 || i == 3 || i == 4 || i == 5 || i == 6 || i == 7 || i == 8 || i == 9 || i == 10 || i == 11 || i == 12 || i == 13 || i == 14 || i == 15 || i == 16 || i == 17 || i == 18 || i == 19 || i == 20 || i == 21 || i == 22 || i == 23 || i == 24 || i == 25 || i == 26 || i == 27 || i == 28 || i == 29 || i == 30 || i == 31 || i == 32 || i == 33 || i == 34 || i == 35 || i == 36 || i == 37 || i == 38 || i == 39 || i == 40 || i == 41 || i == 42 || i == 43 || i == 44 || i == 45 || i == 46 || i == 47 || i == 48 || i == 49 || i == 50 || i == 51 || i == 52 || i == 53 || i == 54 || i == 55 || i == 56 || i == 57 || i == 58 || i == 59 || i == 60 || i == 61 || i == 62 || i == 63 || i == 64 || i == 65 || i == 66 || i == 67 || i == 68 || i == 69 || i == 70 || i == 71);
    }    assert forall|i: nat, t: u8| i < 72 && t <= 5 && i - i % 6 + t < 72 implies #[trigger] with_tone(
        vowel_order()[i as int],
        t,
    ) == vowel_order()[i - i % 6 + t] by {
        assert(vowel_pos(vowel_order()[i as int]) == Some(i));
        let j = (i - i % 6 + t) as nat;
        assert(vowel_at(j) == vowel_order()[j as int]);
    }
    assert forall|i: nat| i < 72 implies #[trigger] tone_of_char(vowel_order()[i as int]) == tone_or_none(
        (i % 6) as u8,
    ) by {
        assert(vowel_pos(vowel_order()[i as int]) == Some(i));
    }
}

} // verus!
