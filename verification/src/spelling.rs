//! Vietnamese phonotactic validation: whether a (first-consonant, vowel,
//! last-consonant) decomposition forms a spellable syllable.
use vstd::prelude::*;
use crate::composition::{comp_wf, cv, Transformation, TransV};
use crate::cvc::{group, indices_ok, materialize_group};
use crate::flatten::{flatten, flatten_spec};
use crate::mode::Mode;
use crate::unicode_tables::{add_mark_to_toneless_char, with_mark_toneless};

verus! {

/// One spelling token: the compatibility class it belongs to and its one to
/// three characters.
#[derive(Clone, Copy, PartialEq, Eq, Structural, Debug)]
pub struct Token {
    pub class: u16,
    pub len: usize,
    pub c0: char,
    pub c1: char,
    pub c2: char,
}

/// Table numbers: initial consonant clusters, vowel nuclei and final
/// consonant clusters.
pub const FIRST_CONSONANTS: u8 = 0;
pub const VOWELS: u8 = 1;
pub const LAST_CONSONANTS: u8 = 2;

/// Number of tokens in a table.
pub open spec fn table_len(table: u8) -> int {
    if table == 0 {
        31
    } else if table == 1 {
        57
    } else if table == 2 {
        10
    } else {
        0
    }
}

fn table_size(table: u8) -> (r: usize)
    ensures
        r == table_len(table),
{
    if table == 0 {
        31
    } else if table == 1 {
        57
    } else if table == 2 {
        10
    } else {
        0
    }
}

/// The characters of a token.
pub open spec fn token_chars(t: Token) -> Seq<char> {
    if t.len == 1 {
        seq![t.c0]
    } else if t.len == 2 {
        seq![t.c0, t.c1]
    } else {
        seq![t.c0, t.c1, t.c2]
    }
}

/// The tables, in class order. Initial consonants:
/// `b d đ g gh m n nh p ph r s t tr v z | c h k kh qu th | ch gi l ng ngh x | đ l | h`.
/// Vowels: `ê i ua uê uy y | a iê oa uyê yê | â ă e o oo ô ơ oe u ư uâ uô ươ |
/// oă | uơ | ai ao au âu ay ây eo êu ia iêu iu oai oao oay oeo oi ôi ơi ưa uây
/// ui ưi uôi ươi ươu ưu uya uyu yêu | ă | i`.
/// Final consonants: `ch nh | c ng | m n p t | k | c`.
pub open spec fn table_token(table: u8, i: int) -> Token {
    if false {
        Token { class: 0, len: 1, c0: '\0', c1: '\0', c2: '\0' }
    } else if table == 0 {
        if i == 0 {
            Token { class: 0, len: 1, c0: 'b', c1: '\0', c2: '\0' }
        } else if i == 1 {
            Token { class: 0, len: 1, c0: 'd', c1: '\0', c2: '\0' }
        } else if i == 2 {
            Token { class: 0, len: 1, c0: 'đ', c1: '\0', c2: '\0' }
        } else if i == 3 {
            Token { class: 0, len: 1, c0: 'g', c1: '\0', c2: '\0' }
        } else if i == 4 {
            Token { class: 0, len: 2, c0: 'g', c1: 'h', c2: '\0' }
        } else if i == 5 {
            Token { class: 0, len: 1, c0: 'm', c1: '\0', c2: '\0' }
        } else if i == 6 {
            Token { class: 0, len: 1, c0: 'n', c1: '\0', c2: '\0' }
        } else if i == 7 {
            Token { class: 0, len: 2, c0: 'n', c1: 'h', c2: '\0' }
        } else if i == 8 {
            Token { class: 0, len: 1, c0: 'p', c1: '\0', c2: '\0' }
        } else if i == 9 {
            Token { class: 0, len: 2, c0: 'p', c1: 'h', c2: '\0' }
        } else if i == 10 {
            Token { class: 0, len: 1, c0: 'r', c1: '\0', c2: '\0' }
        } else if i == 11 {
            Token { class: 0, len: 1, c0: 's', c1: '\0', c2: '\0' }
        } else if i == 12 {
            Token { class: 0, len: 1, c0: 't', c1: '\0', c2: '\0' }
        } else if i == 13 {
            Token { class: 0, len: 2, c0: 't', c1: 'r', c2: '\0' }
        } else if i == 14 {
            Token { class: 0, len: 1, c0: 'v', c1: '\0', c2: '\0' }
        } else if i == 15 {
            Token { class: 0, len: 1, c0: 'z', c1: '\0', c2: '\0' }
        } else if i == 16 {
            Token { class: 1, len: 1, c0: 'c', c1: '\0', c2: '\0' }
        } else if i == 17 {
            Token { class: 1, len: 1, c0: 'h', c1: '\0', c2: '\0' }
        } else if i == 18 {
            Token { class: 1, len: 1, c0: 'k', c1: '\0', c2: '\0' }
        } else if i == 19 {
            Token { class: 1, len: 2, c0: 'k', c1: 'h', c2: '\0' }
        } else if i == 20 {
            Token { class: 1, len: 2, c0: 'q', c1: 'u', c2: '\0' }
        } else if i == 21 {
            Token { class: 1, len: 2, c0: 't', c1: 'h', c2: '\0' }
        } else if i == 22 {
            Token { class: 2, len: 2, c0: 'c', c1: 'h', c2: '\0' }
        } else if i == 23 {
            Token { class: 2, len: 2, c0: 'g', c1: 'i', c2: '\0' }
        } else if i == 24 {
            Token { class: 2, len: 1, c0: 'l', c1: '\0', c2: '\0' }
        } else if i == 25 {
            Token { class: 2, len: 2, c0: 'n', c1: 'g', c2: '\0' }
        } else if i == 26 {
            Token { class: 2, len: 3, c0: 'n', c1: 'g', c2: 'h' }
        } else if i == 27 {
            Token { class: 2, len: 1, c0: 'x', c1: '\0', c2: '\0' }
        } else if i == 28 {
            Token { class: 3, len: 1, c0: 'đ', c1: '\0', c2: '\0' }
        } else if i == 29 {
            Token { class: 3, len: 1, c0: 'l', c1: '\0', c2: '\0' }
        } else if i == 30 {
            Token { class: 4, len: 1, c0: 'h', c1: '\0', c2: '\0' }
        } else {
            Token { class: 0, len: 1, c0: '\0', c1: '\0', c2: '\0' }
        }
    } else if table == 1 {
        if i == 0 {
            Token { class: 0, len: 1, c0: 'ê', c1: '\0', c2: '\0' }
        } else if i == 1 {
            Token { class: 0, len: 1, c0: 'i', c1: '\0', c2: '\0' }
        } else if i == 2 {
            Token { class: 0, len: 2, c0: 'u', c1: 'a', c2: '\0' }
        } else if i == 3 {
            Token { class: 0, len: 2, c0: 'u', c1: 'ê', c2: '\0' }
        } else if i == 4 {
            Token { class: 0, len: 2, c0: 'u', c1: 'y', c2: '\0' }
        } else if i == 5 {
            Token { class: 0, len: 1, c0: 'y', c1: '\0', c2: '\0' }
        } else if i == 6 {
            Token { class: 1, len: 1, c0: 'a', c1: '\0', c2: '\0' }
        } else if i == 7 {
            Token { class: 1, len: 2, c0: 'i', c1: 'ê', c2: '\0' }
        } else if i == 8 {
            Token { class: 1, len: 2, c0: 'o', c1: 'a', c2: '\0' }
        } else if i == 9 {
            Token { class: 1, len: 3, c0: 'u', c1: 'y', c2: 'ê' }
        } else if i == 10 {
            Token { class: 1, len: 2, c0: 'y', c1: 'ê', c2: '\0' }
        } else if i == 11 {
            Token { class: 2, len: 1, c0: 'â', c1: '\0', c2: '\0' }
        } else if i == 12 {
            Token { class: 2, len: 1, c0: 'ă', c1: '\0', c2: '\0' }
        } else if i == 13 {
            Token { class: 2, len: 1, c0: 'e', c1: '\0', c2: '\0' }
        } else if i == 14 {
            Token { class: 2, len: 1, c0: 'o', c1: '\0', c2: '\0' }
        } else if i == 15 {
            Token { class: 2, len: 2, c0: 'o', c1: 'o', c2: '\0' }
        } else if i == 16 {
            Token { class: 2, len: 1, c0: 'ô', c1: '\0', c2: '\0' }
        } else if i == 17 {
            Token { class: 2, len: 1, c0: 'ơ', c1: '\0', c2: '\0' }
        } else if i == 18 {
            Token { class: 2, len: 2, c0: 'o', c1: 'e', c2: '\0' }
        } else if i == 19 {
            Token { class: 2, len: 1, c0: 'u', c1: '\0', c2: '\0' }
        } else if i == 20 {
            Token { class: 2, len: 1, c0: 'ư', c1: '\0', c2: '\0' }
        } else if i == 21 {
            Token { class: 2, len: 2, c0: 'u', c1: 'â', c2: '\0' }
        } else if i == 22 {
            Token { class: 2, len: 2, c0: 'u', c1: 'ô', c2: '\0' }
        } else if i == 23 {
            Token { class: 2, len: 2, c0: 'ư', c1: 'ơ', c2: '\0' }
        } else if i == 24 {
            Token { class: 3, len: 2, c0: 'o', c1: 'ă', c2: '\0' }
        } else if i == 25 {
            Token { class: 4, len: 2, c0: 'u', c1: 'ơ', c2: '\0' }
        } else if i == 26 {
            Token { class: 5, len: 2, c0: 'a', c1: 'i', c2: '\0' }
        } else if i == 27 {
            Token { class: 5, len: 2, c0: 'a', c1: 'o', c2: '\0' }
        } else if i == 28 {
            Token { class: 5, len: 2, c0: 'a', c1: 'u', c2: '\0' }
        } else if i == 29 {
            Token { class: 5, len: 2, c0: 'â', c1: 'u', c2: '\0' }
        } else if i == 30 {
            Token { class: 5, len: 2, c0: 'a', c1: 'y', c2: '\0' }
        } else if i == 31 {
            Token { class: 5, len: 2, c0: 'â', c1: 'y', c2: '\0' }
        } else if i == 32 {
            Token { class: 5, len: 2, c0: 'e', c1: 'o', c2: '\0' }
        } else if i == 33 {
            Token { class: 5, len: 2, c0: 'ê', c1: 'u', c2: '\0' }
        } else if i == 34 {
            Token { class: 5, len: 2, c0: 'i', c1: 'a', c2: '\0' }
        } else if i == 35 {
            Token { class: 5, len: 3, c0: 'i', c1: 'ê', c2: 'u' }
        } else if i == 36 {
            Token { class: 5, len: 2, c0: 'i', c1: 'u', c2: '\0' }
        } else if i == 37 {
            Token { class: 5, len: 3, c0: 'o', c1: 'a', c2: 'i' }
        } else if i == 38 {
            Token { class: 5, len: 3, c0: 'o', c1: 'a', c2: 'o' }
        } else if i == 39 {
            Token { class: 5, len: 3, c0: 'o', c1: 'a', c2: 'y' }
        } else if i == 40 {
            Token { class: 5, len: 3, c0: 'o', c1: 'e', c2: 'o' }
        } else if i == 41 {
            Token { class: 5, len: 2, c0: 'o', c1: 'i', c2: '\0' }
        } else if i == 42 {
            Token { class: 5, len: 2, c0: 'ô', c1: 'i', c2: '\0' }
        } else if i == 43 {
            Token { class: 5, len: 2, c0: 'ơ', c1: 'i', c2: '\0' }
        } else if i == 44 {
            Token { class: 5, len: 2, c0: 'ư', c1: 'a', c2: '\0' }
        } else if i == 45 {
            Token { class: 5, len: 3, c0: 'u', c1: 'â', c2: 'y' }
        } else if i == 46 {
            Token { class: 5, len: 2, c0: 'u', c1: 'i', c2: '\0' }
        } else if i == 47 {
            Token { class: 5, len: 2, c0: 'ư', c1: 'i', c2: '\0' }
        } else if i == 48 {
            Token { class: 5, len: 3, c0: 'u', c1: 'ô', c2: 'i' }
        } else if i == 49 {
            Token { class: 5, len: 3, c0: 'ư', c1: 'ơ', c2: 'i' }
        } else if i == 50 {
            Token { class: 5, len: 3, c0: 'ư', c1: 'ơ', c2: 'u' }
        } else if i == 51 {
            Token { class: 5, len: 2, c0: 'ư', c1: 'u', c2: '\0' }
        } else if i == 52 {
            Token { class: 5, len: 3, c0: 'u', c1: 'y', c2: 'a' }
        } else if i == 53 {
            Token { class: 5, len: 3, c0: 'u', c1: 'y', c2: 'u' }
        } else if i == 54 {
            Token { class: 5, len: 3, c0: 'y', c1: 'ê', c2: 'u' }
        } else if i == 55 {
            Token { class: 6, len: 1, c0: 'ă', c1: '\0', c2: '\0' }
        } else if i == 56 {
            Token { class: 7, len: 1, c0: 'i', c1: '\0', c2: '\0' }
        } else {
            Token { class: 0, len: 1, c0: '\0', c1: '\0', c2: '\0' }
        }
    } else if table == 2 {
        if i == 0 {
            Token { class: 0, len: 2, c0: 'c', c1: 'h', c2: '\0' }
        } else if i == 1 {
            Token { class: 0, len: 2, c0: 'n', c1: 'h', c2: '\0' }
        } else if i == 2 {
            Token { class: 1, len: 1, c0: 'c', c1: '\0', c2: '\0' }
        } else if i == 3 {
            Token { class: 1, len: 2, c0: 'n', c1: 'g', c2: '\0' }
        } else if i == 4 {
            Token { class: 2, len: 1, c0: 'm', c1: '\0', c2: '\0' }
        } else if i == 5 {
            Token { class: 2, len: 1, c0: 'n', c1: '\0', c2: '\0' }
        } else if i == 6 {
            Token { class: 2, len: 1, c0: 'p', c1: '\0', c2: '\0' }
        } else if i == 7 {
            Token { class: 2, len: 1, c0: 't', c1: '\0', c2: '\0' }
        } else if i == 8 {
            Token { class: 3, len: 1, c0: 'k', c1: '\0', c2: '\0' }
        } else if i == 9 {
            Token { class: 4, len: 1, c0: 'c', c1: '\0', c2: '\0' }
        } else {
            Token { class: 0, len: 1, c0: '\0', c1: '\0', c2: '\0' }
        }
    } else {
        Token { class: 0, len: 1, c0: '\0', c1: '\0', c2: '\0' }
    }
}

fn token_at(table: u8, i: usize) -> (r: Token)
    ensures
        r == table_token(table, i as int),
{
    match table {
        0 => match i {
            0 => Token { class: 0, len: 1, c0: 'b', c1: '\0', c2: '\0' },
            1 => Token { class: 0, len: 1, c0: 'd', c1: '\0', c2: '\0' },
            2 => Token { class: 0, len: 1, c0: 'đ', c1: '\0', c2: '\0' },
            3 => Token { class: 0, len: 1, c0: 'g', c1: '\0', c2: '\0' },
            4 => Token { class: 0, len: 2, c0: 'g', c1: 'h', c2: '\0' },
            5 => Token { class: 0, len: 1, c0: 'm', c1: '\0', c2: '\0' },
            6 => Token { class: 0, len: 1, c0: 'n', c1: '\0', c2: '\0' },
            7 => Token { class: 0, len: 2, c0: 'n', c1: 'h', c2: '\0' },
            8 => Token { class: 0, len: 1, c0: 'p', c1: '\0', c2: '\0' },
            9 => Token { class: 0, len: 2, c0: 'p', c1: 'h', c2: '\0' },
            10 => Token { class: 0, len: 1, c0: 'r', c1: '\0', c2: '\0' },
            11 => Token { class: 0, len: 1, c0: 's', c1: '\0', c2: '\0' },
            12 => Token { class: 0, len: 1, c0: 't', c1: '\0', c2: '\0' },
            13 => Token { class: 0, len: 2, c0: 't', c1: 'r', c2: '\0' },
            14 => Token { class: 0, len: 1, c0: 'v', c1: '\0', c2: '\0' },
            15 => Token { class: 0, len: 1, c0: 'z', c1: '\0', c2: '\0' },
            16 => Token { class: 1, len: 1, c0: 'c', c1: '\0', c2: '\0' },
            17 => Token { class: 1, len: 1, c0: 'h', c1: '\0', c2: '\0' },
            18 => Token { class: 1, len: 1, c0: 'k', c1: '\0', c2: '\0' },
            19 => Token { class: 1, len: 2, c0: 'k', c1: 'h', c2: '\0' },
            20 => Token { class: 1, len: 2, c0: 'q', c1: 'u', c2: '\0' },
            21 => Token { class: 1, len: 2, c0: 't', c1: 'h', c2: '\0' },
            22 => Token { class: 2, len: 2, c0: 'c', c1: 'h', c2: '\0' },
            23 => Token { class: 2, len: 2, c0: 'g', c1: 'i', c2: '\0' },
            24 => Token { class: 2, len: 1, c0: 'l', c1: '\0', c2: '\0' },
            25 => Token { class: 2, len: 2, c0: 'n', c1: 'g', c2: '\0' },
            26 => Token { class: 2, len: 3, c0: 'n', c1: 'g', c2: 'h' },
            27 => Token { class: 2, len: 1, c0: 'x', c1: '\0', c2: '\0' },
            28 => Token { class: 3, len: 1, c0: 'đ', c1: '\0', c2: '\0' },
            29 => Token { class: 3, len: 1, c0: 'l', c1: '\0', c2: '\0' },
            30 => Token { class: 4, len: 1, c0: 'h', c1: '\0', c2: '\0' },
            _ => Token { class: 0, len: 1, c0: '\0', c1: '\0', c2: '\0' },
        },
        1 => match i {
            0 => Token { class: 0, len: 1, c0: 'ê', c1: '\0', c2: '\0' },
            1 => Token { class: 0, len: 1, c0: 'i', c1: '\0', c2: '\0' },
            2 => Token { class: 0, len: 2, c0: 'u', c1: 'a', c2: '\0' },
            3 => Token { class: 0, len: 2, c0: 'u', c1: 'ê', c2: '\0' },
            4 => Token { class: 0, len: 2, c0: 'u', c1: 'y', c2: '\0' },
            5 => Token { class: 0, len: 1, c0: 'y', c1: '\0', c2: '\0' },
            6 => Token { class: 1, len: 1, c0: 'a', c1: '\0', c2: '\0' },
            7 => Token { class: 1, len: 2, c0: 'i', c1: 'ê', c2: '\0' },
            8 => Token { class: 1, len: 2, c0: 'o', c1: 'a', c2: '\0' },
            9 => Token { class: 1, len: 3, c0: 'u', c1: 'y', c2: 'ê' },
            10 => Token { class: 1, len: 2, c0: 'y', c1: 'ê', c2: '\0' },
            11 => Token { class: 2, len: 1, c0: 'â', c1: '\0', c2: '\0' },
            12 => Token { class: 2, len: 1, c0: 'ă', c1: '\0', c2: '\0' },
            13 => Token { class: 2, len: 1, c0: 'e', c1: '\0', c2: '\0' },
            14 => Token { class: 2, len: 1, c0: 'o', c1: '\0', c2: '\0' },
            15 => Token { class: 2, len: 2, c0: 'o', c1: 'o', c2: '\0' },
            16 => Token { class: 2, len: 1, c0: 'ô', c1: '\0', c2: '\0' },
            17 => Token { class: 2, len: 1, c0: 'ơ', c1: '\0', c2: '\0' },
            18 => Token { class: 2, len: 2, c0: 'o', c1: 'e', c2: '\0' },
            19 => Token { class: 2, len: 1, c0: 'u', c1: '\0', c2: '\0' },
            20 => Token { class: 2, len: 1, c0: 'ư', c1: '\0', c2: '\0' },
            21 => Token { class: 2, len: 2, c0: 'u', c1: 'â', c2: '\0' },
            22 => Token { class: 2, len: 2, c0: 'u', c1: 'ô', c2: '\0' },
            23 => Token { class: 2, len: 2, c0: 'ư', c1: 'ơ', c2: '\0' },
            24 => Token { class: 3, len: 2, c0: 'o', c1: 'ă', c2: '\0' },
            25 => Token { class: 4, len: 2, c0: 'u', c1: 'ơ', c2: '\0' },
            26 => Token { class: 5, len: 2, c0: 'a', c1: 'i', c2: '\0' },
            27 => Token { class: 5, len: 2, c0: 'a', c1: 'o', c2: '\0' },
            28 => Token { class: 5, len: 2, c0: 'a', c1: 'u', c2: '\0' },
            29 => Token { class: 5, len: 2, c0: 'â', c1: 'u', c2: '\0' },
            30 => Token { class: 5, len: 2, c0: 'a', c1: 'y', c2: '\0' },
            31 => Token { class: 5, len: 2, c0: 'â', c1: 'y', c2: '\0' },
            32 => Token { class: 5, len: 2, c0: 'e', c1: 'o', c2: '\0' },
            33 => Token { class: 5, len: 2, c0: 'ê', c1: 'u', c2: '\0' },
            34 => Token { class: 5, len: 2, c0: 'i', c1: 'a', c2: '\0' },
            35 => Token { class: 5, len: 3, c0: 'i', c1: 'ê', c2: 'u' },
            36 => Token { class: 5, len: 2, c0: 'i', c1: 'u', c2: '\0' },
            37 => Token { class: 5, len: 3, c0: 'o', c1: 'a', c2: 'i' },
            38 => Token { class: 5, len: 3, c0: 'o', c1: 'a', c2: 'o' },
            39 => Token { class: 5, len: 3, c0: 'o', c1: 'a', c2: 'y' },
            40 => Token { class: 5, len: 3, c0: 'o', c1: 'e', c2: 'o' },
            41 => Token { class: 5, len: 2, c0: 'o', c1: 'i', c2: '\0' },
            42 => Token { class: 5, len: 2, c0: 'ô', c1: 'i', c2: '\0' },
            43 => Token { class: 5, len: 2, c0: 'ơ', c1: 'i', c2: '\0' },
            44 => Token { class: 5, len: 2, c0: 'ư', c1: 'a', c2: '\0' },
            45 => Token { class: 5, len: 3, c0: 'u', c1: 'â', c2: 'y' },
            46 => Token { class: 5, len: 2, c0: 'u', c1: 'i', c2: '\0' },
            47 => Token { class: 5, len: 2, c0: 'ư', c1: 'i', c2: '\0' },
            48 => Token { class: 5, len: 3, c0: 'u', c1: 'ô', c2: 'i' },
            49 => Token { class: 5, len: 3, c0: 'ư', c1: 'ơ', c2: 'i' },
            50 => Token { class: 5, len: 3, c0: 'ư', c1: 'ơ', c2: 'u' },
            51 => Token { class: 5, len: 2, c0: 'ư', c1: 'u', c2: '\0' },
            52 => Token { class: 5, len: 3, c0: 'u', c1: 'y', c2: 'a' },
            53 => Token { class: 5, len: 3, c0: 'u', c1: 'y', c2: 'u' },
            54 => Token { class: 5, len: 3, c0: 'y', c1: 'ê', c2: 'u' },
            55 => Token { class: 6, len: 1, c0: 'ă', c1: '\0', c2: '\0' },
            56 => Token { class: 7, len: 1, c0: 'i', c1: '\0', c2: '\0' },
            _ => Token { class: 0, len: 1, c0: '\0', c1: '\0', c2: '\0' },
        },
        2 => match i {
            0 => Token { class: 0, len: 2, c0: 'c', c1: 'h', c2: '\0' },
            1 => Token { class: 0, len: 2, c0: 'n', c1: 'h', c2: '\0' },
            2 => Token { class: 1, len: 1, c0: 'c', c1: '\0', c2: '\0' },
            3 => Token { class: 1, len: 2, c0: 'n', c1: 'g', c2: '\0' },
            4 => Token { class: 2, len: 1, c0: 'm', c1: '\0', c2: '\0' },
            5 => Token { class: 2, len: 1, c0: 'n', c1: '\0', c2: '\0' },
            6 => Token { class: 2, len: 1, c0: 'p', c1: '\0', c2: '\0' },
            7 => Token { class: 2, len: 1, c0: 't', c1: '\0', c2: '\0' },
            8 => Token { class: 3, len: 1, c0: 'k', c1: '\0', c2: '\0' },
            9 => Token { class: 4, len: 1, c0: 'c', c1: '\0', c2: '\0' },
            _ => Token { class: 0, len: 1, c0: '\0', c1: '\0', c2: '\0' },
        },
        _ => Token { class: 0, len: 1, c0: '\0', c1: '\0', c2: '\0' },
    }
}

pub proof fn lemma_token_shape(table: u8, i: int)
    requires
        0 <= i < table_len(table),
    ensures
        table_token(table, i).class < 8,
        1 <= table_token(table, i).len <= 3,
{
}

/// Whether `token` matches `input`: with `full` the lengths must agree,
/// otherwise `input` may be a prefix; with `complete` characters must agree
/// exactly, otherwise a toneless-marked candidate also matches (`a` matches
/// `â`).
pub open spec fn token_matches(t: Token, input: Seq<char>, full: bool, complete: bool) -> bool {
    let tc = token_chars(t);
    &&& input.len() <= tc.len()
    &&& !(full && tc.len() > input.len())
    &&& forall|k: int|
        0 <= k < input.len() ==> (#[trigger] input[k] == tc[k] || (!complete && with_mark_toneless(
            tc[k],
            0,
        ) == input[k]))
}

/// The mask of classes of `table[..n]` that `input` matches: bit `c` is set
/// when a token of class `c` matches.
pub open spec fn lookup_upto(table: u8, input: Seq<char>, full: bool, complete: bool, n: int) -> u16
    decreases n,
{
    if n <= 0 {
        0
    } else {
        let m = lookup_upto(table, input, full, complete, n - 1);
        let t = table_token(table, n - 1);
        if token_matches(t, input, full, complete) {
            m | (1u16 << t.class)
        } else {
            m
        }
    }
}

/// The mask of every class of `table` that `input` matches.
pub open spec fn lookup_spec(table: u8, input: Seq<char>, full: bool, complete: bool) -> u16 {
    lookup_upto(table, input, full, complete, table_len(table))
}

fn token_char(t: Token, k: usize) -> (r: char)
    requires
        k < token_chars(t).len(),
    ensures
        r == token_chars(t)[k as int],
{
    if k == 0 {
        t.c0
    } else if k == 1 {
        t.c1
    } else {
        t.c2
    }
}

fn token_match(t: Token, input: &[char], full: bool, complete: bool) -> (r: bool)
    requires
        1 <= t.len <= 3,
    ensures
        r == token_matches(t, input@, full, complete),
{
    let tlen = t.len;
    if tlen < input.len() || (full && tlen > input.len()) {
        return false;
    }
    let mut k: usize = 0;
    while k < input.len()
        invariant
            input@.len() <= token_chars(t).len(),
            token_chars(t).len() == tlen,
            1 <= t.len <= 3,
            k <= input@.len(),
            forall|j: int|
                0 <= j < k ==> (#[trigger] input@[j] == token_chars(t)[j] || (!complete
                    && with_mark_toneless(token_chars(t)[j], 0) == input@[j])),
        decreases input@.len() - k,
    {
        let cv = token_char(t, k);
        let ic = input[k];
        if !(ic == cv || (!complete && add_mark_to_toneless_char(cv, 0) == ic)) {
            return false;
        }
        k += 1;
    }
    true
}

/// Return a bitmask of every class in `table` that `input` matches.
fn lookup(table: u8, input: &[char], full: bool, complete: bool) -> (r: u16)
    ensures
        r == lookup_spec(table, input@, full, complete),
{
    let n = table_size(table);
    let mut ret: u16 = 0;
    let mut i: usize = 0;
    while i < n
        invariant
            n == table_len(table),
            i <= n,
            ret == lookup_upto(table, input@, full, complete, i as int),
        decreases n - i,
    {
        let t = token_at(table, i);
        proof {
            lemma_token_shape(table, i as int);
        }
        if token_match(t, input, full, complete) {
            ret = ret | (1u16 << t.class);
        }
        i += 1;
    }
    ret
}

/// For each first-consonant class, the mask of vowel classes it may precede.
pub open spec fn cv_mask(i: int) -> u16 {
    if i == 0 {
        0x27
    } else if i == 1 {
        0x3f
    } else if i == 2 {
        0x2f
    } else if i == 3 {
        0x40
    } else if i == 4 {
        0x80
    } else {
        0
    }
}

/// For each vowel class, the mask of final-consonant classes it may precede.
pub open spec fn vc_mask(i: int) -> u16 {
    if i == 0 {
        0x5
    } else if i == 1 {
        0x7
    } else if i == 2 {
        0x6
    } else if i == 3 {
        0x6
    } else if i == 6 {
        0x8
    } else if i == 7 {
        0x10
    } else {
        0
    }
}

/// The union of the allowed masks of the classes set in `from`, for classes
/// `0..n`, read from `table` (`cv_mask` when `vc` is false, else `vc_mask`).
pub open spec fn allowed_upto(from: u16, vc: bool, n: int) -> u16
    decreases n,
{
    if n <= 0 {
        0
    } else {
        let a = allowed_upto(from, vc, n - 1);
        if from & (1u16 << ((n - 1) as u16)) != 0 {
            a | (if vc { vc_mask(n - 1) } else { cv_mask(n - 1) })
        } else {
            a
        }
    }
}

/// Whether a vowel class allowed after the matched first-consonant classes
/// intersects the matched vowel classes.
pub open spec fn cv_ok(fc_mask: u16, vo_mask: u16) -> bool {
    allowed_upto(fc_mask, false, 5) & vo_mask != 0
}

/// Whether a final-consonant class allowed after the matched vowel classes
/// intersects the matched final-consonant classes.
pub open spec fn vc_ok(vo_mask: u16, lc_mask: u16) -> bool {
    allowed_upto(vo_mask, true, 8) & lc_mask != 0
}

fn allowed(from: u16, vc: bool) -> (r: u16)
    ensures
        r == allowed_upto(from, vc, if vc { 8 } else { 5 }),
{
    let n: u16 = if vc { 8 } else { 5 };
    let mut a: u16 = 0;
    let mut i: u16 = 0;
    while i < n
        invariant
            n == (if vc { 8u16 } else { 5u16 }),
            i <= n,
            a == allowed_upto(from, vc, i as int),
        decreases n - i,
    {
        if from & (1u16 << i) != 0 {
            let m: u16 = if vc {
                if i == 0 {
                    0x5
                } else if i == 1 {
                    0x7
                } else if i == 2 {
                    0x6
                } else if i == 3 {
                    0x6
                } else if i == 6 {
                    0x8
                } else if i == 7 {
                    0x10
                } else {
                    0
                }
            } else {
                if i == 0 {
                    0x27
                } else if i == 1 {
                    0x3f
                } else if i == 2 {
                    0x2f
                } else if i == 3 {
                    0x40
                } else if i == 4 {
                    0x80
                } else {
                    0
                }
            };
            a = a | m;
        }
        i += 1;
    }
    a
}

fn is_valid_cv(fc_mask: u16, vo_mask: u16) -> (r: bool)
    ensures
        r == cv_ok(fc_mask, vo_mask),
{
    allowed(fc_mask, false) & vo_mask != 0
}

fn is_valid_vc(vo_mask: u16, lc_mask: u16) -> (r: bool)
    ensures
        r == vc_ok(vo_mask, lc_mask),
{
    allowed(vo_mask, true) & lc_mask != 0
}

/// The mode groups are compared in: Vietnamese, lowercase, toneless.
pub open spec fn spelling_mode() -> Mode {
    Mode::Bits(21)
}

/// The text of the group at `idx`, lowercase and toneless.
pub open spec fn group_text(comp: Seq<TransV>, idx: Seq<usize>) -> Seq<char> {
    flatten_spec(group(comp, idx), spelling_mode())
}

/// Whether the first-consonant/vowel/last-consonant groups `fc`/`vo`/`lc`
/// of `comp` form a valid (possibly partial) Vietnamese syllable.
pub open spec fn is_valid_cvc_spec(
    comp: Seq<TransV>,
    fc: Seq<usize>,
    vo: Seq<usize>,
    lc: Seq<usize>,
    full: bool,
) -> bool {
    let fc_mask = lookup_spec(FIRST_CONSONANTS, group_text(comp, fc), full || vo.len() > 0, true);
    let vo_mask = lookup_spec(VOWELS, group_text(comp, vo), full || lc.len() > 0, full);
    let lc_mask = lookup_spec(LAST_CONSONANTS, group_text(comp, lc), full, true);
    if fc.len() > 0 && fc_mask == 0 {
        false
    } else if vo.len() > 0 && vo_mask == 0 {
        false
    } else if lc.len() > 0 && lc_mask == 0 {
        false
    } else if vo.len() == 0 {
        fc.len() > 0
    } else if fc.len() > 0 && (!cv_ok(fc_mask, vo_mask) || lc.len() == 0) {
        cv_ok(fc_mask, vo_mask)
    } else if lc.len() > 0 {
        vc_ok(vo_mask, lc_mask)
    } else {
        true
    }
}

fn group_mask(
    comp: &[Transformation],
    idx: &[usize],
    table: u8,
    full: bool,
    complete: bool,
) -> (r: u16)
    requires
        comp_wf(cv(comp@)),
        indices_ok(comp@.len() as int, idx@),
    ensures
        r == lookup_spec(table, group_text(cv(comp@), idx@), full, complete),
{
    let g = materialize_group(comp, idx);
    let text = flatten(g.as_slice(), Mode::Bits(21));
    lookup(table, text.as_slice(), full, complete)
}

/// Whether the first-consonant/vowel/last-consonant groups — given as
/// index slices into `comp` — form a valid (possibly partial) Vietnamese
/// syllable.
pub fn is_valid_cvc(
    comp: &[Transformation],
    fc: &[usize],
    vo: &[usize],
    lc: &[usize],
    input_is_full_complete: bool,
) -> (r: bool)
    requires
        comp_wf(cv(comp@)),
        indices_ok(comp@.len() as int, fc@),
        indices_ok(comp@.len() as int, vo@),
        indices_ok(comp@.len() as int, lc@),
    ensures
        r == is_valid_cvc_spec(cv(comp@), fc@, vo@, lc@, input_is_full_complete),
{
    let full = input_is_full_complete;
    let mut fc_mask: u16 = 0;
    if fc.len() > 0 {
        fc_mask = group_mask(comp, fc, FIRST_CONSONANTS, full || vo.len() > 0, true);
        if fc_mask == 0 {
            return false;
        }
    }
    let mut vo_mask: u16 = 0;
    if vo.len() > 0 {
        vo_mask = group_mask(comp, vo, VOWELS, full || lc.len() > 0, full);
        if vo_mask == 0 {
            return false;
        }
    }
    let mut lc_mask: u16 = 0;
    if lc.len() > 0 {
        lc_mask = group_mask(comp, lc, LAST_CONSONANTS, full, true);
        if lc_mask == 0 {
            return false;
        }
    }
    if vo.len() == 0 {
        return fc.len() > 0;
    }
    if fc.len() > 0 {
        let cv_good = is_valid_cv(fc_mask, vo_mask);
        if !cv_good || lc.len() == 0 {
            return cv_good;
        }
    }
    if lc.len() > 0 {
        is_valid_vc(vo_mask, lc_mask)
    } else {
        true
    }
}

/// A full match (whole token, exact characters) is a match under any looser
/// setting.
proof fn lemma_token_full_match(t: Token, input: Seq<char>, full: bool, complete: bool)
    requires
        token_matches(t, input, true, true),
    ensures
        token_matches(t, input, full, complete),
{
    let tc = token_chars(t);
    assert forall|k: int| 0 <= k < input.len() implies (#[trigger] input[k] == tc[k] || (!complete
        && with_mark_toneless(tc[k], 0) == input[k])) by {
        assert(input[k] == tc[k]);
    }
}

/// The classes matched fully are among those matched under any setting.
proof fn lemma_lookup_full_within(table: u8, input: Seq<char>, full: bool, complete: bool, n: int)
    ensures
        lookup_upto(table, input, true, true, n) & lookup_upto(table, input, full, complete, n)
            == lookup_upto(table, input, true, true, n),
    decreases n,
{
    if n > 0 {
        lemma_lookup_full_within(table, input, full, complete, n - 1);
        let m1 = lookup_upto(table, input, true, true, n - 1);
        let m2 = lookup_upto(table, input, full, complete, n - 1);
        let t = table_token(table, n - 1);
        let x = 1u16 << t.class;
        if token_matches(t, input, true, true) {
            lemma_token_full_match(t, input, full, complete);
            assert((m1 | x) & (m2 | x) == (m1 | x)) by (bit_vector)
                requires
                    m1 & m2 == m1,
            ;
        } else if token_matches(t, input, full, complete) {
            assert(m1 & (m2 | x) == m1) by (bit_vector)
                requires
                    m1 & m2 == m1,
            ;
        }
    } else {
        assert(0u16 & 0u16 == 0u16) by (bit_vector);
    }
}

/// Allowing from more classes allows more.
proof fn lemma_allowed_within(a: u16, b: u16, vc: bool, n: int)
    requires
        a & b == a,
    ensures
        allowed_upto(a, vc, n) & allowed_upto(b, vc, n) == allowed_upto(a, vc, n),
    decreases n,
{
    if n > 0 {
        lemma_allowed_within(a, b, vc, n - 1);
        let p = allowed_upto(a, vc, n - 1);
        let q = allowed_upto(b, vc, n - 1);
        let bit = 1u16 << ((n - 1) as u16);
        let m = if vc { vc_mask(n - 1) } else { cv_mask(n - 1) };
        assert(a & bit != 0 ==> b & bit != 0) by (bit_vector)
            requires
                a & b == a,
        ;
        assert((p | m) & (q | m) == (p | m)) by (bit_vector)
            requires
                p & q == p,
        ;
        assert(p & (q | m) == p) by (bit_vector)
            requires
                p & q == p,
        ;
    } else {
        assert(0u16 & 0u16 == 0u16) by (bit_vector);
    }
}

proof fn lemma_within_nonzero(a: u16, b: u16, c: u16, d: u16)
    requires
        a & b == a,
        c & d == c,
        a & c != 0,
    ensures
        b & d != 0,
{
    assert(b & d != 0) by (bit_vector)
        requires
            a & b == a,
            c & d == c,
            a & c != 0,
    ;
}

/// A syllable valid as a full, complete one is valid as a partial one.
pub proof fn lemma_cvc_full_implies_partial(comp: Seq<TransV>, fc: Seq<usize>, vo: Seq<usize>, lc: Seq<usize>)
    requires
        is_valid_cvc_spec(comp, fc, vo, lc, true),
    ensures
        is_valid_cvc_spec(comp, fc, vo, lc, false),
{
    let gf = group_text(comp, fc);
    let gv = group_text(comp, vo);
    let gl = group_text(comp, lc);
    let f1 = lookup_spec(FIRST_CONSONANTS, gf, true, true);
    let f2 = lookup_spec(FIRST_CONSONANTS, gf, vo.len() > 0, true);
    let v1 = lookup_spec(VOWELS, gv, true, true);
    let v2 = lookup_spec(VOWELS, gv, lc.len() > 0, false);
    let l1 = lookup_spec(LAST_CONSONANTS, gl, true, true);
    let l2 = lookup_spec(LAST_CONSONANTS, gl, false, true);
    lemma_lookup_full_within(FIRST_CONSONANTS, gf, vo.len() > 0, true, table_len(FIRST_CONSONANTS));
    lemma_lookup_full_within(VOWELS, gv, lc.len() > 0, false, table_len(VOWELS));
    lemma_lookup_full_within(LAST_CONSONANTS, gl, false, true, table_len(LAST_CONSONANTS));
    assert(f1 != 0 ==> f2 != 0) by (bit_vector)
        requires
            f1 & f2 == f1,
    ;
    assert(v1 != 0 ==> v2 != 0) by (bit_vector)
        requires
            v1 & v2 == v1,
    ;
    assert(l1 != 0 ==> l2 != 0) by (bit_vector)
        requires
            l1 & l2 == l1,
    ;
    lemma_allowed_within(f1, f2, false, 5);
    lemma_allowed_within(v1, v2, true, 8);
    if cv_ok(f1, v1) {
        lemma_within_nonzero(allowed_upto(f1, false, 5), allowed_upto(f2, false, 5), v1, v2);
    }
    if vc_ok(v1, l1) {
        lemma_within_nonzero(allowed_upto(v1, true, 8), allowed_upto(v2, true, 8), l1, l2);
    }
}

/// The rows of each spelling table, class by class, as space-separated
/// words: initial consonant clusters, vowel nuclei and final consonant
/// clusters.
pub open spec fn table_rows(table: u8) -> Seq<Seq<char>> {
    if table == 0 {
        seq!["b d đ g gh m n nh p ph r s t tr v z"@, "c h k kh qu th"@, "ch gi l ng ngh x"@, "đ l"@, "h"@]
    } else if table == 1 {
        seq!["ê i ua uê uy y"@, "a iê oa uyê yê"@, "â ă e o oo ô ơ oe u ư uâ uô ươ"@, "oă"@, "uơ"@, "ai ao au âu ay ây eo êu ia iêu iu oai oao oay oeo oi ôi ơi ưa uây ui ưi uôi ươi ươu ưu uya uyu yêu"@, "ă"@, "i"@]
    } else if table == 2 {
        seq!["ch nh"@, "c ng"@, "m n p t"@, "k"@, "c"@]
    } else {
        Seq::empty()
    }
}

/// The words of `s` (separated by single spaces), the word in progress being
/// `acc`.
pub open spec fn words_from(s: Seq<char>, acc: Seq<char>) -> Seq<Seq<char>>
    decreases s.len(),
{
    if s.len() == 0 {
        seq![acc]
    } else if s[0] == ' ' {
        seq![acc] + words_from(s.drop_first(), Seq::empty())
    } else {
        words_from(s.drop_first(), acc.push(s[0]))
    }
}

/// The space-separated words of `s`.
pub open spec fn words(s: Seq<char>) -> Seq<Seq<char>> {
    words_from(s, Seq::empty())
}

/// The characters of the tokens of class `k` among the first `n` tokens of
/// `table`, in table order.
pub open spec fn class_tokens_upto(table: u8, k: u16, n: int) -> Seq<Seq<char>>
    decreases n,
{
    if n <= 0 {
        Seq::empty()
    } else {
        let p = class_tokens_upto(table, k, n - 1);
        let t = table_token(table, n - 1);
        if t.class == k {
            p.push(token_chars(t))
        } else {
            p
        }
    }
}

/// The characters of the tokens of class `k` of `table`, in table order.
pub open spec fn class_tokens(table: u8, k: u16) -> Seq<Seq<char>> {
    class_tokens_upto(table, k, table_len(table))
}

proof fn lemma_table_row_0_0()
    ensures
        class_tokens(0, 0) == words("b d đ g gh m n nh p ph r s t tr v z"@),
{
    reveal_strlit("b");
    reveal_strlit("b d đ g gh m n nh p ph r s t tr v z");
    reveal_strlit("d");
    reveal_strlit("g");
    reveal_strlit("gh");
    reveal_strlit("m");
    reveal_strlit("n");
    reveal_strlit("nh");
    reveal_strlit("p");
    reveal_strlit("ph");
    reveal_strlit("r");
    reveal_strlit("s");
    reveal_strlit("t");
    reveal_strlit("tr");
    reveal_strlit("v");
    reveal_strlit("z");
    reveal_strlit("đ");
    reveal_with_fuel(words_from, 37);
    reveal_with_fuel(class_tokens_upto, 32);
    assert(words("b d đ g gh m n nh p ph r s t tr v z"@) =~~= seq!["b"@, "d"@, "đ"@, "g"@, "gh"@, "m"@, "n"@, "nh"@, "p"@, "ph"@, "r"@, "s"@, "t"@, "tr"@, "v"@, "z"@]);
    assert(class_tokens(0, 0) =~~= seq!["b"@, "d"@, "đ"@, "g"@, "gh"@, "m"@, "n"@, "nh"@, "p"@, "ph"@, "r"@, "s"@, "t"@, "tr"@, "v"@, "z"@]);
}

proof fn lemma_table_row_0_1()
    ensures
        class_tokens(0, 1) == words("c h k kh qu th"@),
{
    reveal_strlit("c");
    reveal_strlit("c h k kh qu th");
    reveal_strlit("h");
    reveal_strlit("k");
    reveal_strlit("kh");
    reveal_strlit("qu");
    reveal_strlit("th");
    reveal_with_fuel(words_from, 16);
    reveal_with_fuel(class_tokens_upto, 32);
    assert(words("c h k kh qu th"@) =~~= seq!["c"@, "h"@, "k"@, "kh"@, "qu"@, "th"@]);
    assert(class_tokens(0, 1) =~~= seq!["c"@, "h"@, "k"@, "kh"@, "qu"@, "th"@]);
}

proof fn lemma_table_row_0_2()
    ensures
        class_tokens(0, 2) == words("ch gi l ng ngh x"@),
{
    reveal_strlit("ch");
    reveal_strlit("ch gi l ng ngh x");
    reveal_strlit("gi");
    reveal_strlit("l");
    reveal_strlit("ng");
    reveal_strlit("ngh");
    reveal_strlit("x");
    reveal_with_fuel(words_from, 18);
    reveal_with_fuel(class_tokens_upto, 32);
    assert(words("ch gi l ng ngh x"@) =~~= seq!["ch"@, "gi"@, "l"@, "ng"@, "ngh"@, "x"@]);
    assert(class_tokens(0, 2) =~~= seq!["ch"@, "gi"@, "l"@, "ng"@, "ngh"@, "x"@]);
}

proof fn lemma_table_row_0_3()
    ensures
        class_tokens(0, 3) == words("đ l"@),
{
    reveal_strlit("l");
    reveal_strlit("đ");
    reveal_strlit("đ l");
    reveal_with_fuel(words_from, 5);
    reveal_with_fuel(class_tokens_upto, 32);
    assert(words("đ l"@) =~~= seq!["đ"@, "l"@]);
    assert(class_tokens(0, 3) =~~= seq!["đ"@, "l"@]);
}

proof fn lemma_table_row_0_4()
    ensures
        class_tokens(0, 4) == words("h"@),
{
    reveal_strlit("h");
    reveal_with_fuel(words_from, 3);
    reveal_with_fuel(class_tokens_upto, 32);
    assert(words("h"@) =~~= seq!["h"@]);
    assert(class_tokens(0, 4) =~~= seq!["h"@]);
}

proof fn lemma_table_row_1_0()
    ensures
        class_tokens(1, 0) == words("ê i ua uê uy y"@),
{
    reveal_strlit("i");
    reveal_strlit("ua");
    reveal_strlit("uy");
    reveal_strlit("uê");
    reveal_strlit("y");
    reveal_strlit("ê");
    reveal_strlit("ê i ua uê uy y");
    reveal_with_fuel(words_from, 16);
    reveal_with_fuel(class_tokens_upto, 58);
    assert(words("ê i ua uê uy y"@) =~~= seq!["ê"@, "i"@, "ua"@, "uê"@, "uy"@, "y"@]);
    assert(class_tokens(1, 0) =~~= seq!["ê"@, "i"@, "ua"@, "uê"@, "uy"@, "y"@]);
}

proof fn lemma_table_row_1_1()
    ensures
        class_tokens(1, 1) == words("a iê oa uyê yê"@),
{
    reveal_strlit("a");
    reveal_strlit("a iê oa uyê yê");
    reveal_strlit("iê");
    reveal_strlit("oa");
    reveal_strlit("uyê");
    reveal_strlit("yê");
    reveal_with_fuel(words_from, 16);
    reveal_with_fuel(class_tokens_upto, 58);
    assert(words("a iê oa uyê yê"@) =~~= seq!["a"@, "iê"@, "oa"@, "uyê"@, "yê"@]);
    assert(class_tokens(1, 1) =~~= seq!["a"@, "iê"@, "oa"@, "uyê"@, "yê"@]);
}

proof fn lemma_table_row_1_2()
    ensures
        class_tokens(1, 2) == words("â ă e o oo ô ơ oe u ư uâ uô ươ"@),
{
    reveal_strlit("e");
    reveal_strlit("o");
    reveal_strlit("oe");
    reveal_strlit("oo");
    reveal_strlit("u");
    reveal_strlit("uâ");
    reveal_strlit("uô");
    reveal_strlit("â");
    reveal_strlit("â ă e o oo ô ơ oe u ư uâ uô ươ");
    reveal_strlit("ô");
    reveal_strlit("ă");
    reveal_strlit("ơ");
    reveal_strlit("ư");
    reveal_strlit("ươ");
    reveal_with_fuel(words_from, 32);
    reveal_with_fuel(class_tokens_upto, 58);
    assert(words("â ă e o oo ô ơ oe u ư uâ uô ươ"@) =~~= seq!["â"@, "ă"@, "e"@, "o"@, "oo"@, "ô"@, "ơ"@, "oe"@, "u"@, "ư"@, "uâ"@, "uô"@, "ươ"@]);
    assert(class_tokens(1, 2) =~~= seq!["â"@, "ă"@, "e"@, "o"@, "oo"@, "ô"@, "ơ"@, "oe"@, "u"@, "ư"@, "uâ"@, "uô"@, "ươ"@]);
}

proof fn lemma_table_row_1_3()
    ensures
        class_tokens(1, 3) == words("oă"@),
{
    reveal_strlit("oă");
    reveal_with_fuel(words_from, 4);
    reveal_with_fuel(class_tokens_upto, 58);
    assert(words("oă"@) =~~= seq!["oă"@]);
    assert(class_tokens(1, 3) =~~= seq!["oă"@]);
}

proof fn lemma_table_row_1_4()
    ensures
        class_tokens(1, 4) == words("uơ"@),
{
    reveal_strlit("uơ");
    reveal_with_fuel(words_from, 4);
    reveal_with_fuel(class_tokens_upto, 58);
    assert(words("uơ"@) =~~= seq!["uơ"@]);
    assert(class_tokens(1, 4) =~~= seq!["uơ"@]);
}

#[verifier::rlimit(100)]
proof fn lemma_table_row_1_5()
    ensures
        class_tokens(1, 5) == words("ai ao au âu ay ây eo êu ia iêu iu oai oao oay oeo oi ôi ơi ưa uây ui ưi uôi ươi ươu ưu uya uyu yêu"@),
{
    reveal_strlit("ai");
    reveal_strlit("ai ao au âu ay ây");
    reveal_strlit("ai ao au âu ay ây eo êu ia iêu iu oai oao oay oeo oi ôi ơi ưa uây ui ưi uôi ươi ươu ưu uya uyu yêu");
    reveal_strlit("ao");
    reveal_strlit("au");
    reveal_strlit("ay");
    reveal_strlit("eo");
    reveal_strlit("eo êu ia iêu iu oai");
    reveal_strlit("ia");
    reveal_strlit("iu");
    reveal_strlit("iêu");
    reveal_strlit("oai");
    reveal_strlit("oao");
    reveal_strlit("oao oay oeo oi ôi ơi");
    reveal_strlit("oay");
    reveal_strlit("oeo");
    reveal_strlit("oi");
    reveal_strlit("ui");
    reveal_strlit("uya");
    reveal_strlit("uyu");
    reveal_strlit("uây");
    reveal_strlit("uôi");
    reveal_strlit("yêu");
    reveal_strlit("âu");
    reveal_strlit("ây");
    reveal_strlit("êu");
    reveal_strlit("ôi");
    reveal_strlit("ơi");
    reveal_strlit("ưa");
    reveal_strlit("ưa uây ui ưi uôi ươi");
    reveal_strlit("ưi");
    reveal_strlit("ưu");
    reveal_strlit("ươi");
    reveal_strlit("ươu");
    reveal_strlit("ươu ưu uya uyu yêu");
    reveal_with_fuel(words_from, 24);
    reveal_with_fuel(class_tokens_upto, 58);
    assert("ai ao au âu ay ây eo êu ia iêu iu oai oao oay oeo oi ôi ơi ưa uây ui ưi uôi ươi ươu ưu uya uyu yêu"@ =~= (((("ai ao au âu ay ây"@ + seq![' '] + "eo êu ia iêu iu oai"@) + seq![' '] + "oao oay oeo oi ôi ơi"@) + seq![' '] + "ưa uây ui ưi uôi ươi"@) + seq![' '] + "ươu ưu uya uyu yêu"@));
    assert(words("ai ao au âu ay ây"@) =~~= seq!["ai"@, "ao"@, "au"@, "âu"@, "ay"@, "ây"@]);
    assert(words("eo êu ia iêu iu oai"@) =~~= seq!["eo"@, "êu"@, "ia"@, "iêu"@, "iu"@, "oai"@]);
    lemma_words_split("ai ao au âu ay ây"@, "eo êu ia iêu iu oai"@, Seq::empty());
    assert(words("oao oay oeo oi ôi ơi"@) =~~= seq!["oao"@, "oay"@, "oeo"@, "oi"@, "ôi"@, "ơi"@]);
    lemma_words_split(("ai ao au âu ay ây"@ + seq![' '] + "eo êu ia iêu iu oai"@), "oao oay oeo oi ôi ơi"@, Seq::empty());
    assert(words("ưa uây ui ưi uôi ươi"@) =~~= seq!["ưa"@, "uây"@, "ui"@, "ưi"@, "uôi"@, "ươi"@]);
    lemma_words_split((("ai ao au âu ay ây"@ + seq![' '] + "eo êu ia iêu iu oai"@) + seq![' '] + "oao oay oeo oi ôi ơi"@), "ưa uây ui ưi uôi ươi"@, Seq::empty());
    assert(words("ươu ưu uya uyu yêu"@) =~~= seq!["ươu"@, "ưu"@, "uya"@, "uyu"@, "yêu"@]);
    lemma_words_split(((("ai ao au âu ay ây"@ + seq![' '] + "eo êu ia iêu iu oai"@) + seq![' '] + "oao oay oeo oi ôi ơi"@) + seq![' '] + "ưa uây ui ưi uôi ươi"@), "ươu ưu uya uyu yêu"@, Seq::empty());
    assert(words("ai ao au âu ay ây eo êu ia iêu iu oai oao oay oeo oi ôi ơi ưa uây ui ưi uôi ươi ươu ưu uya uyu yêu"@) =~~= seq!["ai"@, "ao"@, "au"@, "âu"@, "ay"@, "ây"@, "eo"@, "êu"@, "ia"@, "iêu"@, "iu"@, "oai"@, "oao"@, "oay"@, "oeo"@, "oi"@, "ôi"@, "ơi"@, "ưa"@, "uây"@, "ui"@, "ưi"@, "uôi"@, "ươi"@, "ươu"@, "ưu"@, "uya"@, "uyu"@, "yêu"@]);
    assert(class_tokens(1, 5) =~~= seq!["ai"@, "ao"@, "au"@, "âu"@, "ay"@, "ây"@, "eo"@, "êu"@, "ia"@, "iêu"@, "iu"@, "oai"@, "oao"@, "oay"@, "oeo"@, "oi"@, "ôi"@, "ơi"@, "ưa"@, "uây"@, "ui"@, "ưi"@, "uôi"@, "ươi"@, "ươu"@, "ưu"@, "uya"@, "uyu"@, "yêu"@]);
}

proof fn lemma_words_split(x: Seq<char>, y: Seq<char>, acc: Seq<char>)
    ensures
        words_from(x + seq![' '] + y, acc) == words_from(x, acc) + words_from(y, Seq::empty()),
    decreases x.len(),
{
    if x.len() == 0 {
        assert(x + seq![' '] + y =~= seq![' '] + y);
        assert((seq![' '] + y).drop_first() =~= y);
    } else {
        assert((x + seq![' '] + y).drop_first() =~= x.drop_first() + seq![' '] + y);
        assert((x + seq![' '] + y)[0] == x[0]);
        if x[0] == ' ' {
            lemma_words_split(x.drop_first(), y, Seq::empty());
            assert(seq![acc] + (words_from(x.drop_first(), Seq::empty()) + words_from(y, Seq::empty())) =~= (seq![acc]
                + words_from(x.drop_first(), Seq::empty())) + words_from(y, Seq::empty()));
        } else {
            lemma_words_split(x.drop_first(), y, acc.push(x[0]));
        }
    }
}

proof fn lemma_table_row_1_6()
    ensures
        class_tokens(1, 6) == words("ă"@),
{
    reveal_strlit("ă");
    reveal_with_fuel(words_from, 3);
    reveal_with_fuel(class_tokens_upto, 58);
    assert(words("ă"@) =~~= seq!["ă"@]);
    assert(class_tokens(1, 6) =~~= seq!["ă"@]);
}

proof fn lemma_table_row_1_7()
    ensures
        class_tokens(1, 7) == words("i"@),
{
    reveal_strlit("i");
    reveal_with_fuel(words_from, 3);
    reveal_with_fuel(class_tokens_upto, 58);
    assert(words("i"@) =~~= seq!["i"@]);
    assert(class_tokens(1, 7) =~~= seq!["i"@]);
}

proof fn lemma_table_row_2_0()
    ensures
        class_tokens(2, 0) == words("ch nh"@),
{
    reveal_strlit("ch");
    reveal_strlit("ch nh");
    reveal_strlit("nh");
    reveal_with_fuel(words_from, 7);
    reveal_with_fuel(class_tokens_upto, 11);
    assert(words("ch nh"@) =~~= seq!["ch"@, "nh"@]);
    assert(class_tokens(2, 0) =~~= seq!["ch"@, "nh"@]);
}

proof fn lemma_table_row_2_1()
    ensures
        class_tokens(2, 1) == words("c ng"@),
{
    reveal_strlit("c");
    reveal_strlit("c ng");
    reveal_strlit("ng");
    reveal_with_fuel(words_from, 6);
    reveal_with_fuel(class_tokens_upto, 11);
    assert(words("c ng"@) =~~= seq!["c"@, "ng"@]);
    assert(class_tokens(2, 1) =~~= seq!["c"@, "ng"@]);
}

proof fn lemma_table_row_2_2()
    ensures
        class_tokens(2, 2) == words("m n p t"@),
{
    reveal_strlit("m");
    reveal_strlit("m n p t");
    reveal_strlit("n");
    reveal_strlit("p");
    reveal_strlit("t");
    reveal_with_fuel(words_from, 9);
    reveal_with_fuel(class_tokens_upto, 11);
    assert(words("m n p t"@) =~~= seq!["m"@, "n"@, "p"@, "t"@]);
    assert(class_tokens(2, 2) =~~= seq!["m"@, "n"@, "p"@, "t"@]);
}

proof fn lemma_table_row_2_3()
    ensures
        class_tokens(2, 3) == words("k"@),
{
    reveal_strlit("k");
    reveal_with_fuel(words_from, 3);
    reveal_with_fuel(class_tokens_upto, 11);
    assert(words("k"@) =~~= seq!["k"@]);
    assert(class_tokens(2, 3) =~~= seq!["k"@]);
}

proof fn lemma_table_row_2_4()
    ensures
        class_tokens(2, 4) == words("c"@),
{
    reveal_strlit("c");
    reveal_with_fuel(words_from, 3);
    reveal_with_fuel(class_tokens_upto, 11);
    assert(words("c"@) =~~= seq!["c"@]);
    assert(class_tokens(2, 4) =~~= seq!["c"@]);
}

/// Every token's class is one of its table's rows.
proof fn lemma_token_class_in_rows(table: u8, i: int)
    requires
        0 <= i < table_len(table),
    ensures
        table_token(table, i).class < table_rows(table).len(),
{
}

/// A token of class `k` among the first `n` matches itself fully, so its
/// characters look up with bit `k` set under any setting.
proof fn lemma_class_token_found(table: u8, k: u16, n: int, s: Seq<char>, full: bool, complete: bool)
    requires
        k < 8,
        n <= table_len(table),
        class_tokens_upto(table, k, n).contains(s),
    ensures
        lookup_upto(table, s, full, complete, n) & (1u16 << k) != 0,
    decreases n,
{
    if n > 0 {
        let p = class_tokens_upto(table, k, n - 1);
        let t = table_token(table, n - 1);
        let m = lookup_upto(table, s, full, complete, n - 1);
        let b = 1u16 << k;
        if t.class == k && s == token_chars(t) {
            assert(token_matches(t, s, true, true));
            lemma_token_full_match(t, s, full, complete);
            assert((m | (1u16 << k)) & (1u16 << k) != 0 && k < 8) by (bit_vector)
                requires k < 8;
        } else {
            if t.class == k {
                let j = choose|j: int| 0 <= j < p.push(token_chars(t)).len() && p.push(token_chars(t))[j] == s;
                assert(j < p.len());
                assert(p[j] == s);
            }
            assert(p.contains(s));
            lemma_class_token_found(table, k, n - 1, s, full, complete);
            lemma_token_shape(table, n - 1);
            let c = t.class;
            assert(m & (1u16 << k) != 0 ==> (m | (1u16 << c)) & (1u16 << k) != 0) by (bit_vector)
                requires c < 8, k < 8;
        }
    }
}

/// Each word of row `k` of a spelling table is found by a lookup in that
/// table with class bit `k` set, however loose the match asked for; so,
/// for instance, the vowel nucleus `ua` is of class 0.
pub proof fn law_row_words_are_found_in_their_class(
    table: u8,
    k: u16,
    w: Seq<char>,
    full: bool,
    complete: bool,
)
    requires
        table <= 2,
        k < table_rows(table).len(),
        words(table_rows(table)[k as int]).contains(w),
    ensures
        lookup_spec(table, w, full, complete) & (1u16 << k) != 0,
{
    law_tables_are_the_documented_rows(table, k);
    lemma_class_token_found(table, k, table_len(table), w, full, complete);
}

/// The spelling tables are exactly the documented rows: for each table and
/// each class `k`, the tokens of class `k`, in order, are the words of row
/// `k`, and no token has a class beyond the rows. So, for instance, the
/// vowel nuclei of class 0 are `ê i ua uê uy y`.
pub proof fn law_tables_are_the_documented_rows(table: u8, k: u16)
    requires
        table <= 2,
        k < table_rows(table).len(),
    ensures
        class_tokens(table, k) == words(table_rows(table)[k as int]),
        forall|i: int| 0 <= i < table_len(table) ==> #[trigger] table_token(table, i).class < table_rows(table).len(),
{
    assert forall|i: int| 0 <= i < table_len(table) implies #[trigger] table_token(table, i).class
        < table_rows(table).len() by {
        lemma_token_class_in_rows(table, i);
    }
    lemma_table_row_0_0();
    lemma_table_row_0_1();
    lemma_table_row_0_2();
    lemma_table_row_0_3();
    lemma_table_row_0_4();
    lemma_table_row_1_0();
    lemma_table_row_1_1();
    lemma_table_row_1_2();
    lemma_table_row_1_3();
    lemma_table_row_1_4();
    lemma_table_row_1_5();
    lemma_table_row_1_6();
    lemma_table_row_1_7();
    lemma_table_row_2_0();
    lemma_table_row_2_1();
    lemma_table_row_2_2();
    lemma_table_row_2_3();
    lemma_table_row_2_4();
}

} // verus!
