//! Vietnamese word dictionary for spell-check by dictionary.
//!
//! The dictionary file holds one word per line; surrounding whitespace is
//! ignored and blank lines are skipped. Reading the file is left to the
//! caller, which hands its text to [`parse_dictionary`]; a missing file is an
//! empty dictionary, in which case dictionary checks simply never match.
use vstd::prelude::*;
use crate::text::{chars_eq, chars_of, split_lines, split_lines_spec, trim_chars, trim_spec};

verus! {

/// The words of a dictionary text: each line trimmed, blank lines skipped.
pub open spec fn dictionary_words(pieces: Seq<Seq<char>>) -> Seq<Seq<char>>
    decreases pieces.len(),
{
    if pieces.len() == 0 {
        Seq::empty()
    } else {
        let p = dictionary_words(pieces.drop_last());
        let w = trim_spec(pieces.last());
        if w.len() > 0 {
            p.push(w)
        } else {
            p
        }
    }
}

/// A set of known words.
pub struct Dictionary {
    words: Vec<Vec<char>>,
}

impl View for Dictionary {
    type V = Seq<Seq<char>>;

    closed spec fn view(&self) -> Seq<Seq<char>> {
        self.words@.map_values(|w: Vec<char>| w@)
    }
}

impl Dictionary {
    /// A dictionary with no words.
    pub fn empty() -> (r: Dictionary)
        ensures
            r@ == Seq::<Seq<char>>::empty(),
    {
        let r = Dictionary { words: Vec::new() };
        assert(r@ =~= Seq::<Seq<char>>::empty());
        r
    }
}

impl Clone for Dictionary {
    fn clone(&self) -> (r: Dictionary)
        ensures
            r@ == self@,
    {
        let mut words: Vec<Vec<char>> = Vec::new();
        let mut i: usize = 0;
        while i < self.words.len()
            invariant
                i <= self.words@.len(),
                words@.map_values(|w: Vec<char>| w@) == self.words@.map_values(|w: Vec<char>| w@).subrange(0, i as int),
            decreases self.words@.len() - i,
        {
            let w = self.words[i].clone();
            proof {
                assert(words@.push(w).map_values(|w: Vec<char>| w@) =~= words@.map_values(|w: Vec<char>| w@).push(w@));
                assert(self.words@.map_values(|w: Vec<char>| w@).subrange(0, i + 1) =~= self.words@.map_values(
                    |w: Vec<char>| w@,
                ).subrange(0, i as int).push(self.words@[i as int]@));
            }
            words.push(w);
            i += 1;
        }
        assert(self.words@.map_values(|w: Vec<char>| w@).subrange(0, self.words@.len() as int) =~= self.words@.map_values(
            |w: Vec<char>| w@,
        ));
        Dictionary { words }
    }
}

/// The dictionary of a word-list text.
pub fn parse_dictionary(text: &str) -> (r: Dictionary)
    ensures
        r@ == dictionary_words(split_lines_spec(text@)),
{
    let chars = chars_of(text);
    let pieces = split_lines(chars.as_slice());
    let ghost ps = split_lines_spec(text@);
    let mut words: Vec<Vec<char>> = Vec::new();
    let mut i: usize = 0;
    assert(ps.subrange(0, 0) =~= Seq::<Seq<char>>::empty());
    assert(words@.map_values(|w: Vec<char>| w@) =~= Seq::<Seq<char>>::empty());
    while i < pieces.len()
        invariant
            i <= pieces@.len() == ps.len(),
            forall|k: int| 0 <= k < pieces@.len() ==> (#[trigger] pieces@[k])@ == ps[k],
            words@.map_values(|w: Vec<char>| w@) == dictionary_words(ps.subrange(0, i as int)),
        decreases pieces@.len() - i,
    {
        proof {
            assert(ps.subrange(0, i + 1).drop_last() =~= ps.subrange(0, i as int));
            assert(ps.subrange(0, i + 1).last() == ps[i as int]);
        }
        let w = trim_chars(pieces[i].as_slice());
        if w.len() > 0 {
            proof {
                assert(words@.push(w).map_values(|w: Vec<char>| w@) =~= words@.map_values(|w: Vec<char>| w@).push(w@));
            }
            words.push(w);
        }
        i += 1;
    }
    assert(ps.subrange(0, ps.len() as int) =~= ps);
    Dictionary { words }
}

/// Whether `word` (lowercase composed Vietnamese) is a known dictionary word.
pub fn contains(dict: &Dictionary, word: &str) -> (r: bool)
    ensures
        r == dict@.contains(word@),
{
    let wanted = chars_of(word);
    let mut i: usize = 0;
    while i < dict.words.len()
        invariant
            i <= dict.words@.len(),
            wanted@ == word@,
            forall|k: int| 0 <= k < i ==> dict@[k] != word@,
            dict@ == dict.words@.map_values(|w: Vec<char>| w@),
        decreases dict.words@.len() - i,
    {
        if chars_eq(dict.words[i].as_slice(), wanted.as_slice()) {
            assert(dict@[i as int] == word@);
            return true;
        }
        i += 1;
    }
    false
}

proof fn lemma_dictionary_words(ps: Seq<Seq<char>>)
    ensures
        forall|i: int|
            0 <= i < ps.len() && trim_spec(ps[i]).len() > 0 ==> dictionary_words(ps).contains(
                #[trigger] trim_spec(ps[i]),
            ),
        forall|w: Seq<char>|
            dictionary_words(ps).contains(w) ==> w.len() > 0 && exists|i: int|
                0 <= i < ps.len() && w == #[trigger] trim_spec(ps[i]),
    decreases ps.len(),
{
    if ps.len() > 0 {
        let init = ps.drop_last();
        lemma_dictionary_words(init);
        let p = dictionary_words(init);
        let w = trim_spec(ps.last());
        let d = dictionary_words(ps);
        assert forall|i: int| 0 <= i < ps.len() && trim_spec(ps[i]).len() > 0 implies d.contains(
            #[trigger] trim_spec(ps[i]),
        ) by {
            if i < init.len() {
                assert(init[i] == ps[i]);
                let j = choose|j: int| 0 <= j < p.len() && p[j] == trim_spec(init[i]);
                assert(d[j] == p[j]);
            } else {
                assert(ps[i] == ps.last());
                assert(d[d.len() - 1] == w);
            }
        }
        assert forall|x: Seq<char>| d.contains(x) implies x.len() > 0 && exists|i: int|
            0 <= i < ps.len() && x == #[trigger] trim_spec(ps[i]) by {
            let j = choose|j: int| 0 <= j < d.len() && d[j] == x;
            if j < p.len() {
                assert(d[j] == p[j]);
                assert(p.contains(x));
                let i = choose|i: int| 0 <= i < init.len() && x == #[trigger] trim_spec(init[i]);
                assert(init[i] == ps[i]);
            } else {
                assert(x == w);
                assert(ps[ps.len() - 1] == ps.last());
            }
        }
    }
}

/// A dictionary text holds exactly its non-blank lines: every line whose
/// trimmed text is not empty is a word (however short), and every word is a
/// non-empty trimmed line of the text.
pub proof fn law_dictionary_holds_its_lines(text: Seq<char>)
    ensures
        forall|i: int|
            0 <= i < split_lines_spec(text).len() && trim_spec(split_lines_spec(text)[i]).len() > 0
                ==> dictionary_words(split_lines_spec(text)).contains(#[trigger] trim_spec(split_lines_spec(text)[i])),
        forall|w: Seq<char>|
            dictionary_words(split_lines_spec(text)).contains(w) ==> w.len() > 0 && exists|i: int|
                0 <= i < split_lines_spec(text).len() && w == #[trigger] trim_spec(split_lines_spec(text)[i]),
{
    lemma_dictionary_words(split_lines_spec(text));
}

} // verus!
