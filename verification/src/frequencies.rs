//! How often each character occurs in a text.

use std::collections::HashMap;
use vstd::prelude::*;
use vstd::set_lib::lemma_map_size;
use vstd::std_specs::iter::IteratorSpec;
use vstd::utf8::char_u32_cast;

verus! {

/// Number of positions of `s` that hold `c`.
pub open spec fn occurrences(s: Seq<char>, c: char) -> nat
    decreases s.len(),
{
    if s.len() == 0 {
        0
    } else {
        occurrences(s.drop_last(), c) + if s.last() == c {
            1nat
        } else {
            0nat
        }
    }
}

/// The characters that occur in `s`, each with the number of its
/// occurrences. A character that does not occur has no entry.
pub open spec fn frequencies(s: Seq<char>) -> Map<char, nat> {
    Map::new(|c: char| occurrences(s, c) > 0, |c: char| occurrences(s, c))
}

/// No character occurs more often than the text is long.
pub proof fn lemma_occurrences_bounded(s: Seq<char>, c: char)
    ensures
        occurrences(s, c) <= s.len(),
    decreases s.len(),
{
    if s.len() > 0 {
        lemma_occurrences_bounded(s.drop_last(), c);
    }
}

/// The code point of `c`, by which its count is kept.
pub open spec fn code_point(c: char) -> u32 {
    c as u32
}

/// Different characters have different code points.
proof fn lemma_code_points_differ(c: char, d: char)
    ensures
        code_point(c) == code_point(d) ==> c == d,
{
    char_u32_cast(c, c as u32);
    char_u32_cast(d, d as u32);
}

/// Occurrence counts by character. Only characters that were counted at
/// least once have an entry.
#[derive(Debug)]
pub struct CharFrequencies {
    /// Each counted character with its count, under its code point.
    counts: HashMap<u32, (char, usize)>,
}

impl View for CharFrequencies {
    type V = Map<char, nat>;

    closed spec fn view(&self) -> Map<char, nat> {
        Map::new(
            |c: char| self.counts@.contains_key(code_point(c)),
            |c: char| self.counts@[code_point(c)].1 as nat,
        )
    }
}

impl CharFrequencies {
    /// Every entry stands under the code point of its character.
    #[verifier::type_invariant]
    spec fn keyed_by_code_point(self) -> bool {
        forall|code: u32| #[trigger]
            self.counts@.contains_key(code) ==> code_point(self.counts@[code].0) == code
    }

    /// The count recorded for `c`: 0 where it has no entry.
    pub open spec fn count_of(&self, c: char) -> nat {
        if self@.contains_key(c) {
            self@[c]
        } else {
            0
        }
    }

    /// Counts of nothing: no character has an entry.
    pub fn new() -> (empty: CharFrequencies)
        ensures
            empty@ == Map::<char, nat>::empty(),
    {
        CharFrequencies { counts: HashMap::new() }
    }

    /// The entry of `c`, if it has one.
    pub fn get(&self, c: &char) -> (entry: Option<&usize>)
        ensures
            match entry {
                Some(n) => self@.contains_key(*c) && *n == self@[*c],
                None => !self@.contains_key(*c),
            },
    {
        let code: u32 = *c as u32;
        match self.counts.get(&code) {
            Some(entry) => Some(&entry.1),
            None => None,
        }
    }

    /// How often `c` was counted.
    pub fn count(&self, c: char) -> (n: usize)
        ensures
            n == self.count_of(c),
    {
        match self.get(&c) {
            Some(n) => *n,
            None => 0,
        }
    }

    /// Number of characters that have an entry.
    pub fn len(&self) -> (n: usize)
        ensures
            n == self@.dom().len(),
            self@.dom().finite(),
    {
        proof {
            use_type_invariant(self);
            let stored = |code: u32| self.counts@[code].0;
            assert forall|c: char| self@.dom().contains(c) implies self.counts@.dom().map(
                stored,
            ).contains(c) by {
                lemma_code_points_differ(c, stored(code_point(c)));
                assert(self.counts@.dom().contains(code_point(c)));
            }
            assert(self.counts@.dom().map(stored) =~= self@.dom());
            lemma_map_size(self.counts@.dom(), self@.dom(), stored);
        }
        self.counts.len()
    }

    /// Whether no character has an entry.
    pub fn is_empty(&self) -> (empty: bool)
        ensures
            empty == (self@ == Map::<char, nat>::empty()),
    {
        let n = self.len();
        assert(n == 0 ==> self@ =~= Map::<char, nat>::empty());
        n == 0
    }

    /// The characters that have an entry, each once and with its count, in
    /// no particular order.
    pub fn entries(&self) -> (list: Vec<(char, usize)>)
        ensures
            forall|i: int|
                0 <= i < list@.len() ==> self@.contains_key((#[trigger] list@[i]).0)
                    && self@[list@[i].0] == list@[i].1,
            forall|c: char|
                self@.contains_key(c) ==> exists|i: int|
                    0 <= i < list@.len() && (#[trigger] list@[i]).0 == c,
            forall|i: int, j: int|
                0 <= i < j < list@.len() ==> (#[trigger] list@[i]).0 != (#[trigger] list@[j]).0,
    {
        proof {
            use_type_invariant(self);
        }
        let mut list: Vec<(char, usize)> = Vec::new();
        for entry in it: self.counts.iter()
            invariant
                list@.len() == it.index(),
                it.seq().no_duplicates(),
                forall|code: u32| #[trigger]
                    self.counts@.contains_key(code) ==> code_point(self.counts@[code].0) == code,
                forall|i: int|
                    0 <= i < it.seq().len() ==> self.counts@.contains_key(
                        *(#[trigger] it.seq()[i]).0,
                    ) && self.counts@[*it.seq()[i].0] == *it.seq()[i].1,
                forall|code: u32| #[trigger]
                    self.counts@.contains_key(code) ==> it.seq().contains(
                        (&code, &self.counts@[code]),
                    ),
                forall|i: int| 0 <= i < list@.len() ==> list@[i] == *(#[trigger] it.seq()[i]).1,
                forall|i: int|
                    0 <= i < list@.len() ==> self.counts@.contains_key(
                        code_point((#[trigger] list@[i]).0),
                    ) && self.counts@[code_point(list@[i].0)] == list@[i],
                forall|i: int, j: int|
                    0 <= i < j < list@.len() ==> (#[trigger] list@[i]).0 != (
                    #[trigger] list@[j]).0,
        {
            let (code, pair) = entry;
            proof {
                // A character that is in the list already stands under
                // another code point than this entry.
                let n = it.index() as int;
                assert forall|i: int| 0 <= i < n implies (#[trigger] list@[i]).0 != pair.0 by {
                    if list@[i].0 == pair.0 {
                        assert(*it.seq()[i].0 == *it.seq()[n].0);
                        assert(it.seq()[i] == it.seq()[n]);
                    }
                }
            }
            list.push(*pair);
        }
        proof {
            assert forall|c: char| self@.contains_key(c) implies exists|i: int|
                0 <= i < list@.len() && (#[trigger] list@[i]).0 == c by {
                lemma_code_points_differ(c, self.counts@[code_point(c)].0);
            }
        }
        list
    }

    /// Counts one more occurrence of `c`.
    pub fn record(&mut self, c: char)
        requires
            old(self).count_of(c) < usize::MAX,
        ensures
            final(self)@ == old(self)@.insert(c, old(self).count_of(c) + 1),
    {
        proof {
            use_type_invariant(&*self);
        }
        let mut taken = CharFrequencies::new();
        std::mem::swap(self, &mut taken);
        let CharFrequencies { counts } = taken;
        let mut counts = counts;
        let code: u32 = c as u32;
        let seen: usize = match counts.get(&code) {
            Some(entry) => entry.1,
            None => 0,
        };
        counts.insert(code, (c, seen + 1));
        proof {
            assert forall|d: char| d != c implies #[trigger] code_point(d) != code by {
                lemma_code_points_differ(c, d);
            }
        }
        *self = CharFrequencies { counts };
    }
}

} // verus!
