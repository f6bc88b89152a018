//! A small map from strings to strings, kept as a list of pairs.

use vstd::prelude::*;
use crate::assoc::{assoc_map, key_absent, last_with_key, lemma_assoc_absent, lemma_assoc_lookup,
    lemma_assoc_push, lemma_assoc_replace};

verus! {

/// A map from strings to strings. Its view is a mathematical map; inserting
/// a key that is present replaces the value.
#[derive(Clone, Debug)]
pub struct StringMap {
    entries: Vec<(String, String)>,
}

impl View for StringMap {
    type V = Map<Seq<char>, Seq<char>>;

    closed spec fn view(&self) -> Map<Seq<char>, Seq<char>> {
        assoc_map(self.pairs())
    }
}

impl StringMap {
    /// The stored pairs, each string by its view.
    pub closed spec fn pairs(&self) -> Seq<(Seq<char>, Seq<char>)> {
        Seq::new(self.entries@.len(), |i: int| (self.entries@[i].0@, self.entries@[i].1@))
    }

    /// The empty map.
    pub fn new() -> (m: StringMap)
        ensures
            m@ == Map::<Seq<char>, Seq<char>>::empty(),
    {
        let m = StringMap { entries: Vec::new() };
        assert(m.pairs() =~= Seq::empty());
        m
    }

    /// The last position that holds `key`, if any holds it.
    fn position(&self, key: &String) -> (r: Option<usize>)
        ensures
            match r {
                Some(p) => last_with_key(self.pairs(), key@, p as int),
                None => key_absent(self.pairs(), key@),
            },
    {
        let mut found: Option<usize> = None;
        let mut i: usize = 0;
        while i < self.entries.len()
            invariant
                i <= self.entries@.len(),
                self.pairs().len() == self.entries@.len(),
                match found {
                    Some(p) => p < i && self.pairs()[p as int].0 == key@ && forall|j: int|
                        p < j < i ==> (#[trigger] self.pairs()[j]).0 != key@,
                    None => forall|j: int| 0 <= j < i ==> (#[trigger] self.pairs()[j]).0 != key@,
                },
            decreases self.entries@.len() - i,
        {
            if self.entries[i].0 == *key {
                found = Some(i);
            }
            i += 1;
        }
        found
    }

    /// Binds `key` to `value`, replacing an earlier binding of `key`.
    pub fn insert(&mut self, key: String, value: String)
        ensures
            final(self)@ == old(self)@.insert(key@, value@),
    {
        match self.position(&key) {
            Some(p) => {
                proof {
                    lemma_assoc_replace(self.pairs(), key@, p as int, value@);
                }
                self.entries.set(p, (key, value));
                assert(self.pairs() =~= old(self).pairs().update(p as int, (key@, value@)));
            },
            None => {
                proof {
                    lemma_assoc_push(self.pairs(), key@, value@);
                }
                self.entries.push((key, value));
                assert(self.pairs() =~= old(self).pairs().push((key@, value@)));
            },
        }
    }

    /// The value bound to `key`, or `None` where the map has no such key.
    pub fn get(&self, key: &str) -> (r: Option<&String>)
        ensures
            match r {
                Some(v) => self@.contains_key(key@) && v@ == self@[key@],
                None => !self@.contains_key(key@),
            },
    {
        let owned = key.to_owned();
        match self.position(&owned) {
            Some(p) => {
                proof {
                    lemma_assoc_lookup(self.pairs(), key@, p as int);
                }
                Some(&self.entries[p].1)
            },
            None => {
                proof {
                    lemma_assoc_absent(self.pairs(), key@);
                }
                None
            },
        }
    }
}

} // verus!
