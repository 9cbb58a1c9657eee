//! A map keyed by characters that remembers the order in which its keys
//! were first inserted.

use std::collections::HashMap;
use crate::utils::text::lemma_code_point_injective;
use vstd::prelude::*;

verus! {

broadcast use vstd::std_specs::hash::group_hash_axioms;

/// A finite map from characters to values of type `V` with constant-time
/// lookup. The keys can be listed in the order of their first insertion.
#[derive(Debug)]
pub struct CharMap<V> {
    keys: Vec<char>,
    values: Vec<V>,
    index: HashMap<u32, usize>,
}

impl<V> View for CharMap<V> {
    type V = Map<char, V>;

    closed spec fn view(&self) -> Map<char, V> {
        Map::new(
            |c: char| self.index@.contains_key(c as u32),
            |c: char| self.values@[self.index@[c as u32] as int],
        )
    }
}

impl<V> CharMap<V> {
    #[verifier::type_invariant]
    spec fn inv(self) -> bool {
        &&& self.keys@.len() == self.values@.len()
        &&& forall|i: int|
            0 <= i < self.keys@.len() ==> self.index@.contains_key(#[trigger] self.keys@[i] as u32)
                && self.index@[self.keys@[i] as u32] == i
        &&& forall|k: u32| #[trigger]
            self.index@.contains_key(k) ==> self.index@[k] < self.keys@.len()
                && self.keys@[self.index@[k] as int] as u32 == k
    }

    /// The keys of the map in the order of their first insertion.
    pub closed spec fn spec_keys(self) -> Seq<char> {
        self.keys@
    }
}

impl<V: Copy> CharMap<V> {

    /// An empty map.
    pub fn new() -> (m: Self)
        ensures
            m@ == Map::<char, V>::empty(),
            m.spec_keys() == Seq::<char>::empty(),
    {
        let m = CharMap { keys: Vec::new(), values: Vec::new(), index: HashMap::new() };
        assert(m@ =~= Map::<char, V>::empty());
        m
    }

    /// The number of keys.
    pub fn len(&self) -> (n: usize)
        ensures
            n == self.spec_keys().len(),
    {
        self.keys.len()
    }

    /// The value stored under `ch`, if any.
    pub fn get(&self, ch: char) -> (value: Option<V>)
        ensures
            value == if self@.contains_key(ch) {
                Some(self@[ch])
            } else {
                None::<V>
            },
    {
        proof {
            use_type_invariant(self);
        }
        let cp: u32 = ch as u32;
        match self.index.get(&cp) {
            Some(i) => Some(self.values[*i]),
            None => None,
        }
    }

    /// Whether `ch` is a key of the map.
    pub fn contains_key(&self, ch: char) -> (found: bool)
        ensures
            found == self@.contains_key(ch),
    {
        let cp: u32 = ch as u32;
        self.index.contains_key(&cp)
    }

    /// The keys in the order of their first insertion. Each key occurs once.
    pub fn keys(&self) -> (keys: &Vec<char>)
        ensures
            keys@ == self.spec_keys(),
            keys@.no_duplicates(),
            forall|c: char| self@.contains_key(c) <==> keys@.contains(c),
    {
        proof {
            use_type_invariant(self);
            assert forall|c: char| self@.contains_key(c) implies self.keys@.contains(c) by {
                let i = self.index@[c as u32] as int;
                lemma_code_point_injective(self.keys@[i], c);
            }
            assert forall|i: int, j: int|
                0 <= i < self.keys@.len() && 0 <= j < self.keys@.len() && i != j implies self.keys@[i]
                != self.keys@[j] by {}
        }
        &self.keys
    }

    /// Stores `value` under `ch`, replacing the value of an existing key
    /// and keeping that key's place in the insertion order.
    pub fn insert(&mut self, ch: char, value: V)
        ensures
            final(self)@ == old(self)@.insert(ch, value),
            final(self).spec_keys() == if old(self)@.contains_key(ch) {
                old(self).spec_keys()
            } else {
                old(self).spec_keys().push(ch)
            },
    {
        proof {
            use_type_invariant(&*self);
        }
        let mut this = CharMap { keys: Vec::new(), values: Vec::new(), index: HashMap::new() };
        std::mem::swap(self, &mut this);
        let ghost before = this@;
        let ghost old_index = this.index@;
        let ghost old_values = this.values@;
        let ghost old_keys = this.keys@;
        let CharMap { mut keys, mut values, mut index } = this;
        let cp: u32 = ch as u32;
        let found: Option<usize> = match index.get(&cp) {
            Some(i) => Some(*i),
            None => None,
        };
        match found {
            Some(i) => {
                values.set(i, value);
            },
            None => {
                let n: usize = keys.len();
                keys.push(ch);
                values.push(value);
                index.insert(cp, n);
            },
        }
        *self = CharMap { keys, values, index };
        assert forall|c: char| #[trigger] self@.contains_key(c) == before.insert(ch, value).contains_key(c) by {
            if c as u32 == cp {
                lemma_code_point_injective(c, ch);
            }
        }
        assert forall|c: char| #[trigger] self@.contains_key(c) implies self@[c] == before.insert(ch, value)[c] by {
            if c as u32 == cp {
                lemma_code_point_injective(c, ch);
            } else {
                assert(old_index.contains_key(c as u32));
                assert(old_keys[old_index[c as u32] as int] as u32 == c as u32);
            }
        }
        assert(self@ =~= before.insert(ch, value));
    }
}

} // verus!
