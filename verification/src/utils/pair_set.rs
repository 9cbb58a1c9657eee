//! A set of ordered character pairs.

use crate::utils::text::lemma_code_point_injective;
use std::collections::HashSet;
use vstd::prelude::*;

verus! {

broadcast use vstd::std_specs::hash::group_hash_axioms;

/// The number under which the pair `(first, second)` is filed.
pub open spec fn pair_key(first: char, second: char) -> u64 {
    ((first as u64) * 0x1_0000_0000 + (second as u64)) as u64
}

/// Different pairs are filed under different numbers.
pub proof fn lemma_pair_key_injective(a: char, b: char, c: char, d: char)
    requires
        pair_key(a, b) == pair_key(c, d),
    ensures
        a == c,
        b == d,
{
    assert((a as u64) * 0x1_0000_0000 + (b as u64) == (c as u64) * 0x1_0000_0000 + (d as u64));
    assert(a as u64 == c as u64) by (nonlinear_arith)
        requires
            (a as u64) * 0x1_0000_0000 + (b as u64) == (c as u64) * 0x1_0000_0000 + (d as u64),
            (b as u64) < 0x1_0000_0000,
            (d as u64) < 0x1_0000_0000,
    ;
    lemma_code_point_injective(a, c);
    lemma_code_point_injective(b, d);
}

/// Whether `index` holds the numbers of the pairs of `pairs`, no others, and
/// no pair is listed twice.
spec fn filed(pairs: Seq<(char, char)>, index: Set<u64>) -> bool {
    &&& forall|i: int|
        0 <= i < pairs.len() ==> index.contains(pair_key((#[trigger] pairs[i]).0, pairs[i].1))
    &&& forall|k: u64| #[trigger]
        index.contains(k) ==> exists|i: int|
            0 <= i < pairs.len() && pair_key((#[trigger] pairs[i]).0, pairs[i].1) == k
    &&& pairs.no_duplicates()
}

/// A finite set of ordered pairs of characters with constant-time
/// membership test. The pairs can be listed in the order of insertion.
#[derive(Debug)]
pub struct PairSet {
    pairs: Vec<(char, char)>,
    index: HashSet<u64>,
}

impl View for PairSet {
    type V = Set<(char, char)>;

    closed spec fn view(&self) -> Set<(char, char)> {
        Set::new(|p: (char, char)| self.index@.contains(pair_key(p.0, p.1)))
    }
}

impl PairSet {
    #[verifier::type_invariant]
    spec fn inv(self) -> bool {
        filed(self.pairs@, self.index@)
    }

    /// The pairs of the set in the order of their insertion.
    pub closed spec fn spec_pairs(self) -> Seq<(char, char)> {
        self.pairs@
    }

    /// An empty set.
    pub fn new() -> (set: Self)
        ensures
            set@ == Set::<(char, char)>::empty(),
            set.spec_pairs() == Seq::<(char, char)>::empty(),
    {
        let set = PairSet { pairs: Vec::new(), index: HashSet::new() };
        assert(set@ =~= Set::<(char, char)>::empty());
        set
    }

    /// Whether `(first, second)` is in the set.
    pub fn contains(&self, first: char, second: char) -> (found: bool)
        ensures
            found == self@.contains((first, second)),
    {
        let key: u64 = (first as u64) * 0x1_0000_0000 + (second as u64);
        self.index.contains(&key)
    }

    /// The pairs in the order of their insertion. Each pair occurs once.
    pub fn pairs(&self) -> (pairs: &Vec<(char, char)>)
        ensures
            pairs@ == self.spec_pairs(),
            pairs@.no_duplicates(),
            self@ == pairs@.to_set(),
            self@.finite(),
            self@.len() == pairs@.len(),
    {
        proof {
            use_type_invariant(self);
            assert forall|p: (char, char)| self@.contains(p) implies self.pairs@.contains(p) by {
                let k = pair_key(p.0, p.1);
                let i = choose|i: int|
                    0 <= i < self.pairs@.len() && pair_key(
                        (#[trigger] self.pairs@[i]).0,
                        self.pairs@[i].1,
                    ) == k;
                lemma_pair_key_injective(self.pairs@[i].0, self.pairs@[i].1, p.0, p.1);
            }
            assert(self@ =~= self.pairs@.to_set());
            self.pairs@.unique_seq_to_set();
            vstd::seq_lib::seq_to_set_is_finite(self.pairs@);
        }
        &self.pairs
    }

    /// The number of pairs in the set.
    pub fn len(&self) -> (n: usize)
        ensures
            self@.finite(),
            n == self@.len(),
    {
        self.pairs().len()
    }

    /// Adds `(first, second)` to the set.
    pub fn insert(&mut self, first: char, second: char)
        ensures
            final(self)@ == old(self)@.insert((first, second)),
            final(self).spec_pairs() == if old(self)@.contains((first, second)) {
                old(self).spec_pairs()
            } else {
                old(self).spec_pairs().push((first, second))
            },
    {
        proof {
            use_type_invariant(&*self);
        }
        let mut this = PairSet { pairs: Vec::new(), index: HashSet::new() };
        std::mem::swap(self, &mut this);
        let ghost before = this@;
        let ghost old_pairs = this.pairs@;
        let ghost old_index = this.index@;
        let PairSet { mut pairs, mut index } = this;
        let key: u64 = (first as u64) * 0x1_0000_0000 + (second as u64);
        if index.insert(key) {
            pairs.push((first, second));
            proof {
                assert forall|k: u64| #[trigger] index@.contains(k) implies exists|i: int|
                    0 <= i < pairs@.len() && pair_key((#[trigger] pairs@[i]).0, pairs@[i].1)
                        == k by {
                    if k == key {
                        assert(pair_key(pairs@[old_pairs.len() as int].0, pairs@[old_pairs.len() as int].1) == k);
                    } else {
                        let i = choose|i: int|
                            0 <= i < old_pairs.len() && pair_key(
                                (#[trigger] old_pairs[i]).0,
                                old_pairs[i].1,
                            ) == k;
                        assert(pair_key(pairs@[i].0, pairs@[i].1) == k);
                    }
                }
                assert forall|i: int, j: int|
                    0 <= i < pairs@.len() && 0 <= j < pairs@.len() && i != j implies pairs@[i]
                    != pairs@[j] by {
                    if i < old_pairs.len() && j < old_pairs.len() {
                        assert(old_pairs[i] != old_pairs[j]);
                    } else if i < old_pairs.len() {
                        assert(old_index.contains(pair_key(old_pairs[i].0, old_pairs[i].1)));
                    } else {
                        assert(old_index.contains(pair_key(old_pairs[j].0, old_pairs[j].1)));
                    }
                }
            }
        }
        proof {
            assert(forall|i: int|
                0 <= i < pairs@.len() ==> index@.contains(
                    pair_key((#[trigger] pairs@[i]).0, pairs@[i].1),
                ));
            assert(forall|k: u64| #[trigger]
                index@.contains(k) ==> exists|i: int|
                    0 <= i < pairs@.len() && pair_key((#[trigger] pairs@[i]).0, pairs@[i].1)
                        == k);
            assert(pairs@.no_duplicates());
            assert(filed(pairs@, index@));
        }
        *self = PairSet { pairs, index };
        proof {
            assert forall|p: (char, char)| #[trigger]
                self@.contains(p) == before.insert((first, second)).contains(p) by {
                if pair_key(p.0, p.1) == key {
                    lemma_pair_key_injective(p.0, p.1, first, second);
                }
            }
            assert(self@ =~= before.insert((first, second)));
        }
    }
}

} // verus!
