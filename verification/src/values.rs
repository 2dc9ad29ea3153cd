//! The set of disseminated values a node knows.
//!
//! A [`ValueSet`] grows only: duplicate insertions are no-ops and nothing is
//! ever removed, so merging received gossip is a union-semilattice operation.
//! It is stored as a duplicate-free vector; its mathematical model is the
//! `Set<usize>` of its elements.

use vstd::prelude::*;

verus! {

/// A grow-only set of values, stored as a duplicate-free vector.
pub struct ValueSet {
    pub elems: Vec<usize>,
}

impl View for ValueSet {
    type V = Set<usize>;

    open spec fn view(&self) -> Set<usize> {
        self.elems@.to_set()
    }
}

impl ValueSet {
    /// The representation holds each value at most once.
    pub open spec fn wf(&self) -> bool {
        self.elems@.no_duplicates()
    }

    /// The empty set.
    pub fn new() -> (r: ValueSet)
        ensures
            r.wf(),
            r@ == Set::<usize>::empty(),
    {
        let r = ValueSet { elems: Vec::new() };
        proof {
            assert(r@ =~= Set::<usize>::empty());
        }
        r
    }

    /// Whether `v` is in the set.
    pub fn contains(&self, v: usize) -> (r: bool)
        ensures
            r == self@.contains(v),
    {
        let n: usize = self.elems.len();
        let mut i: usize = 0;
        while i < n
            invariant
                n == self.elems@.len(),
                0 <= i <= n,
                forall|j: int| 0 <= j < i ==> self.elems@[j] != v,
            decreases n - i,
        {
            if self.elems[i] == v {
                assert(self@.contains(v));
                return true;
            }
            i = i + 1;
        }
        assert(!self.elems@.contains(v));
        false
    }

    /// Inserts `v`; a no-op when `v` is already present.
    pub fn insert(&mut self, v: usize)
        requires
            old(self).wf(),
        ensures
            final(self).wf(),
            final(self)@ == old(self)@.insert(v),
    {
        if !self.contains(v) {
            proof {
                self.elems@.lemma_push_to_set_commute(v);
            }
            self.elems.push(v);
        }
        proof {
            assert(self@ =~= old(self)@.insert(v));
        }
    }

    /// Inserts every element of `vs`; elements already present are no-ops.
    pub fn insert_all(&mut self, vs: &Vec<usize>)
        requires
            old(self).wf(),
        ensures
            final(self).wf(),
            final(self)@ == old(self)@.union(vs@.to_set()),
    {
        let n: usize = vs.len();
        let mut i: usize = 0;
        while i < n
            invariant
                n == vs@.len(),
                0 <= i <= n,
                self.wf(),
                self@ == old(self)@.union(vs@.take(i as int).to_set()),
            decreases n - i,
        {
            self.insert(vs[i]);
            proof {
                vs@.lemma_take_succ_push(i as int);
                vs@.take(i as int).lemma_push_to_set_commute(vs@[i as int]);
                assert(self@ =~= old(self)@.union(vs@.take(i + 1).to_set()));
            }
            i = i + 1;
        }
        proof {
            assert(vs@.take(n as int) =~= vs@);
        }
    }

    /// The number of values in the set.
    pub fn len(&self) -> (r: usize)
        requires
            self.wf(),
        ensures
            r == self@.len(),
    {
        proof {
            self.elems@.unique_seq_to_set();
        }
        self.elems.len()
    }

    /// A duplicate-free vector holding exactly the set's elements.
    pub fn to_vec(&self) -> (r: Vec<usize>)
        requires
            self.wf(),
        ensures
            r@.no_duplicates(),
            r@.to_set() == self@,
    {
        let n: usize = self.elems.len();
        let mut r: Vec<usize> = Vec::new();
        let mut i: usize = 0;
        while i < n
            invariant
                n == self.elems@.len(),
                0 <= i <= n,
                r@ == self.elems@.take(i as int),
            decreases n - i,
        {
            r.push(self.elems[i]);
            proof {
                assert(r@ =~= self.elems@.take(i + 1));
            }
            i = i + 1;
        }
        proof {
            assert(r@ =~= self.elems@);
        }
        r
    }

    /// The elements of `self` that are not in `other`, as a duplicate-free
    /// vector: the delta worth sending to a neighbor believed to know
    /// `other`.
    pub fn difference(&self, other: &ValueSet) -> (r: Vec<usize>)
        requires
            self.wf(),
        ensures
            r@.no_duplicates(),
            r@.to_set() == self@.difference(other@),
    {
        let n: usize = self.elems.len();
        let mut r: Vec<usize> = Vec::new();
        let mut i: usize = 0;
        while i < n
            invariant
                n == self.elems@.len(),
                0 <= i <= n,
                self.wf(),
                r@.no_duplicates(),
                forall|v: usize|
                    r@.contains(v) <==> (self.elems@.take(i as int).contains(v)
                        && !other@.contains(v)),
            decreases n - i,
        {
            let ghost r_pre = r@;
            let v = self.elems[i];
            if !other.contains(v) {
                proof {
                    if r@.contains(v) {
                        assert(self.elems@.take(i as int).contains(v));
                        let j = choose|j: int|
                            0 <= j < i && #[trigger] self.elems@.take(i as int)[j] == v;
                        assert(self.elems@[j] == self.elems@[i as int]);
                        assert(false);
                    }
                }
                r.push(v);
            }
            proof {
                self.elems@.lemma_take_succ_push(i as int);
                assert forall|w: usize|
                    r@.contains(w) <==> (self.elems@.take(i + 1).contains(w)
                        && !other@.contains(w)) by {
                    vstd::seq_lib::lemma_seq_contains_after_push(r_pre, v, w);
                    vstd::seq_lib::lemma_seq_contains_after_push(
                        self.elems@.take(i as int),
                        self.elems@[i as int],
                        w,
                    );
                }
            }
            i = i + 1;
        }
        proof {
            assert(self.elems@.take(n as int) =~= self.elems@);
            assert forall|v: usize|
                r@.to_set().contains(v) <==> self@.difference(other@).contains(v) by {
                assert(r@.to_set().contains(v) == r@.contains(v));
            }
            assert(r@.to_set() =~= self@.difference(other@));
        }
        r
    }
}

} // verus!
