//! A finite set of process identifiers.
//!
//! The set is held as a strictly ascending vector, which gives every
//! enumeration of its elements one deterministic order: ascending numeric
//! order. Detections derived from it are therefore reproducible.

use vstd::prelude::*;
use vstd::seq_lib::seq_to_set_is_finite;

verus! {

/// Pairwise strict ascending order: every element is smaller than all that
/// follow it, so the sequence also holds no duplicates.
pub open spec fn strictly_sorted(s: Seq<i32>) -> bool {
    forall|i: int, j: int| 0 <= i < j < s.len() ==> s[i] < s[j]
}

/// The set of the first `k` elements of `s` grows by exactly `s[k]` when the
/// next element is taken in.
pub proof fn lemma_take_succ_to_set(s: Seq<i32>, k: int)
    requires
        0 <= k < s.len(),
    ensures
        s.take(k + 1).to_set() == s.take(k).to_set().insert(s[k]),
{
    assert forall|v: i32| s.take(k + 1).to_set().contains(v) implies s.take(k).to_set().insert(
        s[k],
    ).contains(v) by {
        let i = choose|i: int| 0 <= i < s.take(k + 1).len() && #[trigger] s.take(k + 1)[i] == v;
        if i < k {
            assert(s.take(k)[i] == v);
            assert(s.take(k).contains(v));
        } else {
            assert(v == s[k]);
        }
    }
    assert forall|v: i32| s.take(k).to_set().insert(s[k]).contains(v) implies s.take(
        k + 1,
    ).to_set().contains(v) by {
        if s.take(k).contains(v) {
            let i = choose|i: int| 0 <= i < s.take(k).len() && #[trigger] s.take(k)[i] == v;
            assert(s.take(k + 1)[i] == v);
            assert(s.take(k + 1).contains(v));
        } else {
            assert(v == s[k]);
            assert(s.take(k + 1)[k] == v);
            assert(s.take(k + 1).contains(v));
        }
    }
    assert(s.take(k + 1).to_set() =~= s.take(k).to_set().insert(s[k]));
}

/// A finite set of process identifiers whose elements enumerate in ascending
/// numeric order. Its abstract value is the set of identifiers it holds.
pub struct ProcSet {
    ids: Vec<i32>,
}

impl View for ProcSet {
    type V = Set<i32>;

    closed spec fn view(&self) -> Set<i32> {
        self.ids@.to_set()
    }
}

impl ProcSet {
    #[verifier::type_invariant]
    spec fn inv(&self) -> bool {
        strictly_sorted(self.ids@)
    }

    /// The empty set.
    pub fn empty() -> (s: ProcSet)
        ensures
            s@ == Set::<i32>::empty(),
            s@.finite(),
    {
        let ids: Vec<i32> = Vec::new();
        proof {
            assert(ids@.to_set() =~= Set::<i32>::empty());
            broadcast use seq_to_set_is_finite;

        }
        ProcSet { ids }
    }

    /// The set of the identifiers listed in `ids` (in any order, duplicates
    /// allowed).
    pub fn from_ids(ids: &Vec<i32>) -> (s: ProcSet)
        ensures
            s@ == ids@.to_set(),
            s@.finite(),
    {
        let mut s = ProcSet::empty();
        let mut k: usize = 0;
        proof {
            assert(ids@.take(0) =~= Seq::<i32>::empty());
            assert(ids@.take(0).to_set() =~= Set::<i32>::empty());
        }
        while k < ids.len()
            invariant
                k <= ids.len(),
                s@ == ids@.take(k as int).to_set(),
                s@.finite(),
            decreases ids.len() - k,
        {
            let v = ids[k];
            s.insert(v);
            proof {
                lemma_take_succ_to_set(ids@, k as int);
            }
            k = k + 1;
        }
        proof {
            assert(ids@.take(ids@.len() as int) =~= ids@);
        }
        s
    }

    /// Whether `v` is in the set.
    pub fn contains(&self, v: i32) -> (r: bool)
        ensures
            r == self@.contains(v),
    {
        let mut k: usize = 0;
        while k < self.ids.len()
            invariant
                k <= self.ids.len(),
                forall|j: int| 0 <= j < k ==> self.ids@[j] != v,
            decreases self.ids.len() - k,
        {
            if self.ids[k] == v {
                proof {
                    assert(self.ids@.contains(v));
                }
                return true;
            }
            k = k + 1;
        }
        proof {
            assert(!self.ids@.contains(v));
        }
        false
    }

    /// How many identifiers the set holds.
    pub fn len(&self) -> (n: usize)
        ensures
            n == self@.len(),
    {
        proof {
            use_type_invariant(self);
            assert forall|i: int, j: int|
                (0 <= i < self.ids@.len() && 0 <= j < self.ids@.len() && i != j) implies self.ids@[i]
                != self.ids@[j] by {
                if i < j {
                    assert(self.ids@[i] < self.ids@[j]);
                } else {
                    assert(self.ids@[j] < self.ids@[i]);
                }
            }
            assert(self.ids@.no_duplicates());
            self.ids@.unique_seq_to_set();
        }
        self.ids.len()
    }

    /// Add `v` to the set. Identifiers are only ever added, never removed:
    /// the set grows monotonically over its lifetime.
    #[verifier::rlimit(50)]
    pub fn insert(&mut self, v: i32)
        ensures
            final(self)@ == old(self)@.insert(v),
            final(self)@.finite(),
    {
        proof {
            use_type_invariant(&*self);
            broadcast use seq_to_set_is_finite;

        }
        let mut ids: Vec<i32> = Vec::new();
        core::mem::swap(&mut ids, &mut self.ids);
        let ghost orig = ids@;
        let mut pos: usize = 0;
        while pos < ids.len() && ids[pos] < v
            invariant
                pos <= ids.len(),
                ids@ == orig,
                forall|j: int| 0 <= j < pos ==> orig[j] < v,
            decreases ids.len() - pos,
        {
            pos = pos + 1;
        }
        if pos < ids.len() && ids[pos] == v {
            // already present: the set is unchanged
            proof {
                assert(orig.contains(v));
                assert(orig.to_set() =~= orig.to_set().insert(v));
            }
        } else {
            ids.insert(pos, v);
            proof {
                assert(strictly_sorted(orig));
                let new = ids@;
                assert(new == orig.insert(pos as int, v));
                orig.insert_ensures(pos as int, v);
                // membership: new holds exactly orig's elements and v
                assert forall|x: i32| new.to_set().contains(x) implies orig.to_set().insert(
                    v,
                ).contains(x) by {
                    let i = choose|i: int| 0 <= i < new.len() && #[trigger] new[i] == x;
                    if i < pos {
                        assert(orig[i] == x);
                        assert(orig.contains(x));
                    } else if i == pos {
                        assert(x == v);
                    } else {
                        assert(orig[i - 1] == x);
                        assert(orig.contains(x));
                    }
                }
                assert forall|x: i32| orig.to_set().insert(v).contains(x) implies new.to_set()
                    .contains(x) by {
                    if orig.contains(x) {
                        let i = choose|i: int| 0 <= i < orig.len() && #[trigger] orig[i] == x;
                        if i < pos {
                            assert(new[i] == x);
                        } else {
                            assert(new[i + 1] == x);
                        }
                        assert(new.contains(x));
                    } else {
                        assert(x == v);
                        assert(new[pos as int] == x);
                        assert(new.contains(x));
                    }
                }
                assert(new.to_set() =~= orig.to_set().insert(v));
                // order: everything before `pos` is below v, everything after is above
                assert forall|i: int, j: int| 0 <= i < j < new.len() implies new[i] < new[j] by {
                    if j < pos {
                    } else if j == pos {
                        assert(new[i] == orig[i] && orig[i] < v);
                    } else if i == pos {
                        assert(new[j] == orig[j - 1]);
                        assert(orig[j - 1] >= v && orig[j - 1] != v);
                    } else if i < pos {
                        assert(new[i] == orig[i] && new[j] == orig[j - 1]);
                    } else {
                        assert(new[i] == orig[i - 1] && new[j] == orig[j - 1]);
                    }
                }
            }
        }
        core::mem::swap(&mut ids, &mut self.ids);
    }

    /// The identifiers of the set, in ascending numeric order.
    pub fn to_sorted_vec(&self) -> (r: Vec<i32>)
        ensures
            strictly_sorted(r@),
            forall|v: i32| r@.contains(v) <==> self@.contains(v),
    {
        proof {
            use_type_invariant(self);
        }
        let mut out: Vec<i32> = Vec::new();
        let mut k: usize = 0;
        while k < self.ids.len()
            invariant
                k <= self.ids.len(),
                out@ == self.ids@.take(k as int),
            decreases self.ids.len() - k,
        {
            out.push(self.ids[k]);
            proof {
                assert(out@ =~= self.ids@.take(k + 1));
            }
            k = k + 1;
        }
        proof {
            assert(out@ =~= self.ids@);
        }
        out
    }

    /// The identifiers of `self` that are not in `other`, in ascending
    /// numeric order: the set difference `self@ - other@`, enumerated
    /// deterministically.
    pub fn minus_sorted(&self, other: &ProcSet) -> (r: Vec<i32>)
        ensures
            strictly_sorted(r@),
            forall|v: i32| r@.contains(v) <==> (self@.contains(v) && !other@.contains(v)),
    {
        proof {
            use_type_invariant(self);
        }
        let mut out: Vec<i32> = Vec::new();
        let mut k: usize = 0;
        while k < self.ids.len()
            invariant
                k <= self.ids.len(),
                strictly_sorted(self.ids@),
                strictly_sorted(out@),
                forall|v: i32|
                    out@.contains(v) <==> (self.ids@.take(k as int).contains(v)
                        && !other@.contains(v)),
                forall|j: int| 0 <= j < out@.len() ==> self.ids@.take(k as int).contains(out@[j]),
            decreases self.ids.len() - k,
        {
            let v = self.ids[k];
            let ghost prev = out@;
            if !other.contains(v) {
                out.push(v);
                proof {
                    // order is kept: every earlier pick comes from a smaller index
                    assert forall|i: int, j: int| 0 <= i < j < out@.len() implies out@[i]
                        < out@[j] by {
                        if j == out@.len() - 1 {
                            assert(prev.contains(prev[i]));
                            let pi = choose|pi: int|
                                0 <= pi < k && #[trigger] self.ids@.take(k as int)[pi] == prev[i];
                            assert(self.ids@[pi] < self.ids@[k as int]);
                        }
                    }
                    assert forall|x: i32| out@.contains(x) implies (self.ids@.take(
                        k + 1,
                    ).contains(x) && !other@.contains(x)) by {
                        let i = choose|i: int| 0 <= i < out@.len() && #[trigger] out@[i] == x;
                        if i < prev.len() {
                            assert(prev[i] == x);
                            assert(prev.contains(x));
                            let pi = choose|pi: int|
                                0 <= pi < k && #[trigger] self.ids@.take(k as int)[pi] == x;
                            assert(self.ids@.take(k + 1)[pi] == x);
                        } else {
                            assert(x == v);
                            assert(self.ids@.take(k + 1)[k as int] == x);
                        }
                        assert(self.ids@.take(k + 1).contains(x));
                    }
                    assert forall|x: i32| (self.ids@.take(k + 1).contains(x) && !other@.contains(
                        x,
                    )) implies out@.contains(x) by {
                        let i = choose|i: int| 0 <= i < k + 1 && #[trigger] self.ids@.take(k + 1)[i] == x;
                        if i < k {
                            assert(self.ids@.take(k as int)[i] == x);
                            assert(self.ids@.take(k as int).contains(x));
                            assert(prev.contains(x));
                            let pi = choose|pi: int| 0 <= pi < prev.len() && #[trigger] prev[pi] == x;
                            assert(out@[pi] == x);
                        } else {
                            assert(x == v);
                            assert(out@[out@.len() - 1] == x);
                        }
                        assert(out@.contains(x));
                    }
                    assert forall|j: int| 0 <= j < out@.len() implies self.ids@.take(
                        k + 1,
                    ).contains(out@[j]) by {
                        assert(out@.contains(out@[j]));
                    }
                }
            } else {
                proof {
                    assert forall|x: i32| out@.contains(x) implies (self.ids@.take(
                        k + 1,
                    ).contains(x) && !other@.contains(x)) by {
                        assert(self.ids@.take(k as int).contains(x));
                        let pi = choose|pi: int|
                            0 <= pi < k && #[trigger] self.ids@.take(k as int)[pi] == x;
                        assert(self.ids@.take(k + 1)[pi] == x);
                        assert(self.ids@.take(k + 1).contains(x));
                    }
                    assert forall|x: i32| (self.ids@.take(k + 1).contains(x) && !other@.contains(
                        x,
                    )) implies out@.contains(x) by {
                        let i = choose|i: int| 0 <= i < k + 1 && #[trigger] self.ids@.take(k + 1)[i] == x;
                        if i < k {
                            assert(self.ids@.take(k as int)[i] == x);
                            assert(self.ids@.take(k as int).contains(x));
                        } else {
                            // this identifier is v itself, which `other` holds
                            assert(x == v);
                            assert(false);
                        }
                    }
                    assert forall|j: int| 0 <= j < out@.len() implies self.ids@.take(
                        k + 1,
                    ).contains(out@[j]) by {
                        assert(out@.contains(out@[j]));
                    }
                }
            }
            k = k + 1;
        }
        proof {
            assert(self.ids@.take(self.ids@.len() as int) =~= self.ids@);
        }
        out
    }
}

} // verus!
