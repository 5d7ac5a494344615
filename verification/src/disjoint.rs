//! Whole-collection disjointness and bounds checks, and the proof wrapper
//! certifying that a collection of indices is disjoint.

use vstd::prelude::*;

use crate::overlap::{IndexDescriptor, IndexOverlap, lemma_overlap_symmetric};

verus! {

/// No two distinct elements of the collection overlap.
pub open spec fn pairwise_disjoint(s: Seq<IndexDescriptor>) -> bool {
    forall|i: int, j: int|
        0 <= i < j < s.len() ==> !(#[trigger] s[i].overlaps(#[trigger] s[j]))
}

/// Every element of the collection lies below the exclusive bound `limit`.
pub open spec fn all_in_bounds(s: Seq<IndexDescriptor>, limit: int) -> bool {
    forall|i: int| 0 <= i < s.len() ==> #[trigger] s[i].in_bounds(limit)
}

impl IndexDescriptor {
    /// Whether the denoted position set lies entirely below the exclusive
    /// bound `limit`. An unbounded shape is in bounds when its lowest
    /// position is; the suffix and full shapes take the buffer length as
    /// their upper end on extraction.
    pub open spec fn in_bounds(self, limit: int) -> bool {
        match self {
            IndexDescriptor::Point(i) => i < limit,
            IndexDescriptor::HalfOpen(s, e) => s < limit && e <= limit,
            IndexDescriptor::Closed(s, e) => s < limit && e < limit,
            IndexDescriptor::PrefixExclusive(e) => e <= limit,
            IndexDescriptor::PrefixInclusive(e) => e < limit,
            IndexDescriptor::SuffixFrom(s) => s < limit,
            IndexDescriptor::Full => true,
        }
    }
}

/// A collection of indices for one buffer, able to report whether its
/// elements are mutually disjoint and whether they all lie below a bound.
pub trait ManyIndices {
    /// What [`ManyIndices::is_disjoint`] decides.
    spec fn disjoint_spec(&self) -> bool;

    /// What [`ManyIndices::is_in_bounds`] decides.
    spec fn in_bounds_spec(&self, limit: int) -> bool;

    /// Returns `true` if all indices are disjoint, that is if no single item
    /// could be borrowed twice through them.
    fn is_disjoint(&self) -> (r: bool)
        ensures
            r == self.disjoint_spec(),
    ;

    /// Returns `true` if all indices lie below the exclusive bound `limit`.
    fn is_in_bounds(&self, limit: usize) -> (r: bool)
        ensures
            r == self.in_bounds_spec(limit as int),
    ;

    /// Returns `true` if the indices are both disjoint and in bounds,
    /// equivalent to `is_disjoint() && is_in_bounds(limit)` in one fused
    /// pass.
    fn is_disjoint_and_in_bounds(&self, limit: usize) -> (r: bool)
        ensures
            r == (self.disjoint_spec() && self.in_bounds_spec(limit as int)),
    ;
}

impl ManyIndices for IndexDescriptor {
    /// A single index is always disjoint with itself by convention.
    open spec fn disjoint_spec(&self) -> bool {
        true
    }

    open spec fn in_bounds_spec(&self, limit: int) -> bool {
        self.in_bounds(limit)
    }

    fn is_disjoint(&self) -> (r: bool) {
        true
    }

    fn is_in_bounds(&self, limit: usize) -> (r: bool) {
        match *self {
            IndexDescriptor::Point(i) => i < limit,
            IndexDescriptor::HalfOpen(s, e) => s < limit && e <= limit,
            IndexDescriptor::Closed(s, e) => s < limit && e < limit,
            IndexDescriptor::PrefixExclusive(e) => e <= limit,
            IndexDescriptor::PrefixInclusive(e) => e < limit,
            IndexDescriptor::SuffixFrom(s) => s < limit,
            IndexDescriptor::Full => true,
        }
    }

    fn is_disjoint_and_in_bounds(&self, limit: usize) -> (r: bool) {
        self.is_in_bounds(limit)
    }
}

impl ManyIndices for Vec<IndexDescriptor> {
    open spec fn disjoint_spec(&self) -> bool {
        pairwise_disjoint(self@)
    }

    open spec fn in_bounds_spec(&self, limit: int) -> bool {
        all_in_bounds(self@, limit)
    }

    fn is_disjoint(&self) -> (r: bool) {
        let n = self.len();
        let mut i: usize = 0;
        while i < n
            invariant
                n == self@.len(),
                i <= n,
                forall|x: int, y: int|
                    0 <= x < y < i ==> !(#[trigger] self@[x].overlaps(#[trigger] self@[y])),
            decreases n - i,
        {
            let mut j: usize = 0;
            while j < i
                invariant
                    n == self@.len(),
                    i < n,
                    j <= i,
                    forall|x: int, y: int|
                        0 <= x < y < i ==> !(#[trigger] self@[x].overlaps(#[trigger] self@[y])),
                    forall|y: int| 0 <= y < j ==> !(#[trigger] self@[y].overlaps(self@[i as int])),
                decreases i - j,
            {
                let found = self[i].overlap(&self[j]);
                proof {
                    lemma_overlap_symmetric(self@[i as int], self@[j as int]);
                }
                if found {
                    return false;
                }
                j += 1;
            }
            i += 1;
        }
        true
    }

    fn is_in_bounds(&self, limit: usize) -> (r: bool) {
        let n = self.len();
        let mut i: usize = 0;
        while i < n
            invariant
                n == self@.len(),
                i <= n,
                forall|x: int| 0 <= x < i ==> #[trigger] self@[x].in_bounds(limit as int),
            decreases n - i,
        {
            if !self[i].is_in_bounds(limit) {
                return false;
            }
            i += 1;
        }
        true
    }

    /// Checks each element's bounds as it is visited and compares it only
    /// against the already-checked elements before it, stopping at the first
    /// violation.
    fn is_disjoint_and_in_bounds(&self, limit: usize) -> (r: bool) {
        let n = self.len();
        let mut i: usize = 0;
        while i < n
            invariant
                n == self@.len(),
                i <= n,
                forall|x: int| 0 <= x < i ==> #[trigger] self@[x].in_bounds(limit as int),
                forall|x: int, y: int|
                    0 <= x < y < i ==> !(#[trigger] self@[x].overlaps(#[trigger] self@[y])),
            decreases n - i,
        {
            if !self[i].is_in_bounds(limit) {
                return false;
            }
            let mut j: usize = 0;
            while j < i
                invariant
                    n == self@.len(),
                    i < n,
                    j <= i,
                    forall|x: int, y: int|
                        0 <= x < y < i ==> !(#[trigger] self@[x].overlaps(#[trigger] self@[y])),
                    forall|y: int| 0 <= y < j ==> !(#[trigger] self@[y].overlaps(self@[i as int])),
                decreases i - j,
            {
                let found = self[i].overlap(&self[j]);
                proof {
                    lemma_overlap_symmetric(self@[i as int], self@[j as int]);
                }
                if found {
                    return false;
                }
                j += 1;
            }
            i += 1;
        }
        true
    }
}

/// Certifies that the wrapped indices are all disjoint.
///
/// A value of this type only exists for a collection whose indices are
/// pairwise disjoint: the verifying constructor checks, and the explicit
/// trust constructor makes the caller prove it instead.
pub struct DisjointIndices<I: ManyIndices> {
    indices: I,
}

impl<I: ManyIndices> DisjointIndices<I> {
    #[verifier::type_invariant]
    spec fn certified(self) -> bool {
        self.indices.disjoint_spec()
    }

    /// The wrapped collection.
    pub closed spec fn indices_spec(self) -> I {
        self.indices
    }

    /// Wraps `indices` without checking; the caller proves disjointness
    /// instead.
    pub fn new_unchecked(indices: I) -> (r: Self)
        requires
            indices.disjoint_spec(),
        ensures
            r.indices_spec() == indices,
    {
        Self { indices }
    }

    /// Recovers the wrapped collection, discarding the certificate.
    pub fn get(self) -> (r: I)
        ensures
            r == self.indices_spec(),
            r.disjoint_spec(),
    {
        proof {
            use_type_invariant(&self);
        }
        self.indices
    }
}

impl<I: ManyIndices> DisjointIndices<I> {
    /// Wraps `indices` after verifying disjointness, yielding nothing when
    /// the collection is not in fact disjoint.
    pub fn new(indices: I) -> (r: Option<Self>)
        ensures
            r is Some <==> indices.disjoint_spec(),
            r matches Some(p) ==> p.indices_spec() == indices,
    {
        if indices.is_disjoint() {
            Some(Self::new_unchecked(indices))
        } else {
            None
        }
    }
}

impl<I: ManyIndices> ManyIndices for DisjointIndices<I> {
    /// The certificate itself: a wrapped collection is disjoint by
    /// construction.
    open spec fn disjoint_spec(&self) -> bool {
        true
    }

    open spec fn in_bounds_spec(&self, limit: int) -> bool {
        self.indices_spec().in_bounds_spec(limit)
    }

    /// Reports `true` without recomputation.
    fn is_disjoint(&self) -> (r: bool) {
        true
    }

    fn is_in_bounds(&self, limit: usize) -> (r: bool) {
        self.indices.is_in_bounds(limit)
    }

    /// Only the bounds need checking: disjointness is certified.
    fn is_disjoint_and_in_bounds(&self, limit: usize) -> (r: bool) {
        self.indices.is_in_bounds(limit)
    }
}

} // verus!
