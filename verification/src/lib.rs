//! Hand out several exclusive views into disjoint positions or sub-ranges of
//! one buffer in a single operation.
//!
//! The core is an overlap algebra over seven index shapes (a single position
//! and six range shapes), an aggregation layer that decides whether a whole
//! collection of such indices is pairwise disjoint and in bounds, a proof
//! wrapper certifying disjointness, and an extraction step that turns a
//! buffer plus a disjoint, in-bounds collection into a set of exclusive
//! views, one per index.

use vstd::prelude::*;

pub mod disjoint;
pub mod overlap;
pub mod slice_index;

use crate::disjoint::ManyIndices;
use crate::slice_index::{DisjointViews, SliceManyIndices};

verus! {

/// An extension trait to add the `get_many_mut` operations to a buffer type.
///
/// The buffer is taken by value: the returned [`DisjointViews`] holds it for
/// as long as the views are in use, and hands it back on
/// [`DisjointViews::into_inner`].
pub trait SliceExt<T, I: SliceManyIndices<T>>: Sized {
    /// The elements of the buffer.
    spec fn content(&self) -> Seq<T>;

    /// Returns exclusive views into many indices at once, or [`None`] if
    /// `indices` is not disjoint or not in bounds.
    fn get_many_mut_poc(self, indices: I) -> (r: Option<DisjointViews<T>>)
        ensures
            r is Some <==> (indices.disjoint_spec() && indices.in_bounds_spec(
                self.content().len() as int,
            )),
            r matches Some(v) ==> v.buffer() == self.content() && v.descriptors()
                == indices.descriptor_seq(),
    ;

    /// Returns exclusive views into many indices at once, without running the
    /// disjointness check again.
    ///
    /// The caller discharges the precondition instead: `indices` must already
    /// be known safe for a buffer of this length, either because the full
    /// check ran elsewhere or because the indices are disjoint by
    /// construction.
    fn get_many_mut_unchecked_poc(self, indices: I) -> (r: DisjointViews<T>)
        requires
            indices.extraction_safe(self.content().len() as int),
        ensures
            r.buffer() == self.content(),
            r.descriptors() == indices.descriptor_seq(),
    ;
}

impl<T, I: SliceManyIndices<T>> SliceExt<T, I> for Vec<T> {
    open spec fn content(&self) -> Seq<T> {
        self@
    }

    fn get_many_mut_poc(self, indices: I) -> (r: Option<DisjointViews<T>>) {
        if !indices.is_disjoint_and_in_bounds(self.len()) {
            return None;
        }
        proof {
            indices.lemma_checked_implies_safe(self@.len() as int);
        }
        Some(indices.get_many_unchecked_mut(self))
    }

    fn get_many_mut_unchecked_poc(self, indices: I) -> (r: DisjointViews<T>) {
        indices.get_many_unchecked_mut(self)
    }
}

} // verus!
