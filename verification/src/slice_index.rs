//! Extraction of exclusive views: turning a buffer plus a disjoint,
//! in-bounds index collection into one exclusive sub-view per index.
//!
//! Several live `&mut` borrows into one buffer cannot be expressed here, so
//! the view collection owns the buffer for as long as the views are in use:
//! [`DisjointViews`] takes the buffer, addresses each view through its
//! descriptor, and hands the buffer back on [`DisjointViews::into_inner`].
//! Disjointness is what makes the split sound, and it is proved, not
//! assumed: writing through one view leaves every other view untouched.

use vstd::prelude::*;

use crate::disjoint::{
    all_in_bounds, pairwise_disjoint, DisjointIndices, ManyIndices,
};
use crate::overlap::{lemma_overlap_complete, IndexDescriptor};

verus! {

/// The first buffer position a descriptor addresses.
pub open spec fn window_start(d: IndexDescriptor) -> int {
    match d {
        IndexDescriptor::Point(i) => i as int,
        IndexDescriptor::HalfOpen(s, _) => s as int,
        IndexDescriptor::Closed(s, _) => s as int,
        IndexDescriptor::PrefixExclusive(_) => 0,
        IndexDescriptor::PrefixInclusive(_) => 0,
        IndexDescriptor::SuffixFrom(s) => s as int,
        IndexDescriptor::Full => 0,
    }
}

/// One past the last buffer position a descriptor addresses, in a buffer of
/// length `len`.
pub open spec fn window_end(d: IndexDescriptor, len: int) -> int {
    match d {
        IndexDescriptor::Point(i) => i + 1,
        IndexDescriptor::HalfOpen(_, e) => e as int,
        IndexDescriptor::Closed(_, e) => e + 1,
        IndexDescriptor::PrefixExclusive(e) => e as int,
        IndexDescriptor::PrefixInclusive(e) => e + 1,
        IndexDescriptor::SuffixFrom(_) => len,
        IndexDescriptor::Full => len,
    }
}

/// In bounds, the window `[window_start, window_end)` addresses exactly the
/// descriptor's positions that a buffer of length `len` holds. A range whose
/// lower bound exceeds its upper bound has an empty window.
pub proof fn lemma_window_matches_contains(d: IndexDescriptor, len: int, p: int)
    requires
        d.in_bounds(len),
    ensures
        (window_start(d) <= p < window_end(d, len)) <==> (d.contains(p) && 0 <= p < len),
{
}

/// A collection of exclusive views into disjoint parts of one buffer.
///
/// View `k` is the sub-window of the buffer that descriptor `k` addresses;
/// [`DisjointViews::read`] and [`DisjointViews::write`] access it by an
/// offset relative to the window's start. The type only exists for a
/// pairwise-disjoint, in-bounds descriptor collection.
pub struct DisjointViews<T> {
    buf: Vec<T>,
    idx: Vec<IndexDescriptor>,
}

impl<T> DisjointViews<T> {
    #[verifier::type_invariant]
    spec fn extraction_invariant(self) -> bool {
        pairwise_disjoint(self.idx@) && all_in_bounds(self.idx@, self.buf@.len() as int)
    }

    /// The whole underlying buffer.
    pub closed spec fn buffer(self) -> Seq<T> {
        self.buf@
    }

    /// The descriptors the views were extracted for, in extraction order.
    pub closed spec fn descriptors(self) -> Seq<IndexDescriptor> {
        self.idx@
    }

    /// The buffer position view `k`'s offset `0` addresses.
    pub open spec fn start_of(self, k: int) -> int {
        window_start(self.descriptors()[k])
    }

    /// One past the last buffer position view `k` addresses.
    pub open spec fn end_of(self, k: int) -> int {
        window_end(self.descriptors()[k], self.buffer().len() as int)
    }

    /// The elements view `k` addresses, in buffer order.
    pub open spec fn view_seq(self, k: int) -> Seq<T> {
        if self.end_of(k) <= self.start_of(k) {
            Seq::empty()
        } else {
            self.buffer().subrange(self.start_of(k), self.end_of(k))
        }
    }

    /// Assembles the views; private because soundness rests on the
    /// invariant, which the extraction entry points establish.
    fn assemble(buf: Vec<T>, idx: Vec<IndexDescriptor>) -> (r: Self)
        requires
            pairwise_disjoint(idx@),
            all_in_bounds(idx@, buf@.len() as int),
        ensures
            r.buffer() == buf@,
            r.descriptors() == idx@,
    {
        DisjointViews { buf, idx }
    }

    /// The number of views, one per descriptor.
    pub fn view_count(&self) -> (r: usize)
        ensures
            r == self.descriptors().len(),
    {
        self.idx.len()
    }

    /// The descriptor view `k` was extracted for.
    pub fn descriptor(&self, k: usize) -> (r: IndexDescriptor)
        requires
            k < self.descriptors().len(),
        ensures
            r == self.descriptors()[k as int],
    {
        self.idx[k]
    }

    /// The number of elements view `k` addresses.
    pub fn view_len(&self, k: usize) -> (r: usize)
        requires
            k < self.descriptors().len(),
        ensures
            r == self.view_seq(k as int).len(),
    {
        let n = self.buf.len();
        proof {
            use_type_invariant(&*self);
            assert(self.idx@[k as int].in_bounds(n as int));
        }
        match self.idx[k] {
            IndexDescriptor::Point(_) => 1,
            IndexDescriptor::HalfOpen(s, e) => if s <= e {
                e - s
            } else {
                0
            },
            IndexDescriptor::Closed(s, e) => if s <= e {
                e + 1 - s
            } else {
                0
            },
            IndexDescriptor::PrefixExclusive(e) => e,
            IndexDescriptor::PrefixInclusive(e) => e + 1,
            IndexDescriptor::SuffixFrom(s) => n - s,
            IndexDescriptor::Full => n,
        }
    }

    /// Reads the element at `offset` within view `k`.
    pub fn read(&self, k: usize, offset: usize) -> (r: &T)
        requires
            k < self.descriptors().len(),
            offset < self.view_seq(k as int).len(),
        ensures
            *r == self.view_seq(k as int)[offset as int],
    {
        let n = self.buf.len();
        proof {
            use_type_invariant(&*self);
            assert(self.idx@[k as int].in_bounds(n as int));
        }
        let base = match self.idx[k] {
            IndexDescriptor::Point(i) => i,
            IndexDescriptor::HalfOpen(s, _) => s,
            IndexDescriptor::Closed(s, _) => s,
            IndexDescriptor::PrefixExclusive(_) => 0,
            IndexDescriptor::PrefixInclusive(_) => 0,
            IndexDescriptor::SuffixFrom(s) => s,
            IndexDescriptor::Full => 0,
        };
        &self.buf[base + offset]
    }

    /// Writes `value` at `offset` within view `k`.
    ///
    /// Exactly the one buffer position behind that offset changes, and every
    /// other view reads as before: disjointness makes the views exclusive.
    pub fn write(&mut self, k: usize, offset: usize, value: T)
        requires
            k < old(self).descriptors().len(),
            offset < old(self).view_seq(k as int).len(),
        ensures
            final(self).descriptors() == old(self).descriptors(),
            final(self).buffer() == old(self).buffer().update(
                old(self).start_of(k as int) + offset,
                value,
            ),
            final(self).view_seq(k as int) == old(self).view_seq(k as int).update(
                offset as int,
                value,
            ),
            forall|j: int|
                0 <= j < old(self).descriptors().len() && j != k ==> final(self).view_seq(j)
                    == old(self).view_seq(j),
    {
        let n = self.buf.len();
        proof {
            use_type_invariant(&*self);
            assert(self.idx@[k as int].in_bounds(n as int));
        }
        let ghost pre = *self;
        let base = match self.idx[k] {
            IndexDescriptor::Point(i) => i,
            IndexDescriptor::HalfOpen(s, _) => s,
            IndexDescriptor::Closed(s, _) => s,
            IndexDescriptor::PrefixExclusive(_) => 0,
            IndexDescriptor::PrefixInclusive(_) => 0,
            IndexDescriptor::SuffixFrom(s) => s,
            IndexDescriptor::Full => 0,
        };
        let pos = base + offset;
        self.buf[pos] = value;
        proof {
            let ki = k as int;
            let d = pre.descriptors()[ki];
            assert(d.contains(pos as int) && 0 <= pos < pre.buffer().len()) by {
                lemma_window_matches_contains(d, pre.buffer().len() as int, pos as int);
            }
            assert(self.view_seq(ki) =~= pre.view_seq(ki).update(offset as int, value));
            assert forall|j: int|
                0 <= j < pre.descriptors().len() && j != ki implies self.view_seq(j)
                == pre.view_seq(j) by {
                let dj = pre.descriptors()[j];
                assert(dj.in_bounds(pre.buffer().len() as int));
                assert(!dj.contains(pos as int)) by {
                    if dj.contains(pos as int) {
                        lemma_overlap_complete(d, dj, pos as int);
                        if ki < j {
                            assert(pre.idx@[ki].overlaps(pre.idx@[j]));
                        } else {
                            crate::overlap::lemma_overlap_symmetric(d, dj);
                            assert(pre.idx@[j].overlaps(pre.idx@[ki]));
                        }
                    }
                }
                assert(!(window_start(dj) <= pos < window_end(dj, pre.buffer().len() as int)))
                    by {
                    lemma_window_matches_contains(dj, pre.buffer().len() as int, pos as int);
                }
                assert(self.view_seq(j) =~= pre.view_seq(j));
            }
        }
    }

    /// Hands the buffer back, with every write made through the views
    /// applied, and drops the views.
    pub fn into_inner(self) -> (r: Vec<T>)
        ensures
            r@ == self.buffer(),
    {
        self.buf
    }
}

impl<T: Copy> DisjointViews<T> {
    /// Copies view `k` out as a vector, in buffer order.
    pub fn view_to_vec(&self, k: usize) -> (r: Vec<T>)
        requires
            k < self.descriptors().len(),
        ensures
            r@ == self.view_seq(k as int),
    {
        let n = self.view_len(k);
        let mut out: Vec<T> = Vec::new();
        let mut i: usize = 0;
        while i < n
            invariant
                n == self.view_seq(k as int).len(),
                k < self.descriptors().len(),
                i <= n,
                out@ == self.view_seq(k as int).subrange(0, i as int),
            decreases n - i,
        {
            out.push(*self.read(k, i));
            proof {
                assert(out@ =~= self.view_seq(k as int).subrange(0, i + 1));
            }
            i += 1;
        }
        proof {
            assert(out@ =~= self.view_seq(k as int));
        }
        out
    }
}

/// An index collection that can be turned into exclusive views of a buffer
/// of `T`.
pub trait SliceManyIndices<T>: ManyIndices {
    /// The collection's elements as a sequence of descriptors, in output
    /// order.
    spec fn descriptor_seq(&self) -> Seq<IndexDescriptor>;

    /// The precondition of [`SliceManyIndices::get_many_unchecked_mut`] for
    /// a buffer of length `len`: what the caller still has to establish. A
    /// certified collection only owes the bounds; a bare one owes
    /// disjointness too.
    spec fn extraction_safe(&self, len: int) -> bool;

    /// Passing the full check is always enough to extract.
    proof fn lemma_checked_implies_safe(&self, len: int)
        requires
            self.disjoint_spec(),
            self.in_bounds_spec(len),
        ensures
            self.extraction_safe(len),
    ;

    /// Returns exclusive views into the buffer, one per index, without
    /// running any check here: the caller proves `extraction_safe` instead.
    fn get_many_unchecked_mut(self, buf: Vec<T>) -> (r: DisjointViews<T>)
        requires
            self.extraction_safe(buf@.len() as int),
        ensures
            r.buffer() == buf@,
            r.descriptors() == self.descriptor_seq(),
    ;
}

impl<T> SliceManyIndices<T> for Vec<IndexDescriptor> {
    open spec fn descriptor_seq(&self) -> Seq<IndexDescriptor> {
        self@
    }

    open spec fn extraction_safe(&self, len: int) -> bool {
        pairwise_disjoint(self@) && all_in_bounds(self@, len)
    }

    proof fn lemma_checked_implies_safe(&self, len: int) {
    }

    fn get_many_unchecked_mut(self, buf: Vec<T>) -> (r: DisjointViews<T>) {
        DisjointViews::assemble(buf, self)
    }
}

impl<T> SliceManyIndices<T> for IndexDescriptor {
    open spec fn descriptor_seq(&self) -> Seq<IndexDescriptor> {
        seq![*self]
    }

    open spec fn extraction_safe(&self, len: int) -> bool {
        self.in_bounds(len)
    }

    proof fn lemma_checked_implies_safe(&self, len: int) {
    }

    fn get_many_unchecked_mut(self, buf: Vec<T>) -> (r: DisjointViews<T>) {
        let mut idx: Vec<IndexDescriptor> = Vec::new();
        idx.push(self);
        proof {
            assert(idx@ =~= seq![self]);
        }
        DisjointViews::assemble(buf, idx)
    }
}

impl<T, I: SliceManyIndices<T>> SliceManyIndices<T> for DisjointIndices<I> {
    open spec fn descriptor_seq(&self) -> Seq<IndexDescriptor> {
        self.indices_spec().descriptor_seq()
    }

    /// Only the bounds are owed: the wrapper certifies disjointness.
    open spec fn extraction_safe(&self, len: int) -> bool {
        self.indices_spec().in_bounds_spec(len)
    }

    proof fn lemma_checked_implies_safe(&self, len: int) {
    }

    fn get_many_unchecked_mut(self, buf: Vec<T>) -> (r: DisjointViews<T>) {
        let indices = self.get();
        proof {
            indices.lemma_checked_implies_safe(buf@.len() as int);
        }
        indices.get_many_unchecked_mut(buf)
    }
}

} // verus!
