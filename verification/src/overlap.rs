//! The index descriptor shapes and the pairwise overlap algebra.
//!
//! An [`IndexDescriptor`] denotes a set of buffer positions. Two descriptors
//! overlap when their position sets intersect; [`IndexDescriptor::overlaps`]
//! states that as a closed-form comparison for each of the 49 shape pairs,
//! and the lemmas below relate the closed forms to the position sets.

use vstd::prelude::*;

verus! {

/// A set of positions within a zero-based buffer, in one of seven shapes.
///
/// A descriptor whose lower bound exceeds its upper bound denotes the empty
/// set, but the overlap algebra keeps the literal closed-form comparisons for
/// such values rather than special-casing them; see
/// [`IndexDescriptor::overlaps`].
#[derive(Clone, Copy, Debug, PartialEq, Eq, Structural)]
pub enum IndexDescriptor {
    /// The single position `i`: the set `{i}`.
    Point(usize),
    /// The half-open range `[s, e)`.
    HalfOpen(usize, usize),
    /// The closed range `[s, e]`.
    Closed(usize, usize),
    /// The prefix `[0, e)`; empty when `e == 0`.
    PrefixExclusive(usize),
    /// The prefix `[0, e]`; never empty.
    PrefixInclusive(usize),
    /// The unbounded suffix `[s, oo)`.
    SuffixFrom(usize),
    /// Every position: `[0, oo)`.
    Full,
}

impl IndexDescriptor {
    /// The position set a descriptor denotes, as a membership predicate.
    pub open spec fn contains(self, pos: int) -> bool {
        match self {
            IndexDescriptor::Point(i) => pos == i,
            IndexDescriptor::HalfOpen(s, e) => s <= pos < e,
            IndexDescriptor::Closed(s, e) => s <= pos <= e,
            IndexDescriptor::PrefixExclusive(e) => 0 <= pos < e,
            IndexDescriptor::PrefixInclusive(e) => 0 <= pos <= e,
            IndexDescriptor::SuffixFrom(s) => s <= pos,
            IndexDescriptor::Full => 0 <= pos,
        }
    }

    /// Whether the denoted position set is non-empty, shape by shape.
    /// [`lemma_nonempty_iff_some_position`] shows this matches
    /// [`IndexDescriptor::contains`].
    pub open spec fn is_nonempty(self) -> bool {
        match self {
            IndexDescriptor::Point(_) => true,
            IndexDescriptor::HalfOpen(s, e) => s < e,
            IndexDescriptor::Closed(s, e) => s <= e,
            IndexDescriptor::PrefixExclusive(e) => e > 0,
            IndexDescriptor::PrefixInclusive(_) => true,
            IndexDescriptor::SuffixFrom(_) => true,
            IndexDescriptor::Full => true,
        }
    }

    /// The closed-form overlap relation, one comparison per ordered shape
    /// pair.
    ///
    /// For descriptors denoting non-empty sets this decides exactly whether
    /// the two position sets intersect ([`lemma_overlap_sound`],
    /// [`lemma_overlap_complete`]). `Full` overlaps everything, including an
    /// empty `PrefixExclusive(0)`; a range whose lower bound exceeds its
    /// upper bound gets the literal comparison, which may report an overlap
    /// for an empty set.
    pub open spec fn overlaps(self, other: Self) -> bool {
        match (self, other) {
            (IndexDescriptor::Full, _) => true,
            (_, IndexDescriptor::Full) => true,
            (IndexDescriptor::Point(i), IndexDescriptor::Point(j)) => i == j,
            (IndexDescriptor::Point(i), IndexDescriptor::HalfOpen(s, e)) => s <= i < e,
            (IndexDescriptor::Point(i), IndexDescriptor::Closed(s, e)) => s <= i <= e,
            (IndexDescriptor::Point(i), IndexDescriptor::PrefixExclusive(e)) => i < e,
            (IndexDescriptor::Point(i), IndexDescriptor::PrefixInclusive(e)) => i <= e,
            (IndexDescriptor::Point(i), IndexDescriptor::SuffixFrom(s)) => s <= i,
            (IndexDescriptor::HalfOpen(s, e), IndexDescriptor::Point(j)) => s <= j < e,
            (IndexDescriptor::HalfOpen(s1, e1), IndexDescriptor::HalfOpen(s2, e2)) => (s1 <= s2
                && s2 < e1) || (s2 <= s1 && s1 < e2),
            (IndexDescriptor::HalfOpen(s1, e1), IndexDescriptor::Closed(s2, e2)) => (s1 <= s2 && s2
                < e1) || (s2 <= s1 && s1 <= e2),
            (IndexDescriptor::HalfOpen(s1, _), IndexDescriptor::PrefixExclusive(e2)) => s1 < e2,
            (IndexDescriptor::HalfOpen(s1, _), IndexDescriptor::PrefixInclusive(e2)) => s1 <= e2,
            (IndexDescriptor::HalfOpen(_, e1), IndexDescriptor::SuffixFrom(s2)) => s2 < e1,
            (IndexDescriptor::Closed(s1, e1), IndexDescriptor::Point(j)) => s1 <= j <= e1,
            (IndexDescriptor::Closed(s1, e1), IndexDescriptor::HalfOpen(s2, e2)) => (s2 <= s1 && s1
                < e2) || (s1 <= s2 && s2 <= e1),
            (IndexDescriptor::Closed(s1, e1), IndexDescriptor::Closed(s2, e2)) => (s1 <= s2 && s2
                <= e1) || (s2 <= s1 && s1 <= e2),
            (IndexDescriptor::Closed(s1, _), IndexDescriptor::PrefixExclusive(e2)) => s1 < e2,
            (IndexDescriptor::Closed(s1, _), IndexDescriptor::PrefixInclusive(e2)) => s1 <= e2,
            (IndexDescriptor::Closed(_, e1), IndexDescriptor::SuffixFrom(s2)) => s2 <= e1,
            (IndexDescriptor::PrefixExclusive(e1), IndexDescriptor::Point(j)) => j < e1,
            (IndexDescriptor::PrefixExclusive(e1), IndexDescriptor::HalfOpen(s2, _)) => s2 < e1,
            (IndexDescriptor::PrefixExclusive(e1), IndexDescriptor::Closed(s2, _)) => s2 < e1,
            (IndexDescriptor::PrefixExclusive(e1), IndexDescriptor::PrefixExclusive(e2)) => e1 != 0
                && e2 != 0,
            (IndexDescriptor::PrefixExclusive(e1), IndexDescriptor::PrefixInclusive(_)) => e1 != 0,
            (IndexDescriptor::PrefixExclusive(e1), IndexDescriptor::SuffixFrom(s2)) => s2 < e1,
            (IndexDescriptor::PrefixInclusive(e1), IndexDescriptor::Point(j)) => j <= e1,
            (IndexDescriptor::PrefixInclusive(e1), IndexDescriptor::HalfOpen(s2, _)) => s2 <= e1,
            (IndexDescriptor::PrefixInclusive(e1), IndexDescriptor::Closed(s2, _)) => s2 <= e1,
            (IndexDescriptor::PrefixInclusive(_), IndexDescriptor::PrefixExclusive(e2)) => e2 != 0,
            (IndexDescriptor::PrefixInclusive(_), IndexDescriptor::PrefixInclusive(_)) => true,
            (IndexDescriptor::PrefixInclusive(e1), IndexDescriptor::SuffixFrom(s2)) => s2 <= e1,
            (IndexDescriptor::SuffixFrom(s1), IndexDescriptor::Point(j)) => s1 <= j,
            (IndexDescriptor::SuffixFrom(s1), IndexDescriptor::HalfOpen(_, e2)) => s1 < e2,
            (IndexDescriptor::SuffixFrom(s1), IndexDescriptor::Closed(_, e2)) => s1 <= e2,
            (IndexDescriptor::SuffixFrom(s1), IndexDescriptor::PrefixExclusive(e2)) => s1 < e2,
            (IndexDescriptor::SuffixFrom(s1), IndexDescriptor::PrefixInclusive(e2)) => s1 <= e2,
            (IndexDescriptor::SuffixFrom(_), IndexDescriptor::SuffixFrom(_)) => true,
        }
    }
}

/// The overlap check: whether two indices may address the same buffer
/// position.
pub trait IndexOverlap {
    /// What [`IndexOverlap::overlap`] decides.
    spec fn overlap_spec(&self, other: &Self) -> bool;

    /// Returns `true` if `self` and `other` overlap, that is if they may
    /// address the same item of a buffer.
    fn overlap(&self, other: &Self) -> (r: bool)
        ensures
            r == self.overlap_spec(other),
    ;
}

impl IndexOverlap for IndexDescriptor {
    open spec fn overlap_spec(&self, other: &Self) -> bool {
        self.overlaps(*other)
    }

    fn overlap(&self, other: &Self) -> (r: bool) {
        match *self {
            IndexDescriptor::Point(i) => point_overlap(i, other),
            IndexDescriptor::HalfOpen(s, e) => half_open_overlap(s, e, other),
            IndexDescriptor::Closed(s, e) => closed_overlap(s, e, other),
            IndexDescriptor::PrefixExclusive(e) => prefix_exclusive_overlap(e, other),
            IndexDescriptor::PrefixInclusive(e) => prefix_inclusive_overlap(e, other),
            IndexDescriptor::SuffixFrom(s) => suffix_from_overlap(s, other),
            IndexDescriptor::Full => true,
        }
    }
}

fn point_overlap(i: usize, other: &IndexDescriptor) -> (r: bool)
    ensures
        r == IndexDescriptor::Point(i).overlaps(*other),
{
    match *other {
        IndexDescriptor::Point(j) => i == j,
        IndexDescriptor::HalfOpen(s, e) => s <= i && i < e,
        IndexDescriptor::Closed(s, e) => s <= i && i <= e,
        IndexDescriptor::PrefixExclusive(e) => i < e,
        IndexDescriptor::PrefixInclusive(e) => i <= e,
        IndexDescriptor::SuffixFrom(s) => s <= i,
        IndexDescriptor::Full => true,
    }
}

fn half_open_overlap(s1: usize, e1: usize, other: &IndexDescriptor) -> (r: bool)
    ensures
        r == IndexDescriptor::HalfOpen(s1, e1).overlaps(*other),
{
    match *other {
        IndexDescriptor::Point(j) => s1 <= j && j < e1,
        IndexDescriptor::HalfOpen(s2, e2) => (s1 <= s2 && s2 < e1) || (s2 <= s1 && s1 < e2),
        IndexDescriptor::Closed(s2, e2) => (s1 <= s2 && s2 < e1) || (s2 <= s1 && s1 <= e2),
        IndexDescriptor::PrefixExclusive(e2) => s1 < e2,
        IndexDescriptor::PrefixInclusive(e2) => s1 <= e2,
        IndexDescriptor::SuffixFrom(s2) => s2 < e1,
        IndexDescriptor::Full => true,
    }
}

fn closed_overlap(s1: usize, e1: usize, other: &IndexDescriptor) -> (r: bool)
    ensures
        r == IndexDescriptor::Closed(s1, e1).overlaps(*other),
{
    match *other {
        IndexDescriptor::Point(j) => s1 <= j && j <= e1,
        IndexDescriptor::HalfOpen(s2, e2) => (s2 <= s1 && s1 < e2) || (s1 <= s2 && s2 <= e1),
        IndexDescriptor::Closed(s2, e2) => (s1 <= s2 && s2 <= e1) || (s2 <= s1 && s1 <= e2),
        IndexDescriptor::PrefixExclusive(e2) => s1 < e2,
        IndexDescriptor::PrefixInclusive(e2) => s1 <= e2,
        IndexDescriptor::SuffixFrom(s2) => s2 <= e1,
        IndexDescriptor::Full => true,
    }
}

fn prefix_exclusive_overlap(e1: usize, other: &IndexDescriptor) -> (r: bool)
    ensures
        r == IndexDescriptor::PrefixExclusive(e1).overlaps(*other),
{
    match *other {
        IndexDescriptor::Point(j) => j < e1,
        IndexDescriptor::HalfOpen(s2, _) => s2 < e1,
        IndexDescriptor::Closed(s2, _) => s2 < e1,
        IndexDescriptor::PrefixExclusive(e2) => e1 != 0 && e2 != 0,
        IndexDescriptor::PrefixInclusive(_) => e1 != 0,
        IndexDescriptor::SuffixFrom(s2) => s2 < e1,
        IndexDescriptor::Full => true,
    }
}

fn prefix_inclusive_overlap(e1: usize, other: &IndexDescriptor) -> (r: bool)
    ensures
        r == IndexDescriptor::PrefixInclusive(e1).overlaps(*other),
{
    match *other {
        IndexDescriptor::Point(j) => j <= e1,
        IndexDescriptor::HalfOpen(s2, _) => s2 <= e1,
        IndexDescriptor::Closed(s2, _) => s2 <= e1,
        IndexDescriptor::PrefixExclusive(e2) => e2 != 0,
        IndexDescriptor::PrefixInclusive(_) => true,
        IndexDescriptor::SuffixFrom(s2) => s2 <= e1,
        IndexDescriptor::Full => true,
    }
}

fn suffix_from_overlap(s1: usize, other: &IndexDescriptor) -> (r: bool)
    ensures
        r == IndexDescriptor::SuffixFrom(s1).overlaps(*other),
{
    match *other {
        IndexDescriptor::Point(j) => s1 <= j,
        IndexDescriptor::HalfOpen(_, e2) => s1 < e2,
        IndexDescriptor::Closed(_, e2) => s1 <= e2,
        IndexDescriptor::PrefixExclusive(e2) => s1 < e2,
        IndexDescriptor::PrefixInclusive(e2) => s1 <= e2,
        IndexDescriptor::SuffixFrom(_) => true,
        IndexDescriptor::Full => true,
    }
}

/// A descriptor denotes a non-empty set exactly when some position lies in
/// it.
pub proof fn lemma_nonempty_iff_some_position(a: IndexDescriptor)
    ensures
        a.is_nonempty() <==> exists|p: int| a.contains(p),
{
    if a.is_nonempty() {
        let w: int = match a {
            IndexDescriptor::Point(i) => i as int,
            IndexDescriptor::HalfOpen(s, _) => s as int,
            IndexDescriptor::Closed(s, _) => s as int,
            IndexDescriptor::PrefixExclusive(_) => 0,
            IndexDescriptor::PrefixInclusive(_) => 0,
            IndexDescriptor::SuffixFrom(s) => s as int,
            IndexDescriptor::Full => 0,
        };
        assert(a.contains(w));
    }
}

/// The overlap relation is symmetric: for every descriptor pair, well-formed
/// or not, `a.overlaps(b) == b.overlaps(a)`.
pub proof fn lemma_overlap_symmetric(a: IndexDescriptor, b: IndexDescriptor)
    ensures
        a.overlaps(b) == b.overlaps(a),
{
}

/// A descriptor overlaps itself exactly when it denotes a non-empty set; in
/// particular `PrefixExclusive(0)` does not overlap itself.
pub proof fn lemma_self_overlap(a: IndexDescriptor)
    ensures
        a.overlaps(a) == a.is_nonempty(),
{
}

/// The empty prefix `PrefixExclusive(0)` overlaps nothing, with the one
/// exception of `Full`, which overlaps everything and has no empty form.
pub proof fn lemma_empty_prefix_overlaps_nothing(b: IndexDescriptor)
    ensures
        IndexDescriptor::PrefixExclusive(0).overlaps(b) == (b is Full),
{
}

/// Completeness: descriptors sharing a position overlap. This holds for
/// every descriptor pair, including malformed ranges, whose position sets
/// are empty.
pub proof fn lemma_overlap_complete(a: IndexDescriptor, b: IndexDescriptor, p: int)
    requires
        a.contains(p),
        b.contains(p),
    ensures
        a.overlaps(b),
{
}

/// Soundness on non-empty sets: when two descriptors that each denote a
/// non-empty set overlap, they share a position.
///
/// The restriction to non-empty sets is necessary: `Full` overlaps an empty
/// `PrefixExclusive(0)`, and a non-degenerate range reports an overlap with
/// an empty `HalfOpen(s, s)` lying inside it.
pub proof fn lemma_overlap_sound(a: IndexDescriptor, b: IndexDescriptor)
    requires
        a.overlaps(b),
        a.is_nonempty(),
        b.is_nonempty(),
    ensures
        exists|p: int| a.contains(p) && b.contains(p),
{
    lemma_nonempty_iff_some_position(a);
    lemma_nonempty_iff_some_position(b);
    match (a, b) {
        (IndexDescriptor::Full, _) => {
            let p = choose|p: int| b.contains(p);
            assert(a.contains(p) && b.contains(p));
        },
        (_, IndexDescriptor::Full) => {
            let p = choose|p: int| a.contains(p);
            assert(a.contains(p) && b.contains(p));
        },
        (IndexDescriptor::Point(i), _) => {
            assert(a.contains(i as int) && b.contains(i as int));
        },
        (_, IndexDescriptor::Point(j)) => {
            assert(a.contains(j as int) && b.contains(j as int));
        },
        (IndexDescriptor::PrefixExclusive(_), IndexDescriptor::PrefixExclusive(_)) => {
            assert(a.contains(0) && b.contains(0));
        },
        (IndexDescriptor::PrefixExclusive(_), IndexDescriptor::PrefixInclusive(_)) => {
            assert(a.contains(0) && b.contains(0));
        },
        (IndexDescriptor::PrefixInclusive(_), IndexDescriptor::PrefixExclusive(_)) => {
            assert(a.contains(0) && b.contains(0));
        },
        (IndexDescriptor::PrefixInclusive(_), IndexDescriptor::PrefixInclusive(_)) => {
            assert(a.contains(0) && b.contains(0));
        },
        _ => {
            // Every remaining pair has a lower bound on each side (taking 0
            // for the prefixes); the larger of the two lower bounds is a
            // shared position.
            let sa: int = match a {
                IndexDescriptor::HalfOpen(s, _) => s as int,
                IndexDescriptor::Closed(s, _) => s as int,
                IndexDescriptor::SuffixFrom(s) => s as int,
                _ => 0,
            };
            let sb: int = match b {
                IndexDescriptor::HalfOpen(s, _) => s as int,
                IndexDescriptor::Closed(s, _) => s as int,
                IndexDescriptor::SuffixFrom(s) => s as int,
                _ => 0,
            };
            let p: int = if sa <= sb {
                sb
            } else {
                sa
            };
            assert(a.contains(p) && b.contains(p));
        },
    }
}

} // verus!
