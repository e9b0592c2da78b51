//! The ordering capability that the generic sorter is parameterized over.

use vstd::prelude::*;

verus! {

/// Outcome of a three-way comparison between two values.
#[derive(Clone, Copy, Debug, PartialEq, Eq, Structural)]
pub enum Comparison {
    Less,
    Equal,
    Greater,
    /// The two values are not related by the ordering (partial orders only).
    Incomparable,
}

/// Whether a comparison outcome counts as "equal or less".
///
/// This is the tie-break rule of the sorter: only a strictly greater
/// left-hand side triggers a swap; equal-or-less never does.
pub open spec fn is_le(c: Comparison) -> bool {
    c == Comparison::Less || c == Comparison::Equal
}

/// The ordering capability: a three-way comparison together with the
/// mathematical relation (`cmp_spec`) that the executable comparison
/// (`compare`) is obliged to decide.
///
/// The two proof obligations pin down what any implementation must satisfy:
/// swapping the operands mirrors the outcome, and equal-or-less chains are
/// transitive.  An implementation over a partial order reports unrelated
/// values as [`Comparison::Incomparable`].
pub trait ThreeWayCompare: Sized {
    /// The mathematical comparison this type's ordering denotes.
    spec fn cmp_spec(a: Self, b: Self) -> Comparison;

    /// Swapping the operands mirrors the outcome.
    proof fn lemma_flip(a: Self, b: Self)
        ensures
            (Self::cmp_spec(a, b) == Comparison::Less) == (Self::cmp_spec(b, a)
                == Comparison::Greater),
            (Self::cmp_spec(a, b) == Comparison::Equal) == (Self::cmp_spec(b, a)
                == Comparison::Equal),
    ;

    /// Equal-or-less outcomes chain: the ordering is transitive.
    proof fn lemma_transitive(a: Self, b: Self, c: Self)
        requires
            is_le(Self::cmp_spec(a, b)),
            is_le(Self::cmp_spec(b, c)),
        ensures
            is_le(Self::cmp_spec(a, c)),
    ;

    /// Executable comparison; it must decide `cmp_spec`.
    fn compare(&self, other: &Self) -> (c: Comparison)
        ensures
            c == Self::cmp_spec(*self, *other),
    ;
}

/// `a` is equal to or comes before `b` under `T`'s ordering.
pub open spec fn le<T: ThreeWayCompare>(a: T, b: T) -> bool {
    is_le(T::cmp_spec(a, b))
}

/// Ties are transitive through a common pivot: two elements that each
/// compare `Equal` to `x` compare `Equal` to one another.
pub proof fn lemma_tied_pair<T: ThreeWayCompare>(a: T, b: T, x: T)
    requires
        T::cmp_spec(a, x) == Comparison::Equal,
        T::cmp_spec(b, x) == Comparison::Equal,
    ensures
        T::cmp_spec(a, b) == Comparison::Equal,
{
    T::lemma_flip(a, x);
    T::lemma_flip(b, x);
    T::lemma_transitive(a, x, b);
    T::lemma_transitive(b, x, a);
    T::lemma_flip(a, b);
}

impl ThreeWayCompare for u64 {
    open spec fn cmp_spec(a: u64, b: u64) -> Comparison {
        if a < b {
            Comparison::Less
        } else if a == b {
            Comparison::Equal
        } else {
            Comparison::Greater
        }
    }

    proof fn lemma_flip(a: u64, b: u64) {
    }

    proof fn lemma_transitive(a: u64, b: u64, c: u64) {
    }

    fn compare(&self, other: &Self) -> (c: Comparison) {
        if *self < *other {
            Comparison::Less
        } else if *self == *other {
            Comparison::Equal
        } else {
            Comparison::Greater
        }
    }
}

impl ThreeWayCompare for i32 {
    open spec fn cmp_spec(a: i32, b: i32) -> Comparison {
        if a < b {
            Comparison::Less
        } else if a == b {
            Comparison::Equal
        } else {
            Comparison::Greater
        }
    }

    proof fn lemma_flip(a: i32, b: i32) {
    }

    proof fn lemma_transitive(a: i32, b: i32, c: i32) {
    }

    fn compare(&self, other: &Self) -> (c: Comparison) {
        if *self < *other {
            Comparison::Less
        } else if *self == *other {
            Comparison::Equal
        } else {
            Comparison::Greater
        }
    }
}

/// Absent values are unrelated to present ones: a partial order, under which
/// a sort may fail with `IncomparableElements`.
impl ThreeWayCompare for Option<u64> {
    open spec fn cmp_spec(a: Option<u64>, b: Option<u64>) -> Comparison {
        match (a, b) {
            (Some(x), Some(y)) => <u64 as ThreeWayCompare>::cmp_spec(x, y),
            (None, None) => Comparison::Equal,
            _ => Comparison::Incomparable,
        }
    }

    proof fn lemma_flip(a: Option<u64>, b: Option<u64>) {
    }

    proof fn lemma_transitive(a: Option<u64>, b: Option<u64>, c: Option<u64>) {
    }

    fn compare(&self, other: &Self) -> (c: Comparison) {
        match (self, other) {
            (Some(x), Some(y)) => x.compare(y),
            (None, None) => Comparison::Equal,
            _ => Comparison::Incomparable,
        }
    }
}

/// A rank paired with a label, ordered by rank alone: distinct labels of
/// equal rank tie, which makes this the natural type for observing that the
/// sorter never reorders tied elements.
#[derive(Clone, Copy, Debug, PartialEq, Eq, Structural)]
pub struct Labeled {
    pub rank: u64,
    pub label: char,
}

impl ThreeWayCompare for Labeled {
    open spec fn cmp_spec(a: Labeled, b: Labeled) -> Comparison {
        <u64 as ThreeWayCompare>::cmp_spec(a.rank, b.rank)
    }

    proof fn lemma_flip(a: Labeled, b: Labeled) {
    }

    proof fn lemma_transitive(a: Labeled, b: Labeled, c: Labeled) {
    }

    fn compare(&self, other: &Self) -> (c: Comparison) {
        self.rank.compare(&other.rank)
    }
}

} // verus!
