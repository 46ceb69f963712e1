//! Type-level alignment categories: [`One`] byte, or more than one
//! ([`Gt<One>`]), combined with [`Max`].
use vstd::prelude::*;

use crate::size::{Gt, One, Zero};
use crate::Alignment;

verus! {

/// Marker types of the alignment axis.
pub trait AlignmentKind {
    /// The alignment category that this marker stands for.
    spec fn alignment(&self) -> Alignment;
}

impl AlignmentKind for Gt<Zero> {
    open spec fn alignment(&self) -> Alignment {
        Alignment::One
    }
}

impl AlignmentKind for Gt<Gt<Zero>> {
    open spec fn alignment(&self) -> Alignment {
        Alignment::GtOne
    }
}

/// Type-level maximum of two alignments. A fixed alignment on the left has a
/// maximum with every right operand, so combining with it needs no
/// where-predicate.
pub trait Max<Rhs> {
    type Output;

    fn max(self, rhs: Rhs) -> Self::Output;
}

/// One byte is the smallest alignment: the maximum is the other operand.
impl<K> Max<K> for One {
    type Output = K;

    fn max(self, rhs: K) -> (out: K)
        ensures
            out == rhs,
    {
        rhs
    }
}

/// More than one byte stays more than one byte, whatever the other operand.
impl<K> Max<K> for Gt<One> {
    type Output = Self;

    fn max(self, rhs: K) -> (out: Self)
        ensures
            out.alignment() == Alignment::GtOne,
    {
        self
    }
}

/// Taking the larger alignment is commutative, associative and idempotent,
/// with one byte as its neutral element and more than one byte absorbing.
pub proof fn lemma_alignment_laws(a: Alignment, b: Alignment, c: Alignment)
    ensures
        a.combine(b) == b.combine(a),
        a.combine(b).combine(c) == a.combine(b.combine(c)),
        a.combine(a) == a,
        Alignment::One.combine(a) == a,
        Alignment::GtOne.combine(a) == Alignment::GtOne,
{
}

} // verus!
