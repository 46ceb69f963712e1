//! Mutability classification of Rust types.
use core::ops::Add;
use vstd::prelude::*;

verus! {

/// Marker for types whose whole value may be mutated through shared access.
pub enum Interior {
    Interior,
}

/// Marker for types whose value requires exclusive access to mutate.
pub enum Exclusive {
    Exclusive,
}

/// Value-level mutability classification.
#[derive(Clone, Copy, Debug, PartialEq, Eq, Structural)]
pub enum Mutability {
    /// The whole value may be mutated through shared access.
    Interior,
    /// Mutation of the value requires exclusive access.
    Exclusive,
}

impl Mutability {
    /// Mutability of a combination: wholly interior-mutable only when every
    /// part is.
    pub open spec fn combine(self, rhs: Mutability) -> Mutability {
        if self == Mutability::Interior {
            rhs
        } else {
            Mutability::Exclusive
        }
    }

    /// Combines the mutability of two parts of a composite type.
    pub fn add(self, rhs: Mutability) -> (out: Mutability)
        ensures
            out == self.combine(rhs),
    {
        match self {
            Mutability::Interior => rhs,
            Mutability::Exclusive => Mutability::Exclusive,
        }
    }
}

/// Marker types of the mutability axis.
pub trait MutabilityKind {
    /// The mutability that this marker stands for.
    spec fn mutability(&self) -> Mutability;
}

impl MutabilityKind for Interior {
    open spec fn mutability(&self) -> Mutability {
        Mutability::Interior
    }
}

impl MutabilityKind for Exclusive {
    open spec fn mutability(&self) -> Mutability {
        Mutability::Exclusive
    }
}

/// Combining with an exclusive part is exclusive, whatever the other part is.
impl<K> Add<K> for Exclusive {
    type Output = Self;

    fn add(self, rhs: K) -> (out: Self::Output)
        ensures
            out.mutability() == Mutability::Exclusive,
    {
        self
    }
}

impl<K> vstd::std_specs::ops::AddSpecImpl<K> for Exclusive {
    open spec fn obeys_add_spec() -> bool {
        true
    }

    open spec fn add_req(self, rhs: K) -> bool {
        true
    }

    open spec fn add_spec(self, rhs: K) -> Self {
        self
    }
}

/// `Interior` is neutral: combining with it gives the other part, whatever it
/// is.
impl<K> Add<K> for Interior {
    type Output = K;

    fn add(self, rhs: K) -> (out: Self::Output)
        ensures
            out == rhs,
    {
        rhs
    }
}

impl<K> vstd::std_specs::ops::AddSpecImpl<K> for Interior {
    open spec fn obeys_add_spec() -> bool {
        true
    }

    open spec fn add_req(self, rhs: K) -> bool {
        true
    }

    open spec fn add_spec(self, rhs: K) -> K {
        rhs
    }
}

/// Combining mutabilities is commutative, associative and idempotent, has
/// `Interior` as its neutral element, and a combination is `Interior` exactly
/// when both parts are.
pub proof fn lemma_mutability_laws(a: Mutability, b: Mutability, c: Mutability)
    ensures
        a.combine(b) == b.combine(a),
        a.combine(b).combine(c) == a.combine(b.combine(c)),
        a.combine(a) == a,
        Mutability::Interior.combine(a) == a,
        Mutability::Exclusive.combine(a) == Mutability::Exclusive,
        (a.combine(b) == Mutability::Interior) <==> (a == Mutability::Interior && b == Mutability::Interior),
{
}

} // verus!
