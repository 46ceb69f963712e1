//! Niche availability classification: whether `Option<T>` can reuse an
//! invalid bit pattern of `T` as its `None` value.
use core::ops::Add;
use vstd::prelude::*;

use crate::{Stability, Stable, Unstable};

verus! {

/// Closed family of niche-stability classifications.
pub trait NicheStabilityKind {
    /// The niche stability that this marker stands for.
    spec fn niche_stability(&self) -> Stability;
}

/// Marker for a type that has no trap representations and therefore no niche value.
pub enum WithoutNiche {
    WithoutNiche,
}

/// Marker for a type that has a niche value.
pub struct WithNiche<K: NicheStabilityKind>(pub K);

impl NicheStabilityKind for Stable {
    open spec fn niche_stability(&self) -> Stability {
        Stability::Stable
    }
}

impl NicheStabilityKind for Unstable {
    open spec fn niche_stability(&self) -> Stability {
        Stability::Unstable
    }
}

/// Value-level niche classification.
#[derive(Clone, Copy, Debug, PartialEq, Eq, Structural)]
pub enum Niche {
    /// No niche is available.
    WithoutNiche,
    /// A niche is available; `Stable` when the compiler guarantees it.
    WithNiche(Stability),
}

impl Niche {
    /// Niche of a combination of two parts: no niche only when neither part
    /// has one; otherwise an unguaranteed niche.
    pub open spec fn combine(self, rhs: Niche) -> Niche {
        if self == Niche::WithoutNiche && rhs == Niche::WithoutNiche {
            Niche::WithoutNiche
        } else {
            Niche::WithNiche(Stability::Unstable)
        }
    }

    /// Combines the niches of two parts of a composite type.
    pub fn add(self, rhs: Niche) -> (out: Niche)
        ensures
            out == self.combine(rhs),
    {
        match (self, rhs) {
            (Niche::WithoutNiche, Niche::WithoutNiche) => Niche::WithoutNiche,
            _ => Niche::WithNiche(Stability::Unstable),
        }
    }
}

/// Marker types of the niche axis.
pub trait NicheKind {
    /// The niche classification that this marker stands for.
    spec fn niche(&self) -> Niche;
}

impl NicheKind for WithoutNiche {
    open spec fn niche(&self) -> Niche {
        Niche::WithoutNiche
    }
}

impl<K: NicheStabilityKind> NicheKind for WithNiche<K> {
    open spec fn niche(&self) -> Niche {
        Niche::WithNiche(self.0.niche_stability())
    }
}

impl Add for WithoutNiche {
    type Output = Self;

    fn add(self, rhs: Self) -> (out: Self::Output)
        ensures
            out.niche() == self.niche().combine(rhs.niche()),
    {
        self
    }
}

impl vstd::std_specs::ops::AddSpecImpl for WithoutNiche {
    open spec fn obeys_add_spec() -> bool {
        true
    }

    open spec fn add_req(self, rhs: Self) -> bool {
        true
    }

    open spec fn add_spec(self, rhs: Self) -> Self {
        self
    }
}

impl<K: NicheStabilityKind> Add<WithNiche<K>> for WithoutNiche {
    type Output = WithNiche<Unstable>;

    fn add(self, rhs: WithNiche<K>) -> (out: Self::Output)
        ensures
            out.niche() == self.niche().combine(rhs.niche()),
    {
        WithNiche(Unstable::Unstable)
    }
}

impl<K: NicheStabilityKind> vstd::std_specs::ops::AddSpecImpl<WithNiche<K>> for WithoutNiche {
    open spec fn obeys_add_spec() -> bool {
        true
    }

    open spec fn add_req(self, rhs: WithNiche<K>) -> bool {
        true
    }

    open spec fn add_spec(self, rhs: WithNiche<K>) -> WithNiche<Unstable> {
        WithNiche(Unstable::Unstable)
    }
}

impl<K: NicheStabilityKind> Add<WithoutNiche> for WithNiche<K> {
    type Output = WithNiche<Unstable>;

    fn add(self, rhs: WithoutNiche) -> (out: Self::Output)
        ensures
            out.niche() == self.niche().combine(rhs.niche()),
    {
        WithNiche(Unstable::Unstable)
    }
}

impl<K: NicheStabilityKind> vstd::std_specs::ops::AddSpecImpl<WithoutNiche> for WithNiche<K> {
    open spec fn obeys_add_spec() -> bool {
        true
    }

    open spec fn add_req(self, rhs: WithoutNiche) -> bool {
        true
    }

    open spec fn add_spec(self, rhs: WithoutNiche) -> WithNiche<Unstable> {
        WithNiche(Unstable::Unstable)
    }
}

impl<K: NicheStabilityKind, U: NicheStabilityKind> Add<WithNiche<U>> for WithNiche<K> {
    type Output = WithNiche<Unstable>;

    fn add(self, rhs: WithNiche<U>) -> (out: Self::Output)
        ensures
            out.niche() == self.niche().combine(rhs.niche()),
    {
        WithNiche(Unstable::Unstable)
    }
}

impl<K: NicheStabilityKind, U: NicheStabilityKind> vstd::std_specs::ops::AddSpecImpl<WithNiche<U>> for WithNiche<K> {
    open spec fn obeys_add_spec() -> bool {
        true
    }

    open spec fn add_req(self, rhs: WithNiche<U>) -> bool {
        true
    }

    open spec fn add_spec(self, rhs: WithNiche<U>) -> WithNiche<Unstable> {
        WithNiche(Unstable::Unstable)
    }
}

/// Combining niches is commutative and associative; a combination has no
/// niche exactly when neither part has one, and otherwise its niche is never
/// guaranteed.
pub proof fn lemma_niche_laws(a: Niche, b: Niche, c: Niche)
    ensures
        a.combine(b) == b.combine(a),
        a.combine(b).combine(c) == a.combine(b.combine(c)),
        (a.combine(b) == Niche::WithoutNiche) <==> (a == Niche::WithoutNiche && b == Niche::WithoutNiche),
        a.combine(b) != Niche::WithNiche(Stability::Stable),
{
}

} // verus!
