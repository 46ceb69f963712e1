//! Representation stability and trap/robustness classification.
//!
//! Stability describes whether Rust guarantees the representation shape.
//! Robustness describes whether the represented value space has trap values
//! that require validity care.
use core::ops::Add;
use vstd::prelude::*;

use crate::{Stability, Stable, Unstable};

verus! {

/// Closed family of representation-stability classifications.
pub trait LayoutKind {
    /// The stability that this marker stands for.
    spec fn stability(&self) -> Stability;
}

/// Marker for a robust type that does not require validity conversion.
pub enum Robust {
    Robust,
}

/// Marker for a non-robust type that is still transmuted by the ABI layer.
pub enum NonRobust {
    NonRobust,
}

/// Value-level trap classification.
#[derive(Clone, Copy, Debug, PartialEq, Eq, Structural)]
pub enum Trap {
    /// Every bit pattern is a valid value.
    Robust,
    /// Some bit patterns are trap (invalid) values.
    NonRobust,
}

impl Trap {
    /// Combined robustness of two parts: robust only when both parts are.
    pub open spec fn combine(self, rhs: Trap) -> Trap {
        if self == Trap::Robust && rhs == Trap::Robust {
            Trap::Robust
        } else {
            Trap::NonRobust
        }
    }

    /// Combines the robustness of two parts of a composite type.
    pub fn add(self, rhs: Trap) -> (out: Trap)
        ensures
            out == self.combine(rhs),
    {
        match (self, rhs) {
            (Trap::Robust, Trap::Robust) => Trap::Robust,
            _ => Trap::NonRobust,
        }
    }
}

/// Marker types of the trap axis.
pub trait TrapKind {
    /// The trap classification that this marker stands for.
    spec fn trap(&self) -> Trap;
}

impl TrapKind for Robust {
    open spec fn trap(&self) -> Trap {
        Trap::Robust
    }
}

impl TrapKind for NonRobust {
    open spec fn trap(&self) -> Trap {
        Trap::NonRobust
    }
}

impl LayoutKind for Stable {
    open spec fn stability(&self) -> Stability {
        Stability::Stable
    }
}

impl LayoutKind for Unstable {
    open spec fn stability(&self) -> Stability {
        Stability::Unstable
    }
}

/// Any combination containing `NonRobust` is `NonRobust`, whatever the other
/// part is.
impl<K> Add<K> for NonRobust {
    type Output = Self;

    fn add(self, rhs: K) -> (out: Self::Output)
        ensures
            out.trap() == Trap::NonRobust,
    {
        NonRobust::NonRobust
    }
}

impl<K> vstd::std_specs::ops::AddSpecImpl<K> for NonRobust {
    open spec fn obeys_add_spec() -> bool {
        true
    }

    open spec fn add_req(self, rhs: K) -> bool {
        true
    }

    open spec fn add_spec(self, rhs: K) -> Self {
        NonRobust::NonRobust
    }
}

impl Add<NonRobust> for Robust {
    type Output = NonRobust;

    fn add(self, rhs: NonRobust) -> (out: Self::Output)
        ensures
            out.trap() == self.trap().combine(rhs.trap()),
    {
        rhs
    }
}

impl vstd::std_specs::ops::AddSpecImpl<NonRobust> for Robust {
    open spec fn obeys_add_spec() -> bool {
        true
    }

    open spec fn add_req(self, rhs: NonRobust) -> bool {
        true
    }

    open spec fn add_spec(self, rhs: NonRobust) -> NonRobust {
        rhs
    }
}

impl Add for Robust {
    type Output = Self;

    fn add(self, rhs: Self) -> (out: Self::Output)
        ensures
            out.trap() == self.trap().combine(rhs.trap()),
    {
        self
    }
}

impl vstd::std_specs::ops::AddSpecImpl for Robust {
    open spec fn obeys_add_spec() -> bool {
        true
    }

    open spec fn add_req(self, rhs: Self) -> bool {
        true
    }

    open spec fn add_spec(self, rhs: Self) -> Self {
        self
    }
}

/// Any combination containing `Unstable` is `Unstable`, whatever the other
/// part is.
impl<K> Add<K> for Unstable {
    type Output = Self;

    fn add(self, rhs: K) -> (out: Self::Output)
        ensures
            out.stability() == Stability::Unstable,
    {
        self
    }
}

impl<K> vstd::std_specs::ops::AddSpecImpl<K> for Unstable {
    open spec fn obeys_add_spec() -> bool {
        true
    }

    open spec fn add_req(self, rhs: K) -> bool {
        true
    }

    open spec fn add_spec(self, rhs: K) -> Self {
        self
    }
}

impl Add<Unstable> for Stable {
    type Output = Unstable;

    fn add(self, rhs: Unstable) -> (out: Self::Output)
        ensures
            out.stability() == self.stability().combine(rhs.stability()),
    {
        rhs
    }
}

impl vstd::std_specs::ops::AddSpecImpl<Unstable> for Stable {
    open spec fn obeys_add_spec() -> bool {
        true
    }

    open spec fn add_req(self, rhs: Unstable) -> bool {
        true
    }

    open spec fn add_spec(self, rhs: Unstable) -> Unstable {
        rhs
    }
}

impl Add for Stable {
    type Output = Self;

    fn add(self, rhs: Self) -> (out: Self::Output)
        ensures
            out.stability() == self.stability().combine(rhs.stability()),
    {
        self
    }
}

impl vstd::std_specs::ops::AddSpecImpl for Stable {
    open spec fn obeys_add_spec() -> bool {
        true
    }

    open spec fn add_req(self, rhs: Self) -> bool {
        true
    }

    open spec fn add_spec(self, rhs: Self) -> Self {
        self
    }
}

/// Combining stabilities is commutative, associative and idempotent, has
/// `Stable` as its neutral element, and any combination containing `Unstable`
/// is `Unstable`.
pub proof fn lemma_stability_laws(a: Stability, b: Stability, c: Stability)
    ensures
        a.combine(b) == b.combine(a),
        a.combine(b).combine(c) == a.combine(b.combine(c)),
        a.combine(a) == a,
        Stability::Stable.combine(a) == a,
        Stability::Unstable.combine(a) == Stability::Unstable,
        (a.combine(b) == Stability::Stable) <==> (a == Stability::Stable && b == Stability::Stable),
{
}

/// Combining trap classifications is commutative, associative and idempotent,
/// has `Robust` as its neutral element, and any combination containing
/// `NonRobust` is `NonRobust`.
pub proof fn lemma_trap_laws(a: Trap, b: Trap, c: Trap)
    ensures
        a.combine(b) == b.combine(a),
        a.combine(b).combine(c) == a.combine(b.combine(c)),
        a.combine(a) == a,
        Trap::Robust.combine(a) == a,
        Trap::NonRobust.combine(a) == Trap::NonRobust,
        (a.combine(b) == Trap::Robust) <==> (a == Trap::Robust && b == Trap::Robust),
{
}

} // verus!
