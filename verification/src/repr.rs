//! Joined representation classification: stability together with robustness,
//! as in `Stable<Robust>` or `Unstable<NonRobust>`.
use core::ops::Add;
use vstd::prelude::*;

use crate::layout::Trap;
use crate::Stability;

verus! {

/// Marker for a type that doesn't have a guaranteed representation and requires explicit conversion.
pub struct Unstable<K>(pub K);

/// Marker for a type that is transmuted to another type and thus delegates its conversion.
pub struct Stable<K>(pub K);

/// Marker for a robust type that does not require conversion.
pub enum Robust {
    Robust,
}

/// Marker for a non-robust type that is still transmuted by the ABI layer.
pub enum NonRobust {
    NonRobust,
}

/// Marker types of the robustness half of a representation.
pub trait Robustness {
    /// The trap classification that this marker stands for.
    spec fn trap(&self) -> Trap;
}

impl Robustness for Robust {
    open spec fn trap(&self) -> Trap {
        Trap::Robust
    }
}

impl Robustness for NonRobust {
    open spec fn trap(&self) -> Trap {
        Trap::NonRobust
    }
}

/// Value-level joined representation classification.
#[derive(Clone, Copy, Debug, PartialEq, Eq, Structural)]
pub struct Representation {
    /// Whether the representation is guaranteed.
    pub stability: Stability,
    /// Whether the representation has trap values.
    pub trap: Trap,
}

impl Representation {
    /// Representation of a composite of two parts: stable only when both
    /// parts are, robust only when both parts are.
    pub open spec fn combine(self, rhs: Representation) -> Representation {
        Representation {
            stability: self.stability.combine(rhs.stability),
            trap: self.trap.combine(rhs.trap),
        }
    }

    /// Combines the representations of two parts of a composite type.
    pub fn add(self, rhs: Representation) -> (out: Representation)
        ensures
            out == self.combine(rhs),
    {
        Representation { stability: self.stability.add(rhs.stability), trap: self.trap.add(rhs.trap) }
    }
}

/// Marker types of representations.
pub trait ReprKind {
    /// The joined representation that this marker stands for.
    spec fn representation(&self) -> Representation;
}

impl<K: Robustness> ReprKind for Stable<K> {
    open spec fn representation(&self) -> Representation {
        Representation { stability: Stability::Stable, trap: self.0.trap() }
    }
}

impl<K: Robustness> ReprKind for Unstable<K> {
    open spec fn representation(&self) -> Representation {
        Representation { stability: Stability::Unstable, trap: self.0.trap() }
    }
}

impl Add for Robust {
    type Output = Self;

    fn add(self, rhs: Self) -> (out: Self::Output)
        ensures
            out.trap() == self.trap().combine(rhs.trap()),
    {
        self
    }
}

impl vstd::std_specs::ops::AddSpecImpl for Robust {
    open spec fn obeys_add_spec() -> bool {
        true
    }

    open spec fn add_req(self, rhs: Self) -> bool {
        true
    }

    open spec fn add_spec(self, rhs: Self) -> Self {
        self
    }
}

impl Add for NonRobust {
    type Output = Self;

    fn add(self, rhs: Self) -> (out: Self::Output)
        ensures
            out.trap() == self.trap().combine(rhs.trap()),
    {
        self
    }
}

impl vstd::std_specs::ops::AddSpecImpl for NonRobust {
    open spec fn obeys_add_spec() -> bool {
        true
    }

    open spec fn add_req(self, rhs: Self) -> bool {
        true
    }

    open spec fn add_spec(self, rhs: Self) -> Self {
        self
    }
}

impl Add<NonRobust> for Robust {
    type Output = NonRobust;

    fn add(self, rhs: NonRobust) -> (out: Self::Output)
        ensures
            out.trap() == self.trap().combine(rhs.trap()),
    {
        rhs
    }
}

impl vstd::std_specs::ops::AddSpecImpl<NonRobust> for Robust {
    open spec fn obeys_add_spec() -> bool {
        true
    }

    open spec fn add_req(self, rhs: NonRobust) -> bool {
        true
    }

    open spec fn add_spec(self, rhs: NonRobust) -> NonRobust {
        rhs
    }
}

impl Add<Robust> for NonRobust {
    type Output = Self;

    fn add(self, rhs: Robust) -> (out: Self::Output)
        ensures
            out.trap() == self.trap().combine(rhs.trap()),
    {
        self
    }
}

impl vstd::std_specs::ops::AddSpecImpl<Robust> for NonRobust {
    open spec fn obeys_add_spec() -> bool {
        true
    }

    open spec fn add_req(self, rhs: Robust) -> bool {
        true
    }

    open spec fn add_spec(self, rhs: Robust) -> Self {
        self
    }
}

/// Joined representations combine half by half: the result is stable only when
/// both parts are, and its robustness is the sum of the parts' robustness.
impl<K: Add<U>, U> Add<Unstable<U>> for Stable<K> {
    type Output = Unstable<<K as Add<U>>::Output>;

    fn add(self, rhs: Unstable<U>) -> (out: Self::Output) {
        Unstable(self.0.add(rhs.0))
    }
}

impl<K: Add<U>, U> vstd::std_specs::ops::AddSpecImpl<Unstable<U>> for Stable<K> {
    open spec fn obeys_add_spec() -> bool {
        <K as vstd::std_specs::ops::AddSpec<U>>::obeys_add_spec()
    }

    open spec fn add_req(self, rhs: Unstable<U>) -> bool {
        <K as vstd::std_specs::ops::AddSpec<U>>::add_req(self.0, rhs.0)
    }

    open spec fn add_spec(self, rhs: Unstable<U>) -> Self::Output {
        Unstable(<K as vstd::std_specs::ops::AddSpec<U>>::add_spec(self.0, rhs.0))
    }
}

impl<K: Add<U>, U> Add<Stable<U>> for Unstable<K> {
    type Output = Unstable<<K as Add<U>>::Output>;

    fn add(self, rhs: Stable<U>) -> (out: Self::Output) {
        Unstable(self.0.add(rhs.0))
    }
}

impl<K: Add<U>, U> vstd::std_specs::ops::AddSpecImpl<Stable<U>> for Unstable<K> {
    open spec fn obeys_add_spec() -> bool {
        <K as vstd::std_specs::ops::AddSpec<U>>::obeys_add_spec()
    }

    open spec fn add_req(self, rhs: Stable<U>) -> bool {
        <K as vstd::std_specs::ops::AddSpec<U>>::add_req(self.0, rhs.0)
    }

    open spec fn add_spec(self, rhs: Stable<U>) -> Self::Output {
        Unstable(<K as vstd::std_specs::ops::AddSpec<U>>::add_spec(self.0, rhs.0))
    }
}

impl<K: Add<U>, U> Add<Unstable<U>> for Unstable<K> {
    type Output = Unstable<<K as Add<U>>::Output>;

    fn add(self, rhs: Unstable<U>) -> (out: Self::Output) {
        Unstable(self.0.add(rhs.0))
    }
}

impl<K: Add<U>, U> vstd::std_specs::ops::AddSpecImpl<Unstable<U>> for Unstable<K> {
    open spec fn obeys_add_spec() -> bool {
        <K as vstd::std_specs::ops::AddSpec<U>>::obeys_add_spec()
    }

    open spec fn add_req(self, rhs: Unstable<U>) -> bool {
        <K as vstd::std_specs::ops::AddSpec<U>>::add_req(self.0, rhs.0)
    }

    open spec fn add_spec(self, rhs: Unstable<U>) -> Self::Output {
        Unstable(<K as vstd::std_specs::ops::AddSpec<U>>::add_spec(self.0, rhs.0))
    }
}

impl<K: Add<U>, U> Add<Stable<U>> for Stable<K> {
    type Output = Stable<<K as Add<U>>::Output>;

    fn add(self, rhs: Stable<U>) -> (out: Self::Output) {
        Stable(self.0.add(rhs.0))
    }
}

impl<K: Add<U>, U> vstd::std_specs::ops::AddSpecImpl<Stable<U>> for Stable<K> {
    open spec fn obeys_add_spec() -> bool {
        <K as vstd::std_specs::ops::AddSpec<U>>::obeys_add_spec()
    }

    open spec fn add_req(self, rhs: Stable<U>) -> bool {
        <K as vstd::std_specs::ops::AddSpec<U>>::add_req(self.0, rhs.0)
    }

    open spec fn add_spec(self, rhs: Stable<U>) -> Self::Output {
        Stable(<K as vstd::std_specs::ops::AddSpec<U>>::add_spec(self.0, rhs.0))
    }
}

/// Combining representations is commutative, associative and idempotent,
/// with `Stable<Robust>` as its neutral element.
pub proof fn lemma_representation_laws(a: Representation, b: Representation, c: Representation)
    ensures
        a.combine(b) == b.combine(a),
        a.combine(b).combine(c) == a.combine(b.combine(c)),
        a.combine(a) == a,
        (Representation { stability: Stability::Stable, trap: Trap::Robust }).combine(a) == a,
{
}

} // verus!
