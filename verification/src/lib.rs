//! Classification of Rust types according to Rust-specified type properties.
//!
//! A type is described along the axes of [`RustSpec`]: representation stability
//! (`layout`), trap robustness (`trap`), size shape (`size`), alignment, niche
//! availability (`niche`), whole-value mutability through shared access
//! (`mutability`), and the robustness reachable through supported pointers
//! (`indirect_trap`).
//!
//! Every axis exists twice: as zero-sized marker types that can be combined
//! with `+` at the type level, and as a value-level enum whose combination is
//! the specification that the marker arithmetic is checked against.
use vstd::prelude::*;

pub mod alignment;
pub mod classes;
pub mod core_impls;
pub mod derive;
pub mod laws;
pub mod layout;
pub mod mutability;
pub mod niche;
pub mod pointers;
pub mod primitives;
pub mod repr;
pub mod size;
pub mod tuple;

pub use alignment::Max;
pub use size::{Gt, One, Zero};

verus! {

/// Marker for a compiler-guaranteed representation or niche.
pub enum Stable {
    Stable,
}

/// Marker for a representation or niche that is not compiler-guaranteed.
pub enum Unstable {
    Unstable,
}

/// Value-level representation (or niche) stability.
#[derive(Clone, Copy, Debug, PartialEq, Eq, Structural)]
pub enum Stability {
    /// The compiler guarantees the representation.
    Stable,
    /// The representation is not guaranteed.
    Unstable,
}

impl Stability {
    /// Combined stability of two parts: stable only when both parts are.
    pub open spec fn combine(self, rhs: Stability) -> Stability {
        if self == Stability::Stable && rhs == Stability::Stable {
            Stability::Stable
        } else {
            Stability::Unstable
        }
    }

    /// Combines the stability of two parts of a composite type.
    pub fn add(self, rhs: Stability) -> (out: Stability)
        ensures
            out == self.combine(rhs),
    {
        match (self, rhs) {
            (Stability::Stable, Stability::Stable) => Stability::Stable,
            _ => Stability::Unstable,
        }
    }
}

/// Value-level ABI alignment category.
#[derive(Clone, Copy, Debug, PartialEq, Eq, Structural)]
pub enum Alignment {
    /// Alignment of exactly one byte.
    One,
    /// Alignment greater than one byte.
    GtOne,
}

impl Alignment {
    /// The larger of two alignment categories.
    pub open spec fn combine(self, rhs: Alignment) -> Alignment {
        if self == Alignment::GtOne || rhs == Alignment::GtOne {
            Alignment::GtOne
        } else {
            Alignment::One
        }
    }

    /// Maximum of two alignments, as used for aggregates and enum tags.
    pub fn max(self, rhs: Alignment) -> (out: Alignment)
        ensures
            out == self.combine(rhs),
    {
        match (self, rhs) {
            (Alignment::One, Alignment::One) => Alignment::One,
            _ => Alignment::GtOne,
        }
    }
}

/// Alignment of `usize` (and of every pointer) on the supported targets.
pub open spec fn pointer_alignment() -> Alignment {
    Alignment::GtOne
}

/// Joined classification of a type along every axis.
#[derive(Clone, Copy, Debug, PartialEq, Eq, Structural)]
pub struct RustSpec {
    /// Representation stability.
    pub layout: Stability,
    /// Whether the value representation has trap values.
    pub trap: layout::Trap,
    /// Statically known, metadata-sized or extern-type-like size.
    pub size: size::Size,
    /// ABI alignment category.
    pub alignment: Alignment,
    /// Niche availability.
    pub niche: niche::Niche,
    /// Mutability of the whole value through shared access.
    pub mutability: mutability::Mutability,
    /// Trap classification reachable through supported pointer indirections.
    pub indirect_trap: layout::Trap,
}

/// Whether every classification has a stable representation.
pub open spec fn all_stable(env: Seq<RustSpec>) -> bool {
    forall|i: int| 0 <= i < env.len() ==> #[trigger] env[i].layout == Stability::Stable
}

/// Whether no classification has trap values.
pub open spec fn all_robust(env: Seq<RustSpec>) -> bool {
    forall|i: int| 0 <= i < env.len() ==> #[trigger] env[i].trap == layout::Trap::Robust
}

/// Whether no classification reaches trap values through a supported pointer.
pub open spec fn all_indirectly_robust(env: Seq<RustSpec>) -> bool {
    forall|i: int| 0 <= i < env.len() ==> #[trigger] env[i].indirect_trap == layout::Trap::Robust
}

/// Whether some classification is aligned to more than one byte.
pub open spec fn any_over_aligned(env: Seq<RustSpec>) -> bool {
    exists|i: int| 0 <= i < env.len() && #[trigger] env[i].alignment == Alignment::GtOne
}

/// Whether every classification is wholly interior-mutable.
pub open spec fn all_interior(env: Seq<RustSpec>) -> bool {
    forall|i: int| 0 <= i < env.len() ==> #[trigger] env[i].mutability == mutability::Mutability::Interior
}

/// Whether every classification is statically sized.
pub open spec fn all_sized(env: Seq<RustSpec>) -> bool {
    forall|i: int| 0 <= i < env.len() ==> #[trigger] env[i].size.is_sized()
}

/// Whether some classification is non-zero-sized.
pub open spec fn any_non_zero_sized(env: Seq<RustSpec>) -> bool {
    exists|i: int| 0 <= i < env.len() && #[trigger] env[i].size == size::Size::Sized(size::Sizedness::NonZero)
}

/// Whether no classification has a niche.
pub open spec fn none_with_niche(env: Seq<RustSpec>) -> bool {
    forall|i: int| 0 <= i < env.len() ==> #[trigger] env[i].niche == niche::Niche::WithoutNiche
}

/// How the sequence predicates above extend by one more classification.
pub proof fn lemma_push_predicates(prev: Seq<RustSpec>, x: RustSpec)
    ensures
        all_stable(prev.push(x)) == (all_stable(prev) && x.layout == Stability::Stable),
        all_robust(prev.push(x)) == (all_robust(prev) && x.trap == layout::Trap::Robust),
        all_indirectly_robust(prev.push(x)) == (all_indirectly_robust(prev) && x.indirect_trap == layout::Trap::Robust),
        any_over_aligned(prev.push(x)) == (any_over_aligned(prev) || x.alignment == Alignment::GtOne),
        all_interior(prev.push(x)) == (all_interior(prev) && x.mutability == mutability::Mutability::Interior),
        all_sized(prev.push(x)) == (all_sized(prev) && x.size.is_sized()),
        any_non_zero_sized(prev.push(x)) == (any_non_zero_sized(prev) || x.size == size::Size::Sized(size::Sizedness::NonZero)),
        none_with_niche(prev.push(x)) == (none_with_niche(prev) && x.niche == niche::Niche::WithoutNiche),
{
    let next = prev.push(x);
    assert forall|k: int| 0 <= k < prev.len() implies #[trigger] next[k] == prev[k] by {};
    assert(next[prev.len() as int] == x);
    if all_stable(next) {
        assert forall|k: int| 0 <= k < prev.len() implies #[trigger] prev[k].layout == Stability::Stable by {
            assert(next[k].layout == Stability::Stable);
        };
    }
    if all_robust(next) {
        assert forall|k: int| 0 <= k < prev.len() implies #[trigger] prev[k].trap == layout::Trap::Robust by {
            assert(next[k].trap == layout::Trap::Robust);
        };
    }
    if all_indirectly_robust(next) {
        assert forall|k: int| 0 <= k < prev.len() implies #[trigger] prev[k].indirect_trap == layout::Trap::Robust by {
            assert(next[k].indirect_trap == layout::Trap::Robust);
        };
    }
    if all_interior(next) {
        assert forall|k: int| 0 <= k < prev.len() implies #[trigger] prev[k].mutability == mutability::Mutability::Interior by {
            assert(next[k].mutability == mutability::Mutability::Interior);
        };
    }
    if all_sized(next) {
        assert forall|k: int| 0 <= k < prev.len() implies #[trigger] prev[k].size.is_sized() by {
            assert(next[k].size.is_sized());
        };
    }
    if none_with_niche(next) {
        assert forall|k: int| 0 <= k < prev.len() implies #[trigger] prev[k].niche == niche::Niche::WithoutNiche by {
            assert(next[k].niche == niche::Niche::WithoutNiche);
        };
    }
    if any_over_aligned(prev) {
        let w = choose|i: int| 0 <= i < prev.len() && #[trigger] prev[i].alignment == Alignment::GtOne;
        assert(next[w] == prev[w]);
    }
    if any_over_aligned(next) {
        let w = choose|i: int| 0 <= i < next.len() && #[trigger] next[i].alignment == Alignment::GtOne;
        if w < prev.len() {
            assert(next[w] == prev[w]);
        }
    }
    if any_non_zero_sized(prev) {
        let w = choose|i: int| 0 <= i < prev.len() && #[trigger] prev[i].size == size::Size::Sized(size::Sizedness::NonZero);
        assert(next[w] == prev[w]);
    }
    if any_non_zero_sized(next) {
        let w = choose|i: int| 0 <= i < next.len() && #[trigger] next[i].size == size::Size::Sized(size::Sizedness::NonZero);
        if w < prev.len() {
            assert(next[w] == prev[w]);
        }
    }
}

} // verus!
