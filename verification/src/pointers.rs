//! Classification of references, boxes, `Option` and `Result`.
use vstd::prelude::*;

use crate::layout::Trap;
use crate::mutability::Mutability;
use crate::niche::Niche;
use crate::size::{Size, Sizedness};
use crate::{pointer_alignment, RustSpec, Stability};

verus! {

/// Classification of `&R` and `&mut R`. Thin references follow the
/// referent's layout stability and have a guaranteed (null) niche; references
/// to metadata-sized referents are unstable and their niche is not
/// guaranteed. A reference itself has invalid values, and it reaches the
/// referent's trap values.
pub open spec fn spec_reference(referent: RustSpec) -> RustSpec {
    RustSpec {
        layout: if referent.size.is_thin() {
            referent.layout
        } else {
            Stability::Unstable
        },
        trap: Trap::NonRobust,
        size: Size::Sized(Sizedness::NonZero),
        alignment: pointer_alignment(),
        niche: Niche::WithNiche(
            if referent.size.is_thin() {
                Stability::Stable
            } else {
                Stability::Unstable
            },
        ),
        mutability: referent.mutability,
        indirect_trap: referent.trap,
    }
}

/// Classifies `&R` (and, identically, `&mut R`) from the classification of `R`.
pub fn reference(referent: RustSpec) -> (spec: RustSpec)
    ensures
        spec == spec_reference(referent),
{
    let thin = match referent.size {
        Size::MetaSized(_) => false,
        _ => true,
    };
    RustSpec {
        layout: if thin {
            referent.layout
        } else {
            Stability::Unstable
        },
        trap: Trap::NonRobust,
        size: Size::Sized(Sizedness::NonZero),
        alignment: crate::Alignment::GtOne,
        niche: Niche::WithNiche(
            if thin {
                Stability::Stable
            } else {
                Stability::Unstable
            },
        ),
        mutability: referent.mutability,
        indirect_trap: referent.trap,
    }
}

/// Classification of `Box<R>`: like a reference for sized and metadata-sized
/// contents, except that a box of metadata-sized contents is never wholly
/// interior-mutable; boxes of extern types are not classified.
pub open spec fn spec_boxed(content: RustSpec) -> Option<RustSpec> {
    match content.size {
        Size::ExternTypeLike => None,
        Size::Sized(_) => Some(spec_reference(content)),
        Size::MetaSized(_) => Some(
            RustSpec { mutability: Mutability::Exclusive, ..spec_reference(content) },
        ),
    }
}

/// Classifies `Box<R>` from the classification of `R`.
pub fn boxed(content: RustSpec) -> (spec: Option<RustSpec>)
    ensures
        spec == spec_boxed(content),
{
    match content.size {
        Size::ExternTypeLike => None,
        Size::Sized(_) => Some(reference(content)),
        Size::MetaSized(_) => {
            let r = reference(content);
            Some(RustSpec { mutability: Mutability::Exclusive, ..r })
        },
    }
}

/// Classification of a two-variant wrapper that needs its own tag: unstable,
/// with invalid tag values and an unguaranteed niche.
pub open spec fn tagged_wrapper(alignment: crate::Alignment, indirect_trap: Trap) -> RustSpec {
    RustSpec {
        layout: Stability::Unstable,
        trap: Trap::NonRobust,
        size: Size::Sized(Sizedness::NonZero),
        alignment,
        niche: Niche::WithNiche(Stability::Unstable),
        mutability: Mutability::Exclusive,
        indirect_trap,
    }
}

/// Classification of a wrapper that stores the empty variant in the payload's
/// guaranteed niche, so that its representation is the payload's: it keeps
/// the payload's layout and mutability, has exactly the trap values that the
/// payload reaches through its pointers, and has no niche left.
pub open spec fn niche_wrapper(payload: RustSpec) -> RustSpec {
    RustSpec {
        layout: payload.layout,
        trap: payload.indirect_trap,
        size: Size::Sized(Sizedness::NonZero),
        alignment: payload.alignment,
        niche: Niche::WithoutNiche,
        mutability: payload.mutability,
        indirect_trap: payload.indirect_trap,
    }
}

/// Classification of `Option<R>`: the payload's representation when `R` has a
/// guaranteed niche, a tagged wrapper otherwise. `R` must be sized.
pub open spec fn spec_option(payload: RustSpec) -> Option<RustSpec> {
    if !payload.size.is_sized() {
        None
    } else if payload.niche == Niche::WithNiche(Stability::Stable) {
        Some(niche_wrapper(payload))
    } else {
        Some(tagged_wrapper(payload.alignment, payload.indirect_trap))
    }
}

/// Classifies `Option<R>` from the classification of `R`.
pub fn option(payload: RustSpec) -> (spec: Option<RustSpec>)
    ensures
        spec == spec_option(payload),
{
    match payload.size {
        Size::Sized(_) => {},
        _ => {
            return None;
        },
    }
    if payload.niche == Niche::WithNiche(Stability::Stable) {
        Some(RustSpec {
            layout: payload.layout,
            trap: payload.indirect_trap,
            size: Size::Sized(Sizedness::NonZero),
            alignment: payload.alignment,
            niche: Niche::WithoutNiche,
            mutability: payload.mutability,
            indirect_trap: payload.indirect_trap,
        })
    } else {
        Some(RustSpec {
            layout: Stability::Unstable,
            trap: Trap::NonRobust,
            size: Size::Sized(Sizedness::NonZero),
            alignment: payload.alignment,
            niche: Niche::WithNiche(Stability::Unstable),
            mutability: Mutability::Exclusive,
            indirect_trap: payload.indirect_trap,
        })
    }
}

/// Whether a type is zero-sized with an alignment of one byte, so that a
/// variant holding it needs no storage of its own.
pub open spec fn is_one_zst(spec: RustSpec) -> bool {
    spec.size == Size::Sized(Sizedness::Zero) && spec.alignment == crate::Alignment::One
}

/// Classification of `Result<R, E>` when one side is a non-zero-sized
/// `payload` and the other a one-byte-aligned ZST: `Option`-like.
pub open spec fn payload_result(payload: RustSpec) -> RustSpec {
    if payload.niche == Niche::WithNiche(Stability::Stable) {
        niche_wrapper(payload)
    } else {
        tagged_wrapper(payload.alignment, payload.indirect_trap)
    }
}

/// Classification of `Result<R, E>`. Both sides must be sized. When one side
/// is non-zero-sized and the other a one-byte-aligned ZST, the result is laid
/// out like an `Option` of the non-zero-sized side; otherwise it is a tagged
/// wrapper reaching the trap values of both sides.
pub open spec fn spec_result(ok: RustSpec, err: RustSpec) -> Option<RustSpec> {
    if !ok.size.is_sized() || !err.size.is_sized() {
        None
    } else if ok.size == Size::Sized(Sizedness::NonZero) && is_one_zst(err) {
        Some(payload_result(ok))
    } else if err.size == Size::Sized(Sizedness::NonZero) && is_one_zst(ok) {
        Some(payload_result(err))
    } else {
        Some(
            tagged_wrapper(
                ok.alignment.combine(err.alignment),
                ok.indirect_trap.combine(err.indirect_trap),
            ),
        )
    }
}

/// Classification of a `Result` laid out like an `Option` of `payload`.
fn payload_result_of(payload: RustSpec) -> (spec: RustSpec)
    requires
        payload.size.is_sized(),
    ensures
        spec == payload_result(payload),
{
    match option(payload) {
        Some(spec) => spec,
        None => payload,
    }
}

/// Classifies `Result<R, E>` from the classifications of `R` and `E`.
pub fn result(ok: RustSpec, err: RustSpec) -> (spec: Option<RustSpec>)
    ensures
        spec == spec_result(ok, err),
{
    let ok_size = match ok.size {
        Size::Sized(s) => s,
        _ => {
            return None;
        },
    };
    let err_size = match err.size {
        Size::Sized(s) => s,
        _ => {
            return None;
        },
    };
    let ok_one_zst = ok_size == Sizedness::Zero && ok.alignment == crate::Alignment::One;
    let err_one_zst = err_size == Sizedness::Zero && err.alignment == crate::Alignment::One;
    if ok_size == Sizedness::NonZero && err_one_zst {
        Some(payload_result_of(ok))
    } else if err_size == Sizedness::NonZero && ok_one_zst {
        Some(payload_result_of(err))
    } else {
        Some(RustSpec {
            layout: Stability::Unstable,
            trap: Trap::NonRobust,
            size: Size::Sized(Sizedness::NonZero),
            alignment: ok.alignment.max(err.alignment),
            niche: Niche::WithNiche(Stability::Unstable),
            mutability: Mutability::Exclusive,
            indirect_trap: ok.indirect_trap.add(err.indirect_trap),
        })
    }
}

} // verus!
