//! Classification of types defined by `core` and `alloc`: cells, FFI types
//! and wrappers.
use vstd::prelude::*;

use crate::layout::Trap;
use crate::mutability::Mutability;
use crate::niche::Niche;
use crate::primitives::{spec_primitive, Primitive};
use crate::size::{Metadata, Size, Sizedness};
use crate::{Alignment, RustSpec, Stability};

verus! {

/// Classification of `UnsafeCell<T>` and `Cell<T>`: stable, wholly
/// interior-mutable, without niche, and otherwise like `T`.
pub open spec fn spec_unsafe_cell(inner: RustSpec) -> RustSpec {
    RustSpec {
        layout: Stability::Stable,
        trap: Trap::Robust.combine(inner.trap),
        size: inner.size,
        alignment: inner.alignment,
        niche: Niche::WithoutNiche,
        mutability: Mutability::Interior,
        indirect_trap: inner.indirect_trap,
    }
}

/// Classifies `UnsafeCell<T>` (and, identically, `Cell<T>`) from the
/// classification of `T`.
pub fn unsafe_cell(inner: RustSpec) -> (spec: RustSpec)
    ensures
        spec == spec_unsafe_cell(inner),
{
    RustSpec {
        layout: Stability::Stable,
        trap: Trap::Robust.add(inner.trap),
        size: inner.size,
        alignment: inner.alignment,
        niche: Niche::WithoutNiche,
        mutability: Mutability::Interior,
        indirect_trap: inner.indirect_trap,
    }
}

/// Classifies `Reverse<T>`, `Wrapping<T>`, `Saturating<T>` and
/// `ManuallyDrop<T>`: exactly like `T`.
pub fn transparent_wrapper(inner: RustSpec) -> (spec: RustSpec)
    ensures
        spec == inner,
{
    inner
}

/// Classification of `NonZero<P>` for an integer `P`: stable, with the
/// guaranteed zero niche.
pub open spec fn spec_non_zero(integer: Primitive) -> Option<RustSpec> {
    if integer == Primitive::F32 || integer == Primitive::F64 {
        None
    } else {
        Some(
            RustSpec {
                trap: Trap::NonRobust,
                niche: Niche::WithNiche(Stability::Stable),
                ..spec_primitive(integer)
            },
        )
    }
}

/// Classifies `NonZero<P>`; floats have no `NonZero`.
pub fn non_zero(integer: Primitive) -> (spec: Option<RustSpec>)
    ensures
        spec == spec_non_zero(integer),
{
    match integer {
        Primitive::F32 | Primitive::F64 => None,
        _ => {
            let p = crate::primitives::primitive(integer);
            Some(RustSpec { trap: Trap::NonRobust, niche: Niche::WithNiche(Stability::Stable), ..p })
        },
    }
}

/// Classification of `Vec<T>` for a sized `T`: unstable, reaching `T`'s trap
/// values through its buffer.
pub open spec fn spec_vec(element: RustSpec) -> Option<RustSpec> {
    if !element.size.is_sized() {
        None
    } else {
        Some(
            RustSpec {
                layout: Stability::Unstable,
                trap: Trap::NonRobust,
                size: Size::Sized(Sizedness::NonZero),
                alignment: crate::pointer_alignment(),
                niche: Niche::WithNiche(Stability::Unstable),
                mutability: Mutability::Exclusive,
                indirect_trap: element.trap,
            },
        )
    }
}

/// Classifies `Vec<T>` from the classification of `T`.
pub fn vector(element: RustSpec) -> (spec: Option<RustSpec>)
    ensures
        spec == spec_vec(element),
{
    match element.size {
        Size::Sized(_) => Some(RustSpec {
            layout: Stability::Unstable,
            trap: Trap::NonRobust,
            size: Size::Sized(Sizedness::NonZero),
            alignment: Alignment::GtOne,
            niche: Niche::WithNiche(Stability::Unstable),
            mutability: Mutability::Exclusive,
            indirect_trap: element.trap,
        }),
        _ => None,
    }
}

/// Non-generic types of `core` and `alloc`, and generic ones whose
/// classification does not depend on their parameter.
#[derive(Clone, Copy, Debug, PartialEq, Eq, Structural)]
pub enum CoreType {
    CVoid,
    CStr,
    CString,
    Unit,
    Infallible,
    PhantomPinned,
    PhantomData,
    NonNull,
    Str,
    String,
}

/// Classification of a robust, stable ZST.
pub open spec fn stable_zst() -> RustSpec {
    RustSpec {
        layout: Stability::Stable,
        trap: Trap::Robust,
        size: Size::Sized(Sizedness::Zero),
        alignment: Alignment::One,
        niche: Niche::WithoutNiche,
        mutability: Mutability::Exclusive,
        indirect_trap: Trap::Robust,
    }
}

/// Classification of a core type.
pub open spec fn spec_core_type(ty: CoreType) -> RustSpec {
    match ty {
        CoreType::CVoid => spec_primitive(Primitive::U8),
        CoreType::CStr => RustSpec {
            layout: Stability::Unstable,
            trap: Trap::NonRobust,
            size: Size::MetaSized(Metadata::SliceLike),
            alignment: Alignment::One,
            niche: Niche::WithoutNiche,
            mutability: Mutability::Exclusive,
            indirect_trap: Trap::Robust,
        },
        CoreType::CString => RustSpec {
            layout: Stability::Unstable,
            trap: Trap::NonRobust,
            size: Size::MetaSized(Metadata::SliceLike),
            alignment: crate::pointer_alignment(),
            niche: Niche::WithNiche(Stability::Unstable),
            mutability: Mutability::Exclusive,
            indirect_trap: Trap::Robust,
        },
        CoreType::Unit | CoreType::Infallible | CoreType::PhantomPinned | CoreType::PhantomData => stable_zst(),
        CoreType::NonNull => RustSpec {
            layout: Stability::Stable,
            trap: Trap::NonRobust,
            size: Size::Sized(Sizedness::NonZero),
            alignment: crate::pointer_alignment(),
            niche: Niche::WithNiche(Stability::Stable),
            mutability: Mutability::Exclusive,
            indirect_trap: Trap::Robust,
        },
        CoreType::Str => RustSpec {
            layout: Stability::Stable,
            trap: Trap::NonRobust,
            size: Size::MetaSized(Metadata::SliceLike),
            alignment: Alignment::One,
            niche: Niche::WithNiche(Stability::Unstable),
            mutability: Mutability::Exclusive,
            indirect_trap: Trap::Robust,
        },
        CoreType::String => RustSpec {
            layout: Stability::Unstable,
            trap: Trap::NonRobust,
            size: Size::Sized(Sizedness::NonZero),
            alignment: crate::pointer_alignment(),
            niche: Niche::WithNiche(Stability::Unstable),
            mutability: Mutability::Exclusive,
            indirect_trap: Trap::Robust,
        },
    }
}

/// Classifies a core type.
pub fn core_type(ty: CoreType) -> (spec: RustSpec)
    ensures
        spec == spec_core_type(ty),
{
    match ty {
        CoreType::CVoid => crate::primitives::primitive(Primitive::U8),
        CoreType::CStr => RustSpec {
            layout: Stability::Unstable,
            trap: Trap::NonRobust,
            size: Size::MetaSized(Metadata::SliceLike),
            alignment: Alignment::One,
            niche: Niche::WithoutNiche,
            mutability: Mutability::Exclusive,
            indirect_trap: Trap::Robust,
        },
        CoreType::CString => RustSpec {
            layout: Stability::Unstable,
            trap: Trap::NonRobust,
            size: Size::MetaSized(Metadata::SliceLike),
            alignment: Alignment::GtOne,
            niche: Niche::WithNiche(Stability::Unstable),
            mutability: Mutability::Exclusive,
            indirect_trap: Trap::Robust,
        },
        CoreType::Unit | CoreType::Infallible | CoreType::PhantomPinned | CoreType::PhantomData => RustSpec {
            layout: Stability::Stable,
            trap: Trap::Robust,
            size: Size::Sized(Sizedness::Zero),
            alignment: Alignment::One,
            niche: Niche::WithoutNiche,
            mutability: Mutability::Exclusive,
            indirect_trap: Trap::Robust,
        },
        CoreType::NonNull => RustSpec {
            layout: Stability::Stable,
            trap: Trap::NonRobust,
            size: Size::Sized(Sizedness::NonZero),
            alignment: Alignment::GtOne,
            niche: Niche::WithNiche(Stability::Stable),
            mutability: Mutability::Exclusive,
            indirect_trap: Trap::Robust,
        },
        CoreType::Str => RustSpec {
            layout: Stability::Stable,
            trap: Trap::NonRobust,
            size: Size::MetaSized(Metadata::SliceLike),
            alignment: Alignment::One,
            niche: Niche::WithNiche(Stability::Unstable),
            mutability: Mutability::Exclusive,
            indirect_trap: Trap::Robust,
        },
        CoreType::String => RustSpec {
            layout: Stability::Unstable,
            trap: Trap::NonRobust,
            size: Size::Sized(Sizedness::NonZero),
            alignment: Alignment::GtOne,
            niche: Niche::WithNiche(Stability::Unstable),
            mutability: Mutability::Exclusive,
            indirect_trap: Trap::Robust,
        },
    }
}

} // verus!
