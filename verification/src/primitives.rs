//! Classification of primitive types, raw pointers, slices, arrays and
//! function pointers.
use vstd::prelude::*;

use crate::layout::Trap;
use crate::mutability::Mutability;
use crate::niche::Niche;
use crate::size::{Metadata, Size, Sizedness};
use crate::{Alignment, RustSpec, Stability};

verus! {

/// Primitive numeric types.
#[derive(Clone, Copy, Debug, PartialEq, Eq, Structural)]
pub enum Primitive {
    U8,
    I8,
    U16,
    I16,
    U32,
    I32,
    U64,
    I64,
    U128,
    I128,
    F32,
    F64,
    Usize,
    Isize,
}

impl Primitive {
    /// ABI alignment of the primitive.
    pub open spec fn alignment(self) -> Alignment {
        match self {
            Primitive::U8 | Primitive::I8 => Alignment::One,
            _ => Alignment::GtOne,
        }
    }
}

/// Classification of a primitive numeric type: stable, robust, without niche.
pub open spec fn spec_primitive(ty: Primitive) -> RustSpec {
    RustSpec {
        layout: Stability::Stable,
        trap: Trap::Robust,
        size: Size::Sized(Sizedness::NonZero),
        alignment: ty.alignment(),
        niche: Niche::WithoutNiche,
        mutability: Mutability::Exclusive,
        indirect_trap: Trap::Robust,
    }
}

/// Classifies a primitive numeric type.
pub fn primitive(ty: Primitive) -> (spec: RustSpec)
    ensures
        spec == spec_primitive(ty),
{
    let alignment = match ty {
        Primitive::U8 | Primitive::I8 => Alignment::One,
        _ => Alignment::GtOne,
    };
    RustSpec {
        layout: Stability::Stable,
        trap: Trap::Robust,
        size: Size::Sized(Sizedness::NonZero),
        alignment,
        niche: Niche::WithoutNiche,
        mutability: Mutability::Exclusive,
        indirect_trap: Trap::Robust,
    }
}

/// Classification of `*const R` and `*mut R`, whatever `R` is: raw pointers do
/// not follow their pointees.
pub open spec fn spec_raw_pointer() -> RustSpec {
    RustSpec { alignment: crate::pointer_alignment(), ..spec_primitive(Primitive::Usize) }
}

/// Classifies a raw pointer.
pub fn raw_pointer() -> (spec: RustSpec)
    ensures
        spec == spec_raw_pointer(),
{
    primitive(Primitive::Usize)
}

/// Primitive types with invalid bit patterns.
#[derive(Clone, Copy, Debug, PartialEq, Eq, Structural)]
pub enum FieldlessPrimitive {
    Char,
    Bool,
    CmpOrdering,
}

/// Classification of `char`, `bool` and the three-way comparison result: stable, with
/// invalid bit patterns that form an unguaranteed niche.
pub open spec fn spec_fieldless_primitive(primitive: FieldlessPrimitive) -> RustSpec {
    RustSpec {
        layout: Stability::Stable,
        trap: Trap::NonRobust,
        size: Size::Sized(Sizedness::NonZero),
        alignment: if primitive == FieldlessPrimitive::Char {
            Alignment::GtOne
        } else {
            Alignment::One
        },
        niche: Niche::WithNiche(Stability::Unstable),
        mutability: Mutability::Exclusive,
        indirect_trap: Trap::Robust,
    }
}

/// Classifies `char`, `bool` or the three-way comparison result.
pub fn fieldless_primitive(primitive: FieldlessPrimitive) -> (spec: RustSpec)
    ensures
        spec == spec_fieldless_primitive(primitive),
{
    RustSpec {
        layout: Stability::Stable,
        trap: Trap::NonRobust,
        size: Size::Sized(Sizedness::NonZero),
        alignment: match primitive {
            FieldlessPrimitive::Char => Alignment::GtOne,
            _ => Alignment::One,
        },
        niche: Niche::WithNiche(Stability::Unstable),
        mutability: Mutability::Exclusive,
        indirect_trap: Trap::Robust,
    }
}

/// Classification of the slice `[R]` of a sized `R`.
pub open spec fn spec_slice(element: RustSpec) -> Option<RustSpec> {
    if !element.size.is_sized() {
        None
    } else {
        Some(
            RustSpec {
                layout: element.layout,
                trap: element.trap,
                size: Size::MetaSized(Metadata::SliceLike),
                alignment: element.alignment,
                niche: Niche::WithoutNiche,
                mutability: Mutability::Exclusive,
                indirect_trap: element.indirect_trap,
            },
        )
    }
}

/// Classifies the slice `[R]` from the classification of `R`.
pub fn slice(element: RustSpec) -> (spec: Option<RustSpec>)
    ensures
        spec == spec_slice(element),
{
    match element.size {
        Size::Sized(_) => Some(RustSpec {
            layout: element.layout,
            trap: element.trap,
            size: Size::MetaSized(Metadata::SliceLike),
            alignment: element.alignment,
            niche: Niche::WithoutNiche,
            mutability: Mutability::Exclusive,
            indirect_trap: element.indirect_trap,
        }),
        _ => None,
    }
}

/// Largest array length that is classified.
pub const MAX_ARRAY_LEN: usize = 32;

/// Classification of the array `[R; len]` of a sized `R`, for lengths up to
/// [`MAX_ARRAY_LEN`]. An empty array is a robust ZST without niche; a
/// non-empty array keeps the element's classification, except that a niche
/// is no longer guaranteed.
pub open spec fn spec_array(element: RustSpec, len: usize) -> Option<RustSpec> {
    if !element.size.is_sized() || len > MAX_ARRAY_LEN {
        None
    } else if len == 0 {
        Some(
            RustSpec {
                layout: element.layout,
                trap: Trap::Robust,
                size: Size::Sized(Sizedness::Zero),
                alignment: element.alignment,
                niche: Niche::WithoutNiche,
                mutability: Mutability::Exclusive,
                indirect_trap: Trap::Robust,
            },
        )
    } else {
        Some(RustSpec { niche: Niche::WithoutNiche.combine(element.niche), ..element })
    }
}

/// Classifies the array `[R; len]` from the classification of `R`.
pub fn array(element: RustSpec, len: usize) -> (spec: Option<RustSpec>)
    ensures
        spec == spec_array(element, len),
{
    match element.size {
        Size::Sized(_) => {},
        _ => {
            return None;
        },
    }
    if len > MAX_ARRAY_LEN {
        None
    } else if len == 0 {
        Some(RustSpec {
            layout: element.layout,
            trap: Trap::Robust,
            size: Size::Sized(Sizedness::Zero),
            alignment: element.alignment,
            niche: Niche::WithoutNiche,
            mutability: Mutability::Exclusive,
            indirect_trap: Trap::Robust,
        })
    } else {
        Some(RustSpec { niche: Niche::WithoutNiche.add(element.niche), ..element })
    }
}

/// Calling convention of a function pointer.
#[derive(Clone, Copy, Debug, PartialEq, Eq, Structural)]
pub enum Abi {
    Rust,
    C,
    CUnwind,
    System,
    SystemUnwind,
    Cdecl,
    CdeclUnwind,
    Stdcall,
    StdcallUnwind,
    Fastcall,
    FastcallUnwind,
    Thiscall,
    ThiscallUnwind,
    Sysv64,
    Sysv64Unwind,
    Win64,
    Win64Unwind,
    Aapcs,
    AapcsUnwind,
    Efiapi,
}

/// Target architecture, as far as calling conventions depend on it.
#[derive(Clone, Copy, Debug, PartialEq, Eq, Structural)]
pub enum Arch {
    X86,
    X86_64,
    Arm,
    Aarch64,
    Other,
}

/// Whether function pointers with the calling convention are classified on
/// the architecture.
pub open spec fn spec_abi_available(abi: Abi, arch: Arch) -> bool {
    match abi {
        Abi::Cdecl | Abi::CdeclUnwind | Abi::Stdcall | Abi::StdcallUnwind | Abi::Fastcall
        | Abi::FastcallUnwind | Abi::Thiscall | Abi::ThiscallUnwind => arch == Arch::X86,
        Abi::Sysv64 | Abi::Sysv64Unwind | Abi::Win64 | Abi::Win64Unwind => arch == Arch::X86_64,
        Abi::Aapcs | Abi::AapcsUnwind => arch == Arch::Arm,
        Abi::Efiapi => arch != Arch::Other,
        _ => true,
    }
}

/// Whether function pointers with the calling convention are classified on
/// the architecture.
pub fn abi_available(abi: Abi, arch: Arch) -> (available: bool)
    ensures
        available == spec_abi_available(abi, arch),
{
    match abi {
        Abi::Cdecl | Abi::CdeclUnwind | Abi::Stdcall | Abi::StdcallUnwind | Abi::Fastcall
        | Abi::FastcallUnwind | Abi::Thiscall | Abi::ThiscallUnwind => arch == Arch::X86,
        Abi::Sysv64 | Abi::Sysv64Unwind | Abi::Win64 | Abi::Win64Unwind => arch == Arch::X86_64,
        Abi::Aapcs | Abi::AapcsUnwind => arch == Arch::Arm,
        Abi::Efiapi => arch != Arch::Other,
        _ => true,
    }
}

/// Largest number of parameters of a classified function pointer.
pub const MAX_FN_ARGS: usize = 12;

/// Whether every classification in the sequence is stable.
pub open spec fn all_layouts_stable(specs: Seq<RustSpec>) -> bool {
    forall|i: int| 0 <= i < specs.len() ==> #[trigger] specs[i].layout == Stability::Stable
}

/// Whether every classification in the sequence is sized.
pub open spec fn all_sized(specs: Seq<RustSpec>) -> bool {
    forall|i: int| 0 <= i < specs.len() ==> #[trigger] specs[i].size.is_sized()
}

/// Classification of a function pointer with the calling convention `abi`,
/// sized parameters `args` (at most [`MAX_FN_ARGS`]) and sized return type
/// `ret`. Its layout is stable only for a non-Rust calling convention whose
/// parameter and return types are all stable; it has a guaranteed null niche.
pub open spec fn spec_function_pointer(abi: Abi, arch: Arch, args: Seq<RustSpec>, ret: RustSpec) -> Option<RustSpec> {
    if !spec_abi_available(abi, arch) || args.len() > MAX_FN_ARGS || !all_sized(args) || !ret.size.is_sized() {
        None
    } else {
        Some(
            RustSpec {
                layout: if abi != Abi::Rust && all_layouts_stable(args) && ret.layout == Stability::Stable {
                    Stability::Stable
                } else {
                    Stability::Unstable
                },
                trap: Trap::NonRobust,
                size: Size::Sized(Sizedness::NonZero),
                alignment: crate::pointer_alignment(),
                niche: Niche::WithNiche(Stability::Stable),
                mutability: Mutability::Exclusive,
                indirect_trap: Trap::Robust,
            },
        )
    }
}

/// Classifies a function pointer.
pub fn function_pointer(abi: Abi, arch: Arch, args: &Vec<RustSpec>, ret: RustSpec) -> (spec: Option<RustSpec>)
    ensures
        spec == spec_function_pointer(abi, arch, args@, ret),
{
    if !abi_available(abi, arch) || args.len() > MAX_FN_ARGS {
        return None;
    }
    match ret.size {
        Size::Sized(_) => {},
        _ => {
            return None;
        },
    }
    let mut layout = ret.layout;
    let mut i: usize = 0;
    while i < args.len()
        invariant
            spec_abi_available(abi, arch),
            args@.len() <= MAX_FN_ARGS,
            ret.size.is_sized(),
            i <= args@.len(),
            all_sized(args@.take(i as int)),
            layout == if all_layouts_stable(args@.take(i as int)) && ret.layout == Stability::Stable {
                Stability::Stable
            } else {
                Stability::Unstable
            },
        decreases args@.len() - i,
    {
        let arg = args[i];
        match arg.size {
            Size::Sized(_) => {},
            _ => {
                assert(!args@[i as int].size.is_sized());
                return None;
            },
        }
        let ghost prev = args@.take(i as int);
        layout = arg.layout.add(layout);
        i = i + 1;
        let ghost next = args@.take(i as int);
        assert(next =~= prev.push(arg));
        assert(all_layouts_stable(next) == (all_layouts_stable(prev) && arg.layout == Stability::Stable)) by {
            if all_layouts_stable(prev) && arg.layout == Stability::Stable {
                assert forall|k: int| 0 <= k < next.len() implies #[trigger] next[k].layout == Stability::Stable by {
                    if k < prev.len() {
                        assert(next[k] == prev[k]);
                    }
                };
            }
            if all_layouts_stable(next) {
                assert(next[next.len() - 1] == arg);
                assert forall|k: int| 0 <= k < prev.len() implies #[trigger] prev[k].layout == Stability::Stable by {
                    assert(next[k] == prev[k]);
                };
            }
        };
        assert forall|k: int| 0 <= k < next.len() implies #[trigger] next[k].size.is_sized() by {
            if k < prev.len() {
                assert(next[k] == prev[k]);
            }
        };
    }
    assert(args@.take(args@.len() as int) =~= args@);
    let layout = if abi == Abi::Rust {
        Stability::Unstable
    } else {
        layout
    };
    Some(RustSpec {
        layout,
        trap: Trap::NonRobust,
        size: Size::Sized(Sizedness::NonZero),
        alignment: Alignment::GtOne,
        niche: Niche::WithNiche(Stability::Stable),
        mutability: Mutability::Exclusive,
        indirect_trap: Trap::Robust,
    })
}

} // verus!
