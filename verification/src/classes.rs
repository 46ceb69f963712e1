//! What each classification rule gives, axis by axis, for every input: which
//! types are robust, which are over-aligned, which keep a niche, and how a
//! composite depends on every one of its parts.
use vstd::prelude::*;

use crate::core_impls::{spec_core_type, spec_non_zero, spec_unsafe_cell, spec_vec, CoreType};
use crate::derive::family::combined_size;
use crate::derive::generate::{
    enum_has_trap_tag_values, enum_keeps_payload_mutability, enum_tag, fieldless_enum_classification,
    plain_c_enum_classification, struct_classification, tagged_enum_classification, union_classification, Target,
};
use crate::derive::repr::{spec_infer_repr, ReprKind, Tag};
use crate::layout::Trap;
use crate::mutability::Mutability;
use crate::niche::Niche;
use crate::pointers::{spec_boxed, spec_option, spec_reference, spec_result};
use crate::primitives::{
    spec_abi_available, spec_array, spec_fieldless_primitive, spec_function_pointer, spec_primitive, spec_raw_pointer,
    spec_slice, Abi, Arch, FieldlessPrimitive, Primitive,
};
use crate::size::{Metadata, Size, Sizedness};
use crate::tuple::spec_tuple;
use crate::{Alignment, RustSpec, Stability};

verus! {

/// Whether a type is one byte in size: `u8` and `i8`.
pub open spec fn is_byte(p: Primitive) -> bool {
    p == Primitive::U8 || p == Primitive::I8
}

/// Primitive numbers are stable, robust, non-zero-sized, without niche and
/// exclusive; exactly the one-byte ones are one-byte aligned.
pub proof fn lemma_primitive_classes(p: Primitive)
    ensures
        spec_primitive(p).layout == Stability::Stable,
        spec_primitive(p).trap == Trap::Robust,
        spec_primitive(p).size == Size::Sized(Sizedness::NonZero),
        spec_primitive(p).alignment == Alignment::One <==> is_byte(p),
        spec_primitive(p).alignment == Alignment::GtOne <==> !is_byte(p),
        spec_primitive(p).niche == Niche::WithoutNiche,
        spec_primitive(p).mutability == Mutability::Exclusive,
        spec_primitive(p).indirect_trap == Trap::Robust,
{
}

/// `char`, `bool` and the comparison result have invalid bit patterns that
/// form an unguaranteed niche; only `char` is wider than a byte.
pub proof fn lemma_fieldless_primitive_classes(p: FieldlessPrimitive)
    ensures
        spec_fieldless_primitive(p).layout == Stability::Stable,
        spec_fieldless_primitive(p).trap == Trap::NonRobust,
        spec_fieldless_primitive(p).size == Size::Sized(Sizedness::NonZero),
        spec_fieldless_primitive(p).alignment == Alignment::GtOne <==> p == FieldlessPrimitive::Char,
        spec_fieldless_primitive(p).niche == Niche::WithNiche(Stability::Unstable),
        spec_fieldless_primitive(p).mutability == Mutability::Exclusive,
        spec_fieldless_primitive(p).indirect_trap == Trap::Robust,
{
}

/// Raw pointers are stable, robust, pointer-aligned, without niche, and do not
/// reach their pointee.
pub proof fn lemma_raw_pointer_class()
    ensures
        spec_raw_pointer().layout == Stability::Stable,
        spec_raw_pointer().trap == Trap::Robust,
        spec_raw_pointer().size == Size::Sized(Sizedness::NonZero),
        spec_raw_pointer().alignment == Alignment::GtOne,
        spec_raw_pointer().niche == Niche::WithoutNiche,
        spec_raw_pointer().mutability == Mutability::Exclusive,
        spec_raw_pointer().indirect_trap == Trap::Robust,
{
}

/// Whether the core type is one of the zero-sized markers.
pub open spec fn is_marker_zst(ty: CoreType) -> bool {
    ty == CoreType::Unit || ty == CoreType::Infallible || ty == CoreType::PhantomPinned || ty
        == CoreType::PhantomData
}

/// Whether the core type is a string type.
pub open spec fn is_string_like(ty: CoreType) -> bool {
    ty == CoreType::Str || ty == CoreType::CStr || ty == CoreType::CString || ty == CoreType::String
}

/// Core types: `c_void` and the zero-sized markers are robust, every string
/// type and `NonNull` have invalid values; exactly the zero-sized markers are
/// zero-sized and exactly `str`, `CStr` and `CString` are slice-like; only the
/// owned strings are unstable; `NonNull`, `String` and `CString` are
/// pointer-aligned; only `NonNull` has a guaranteed niche. None of them is
/// interior-mutable or reaches trap values through a pointer.
pub proof fn lemma_core_type_classes(ty: CoreType)
    ensures
        spec_core_type(ty).trap == Trap::Robust <==> (ty == CoreType::CVoid || is_marker_zst(ty)),
        spec_core_type(ty).trap == Trap::NonRobust <==> (is_string_like(ty) || ty == CoreType::NonNull),
        spec_core_type(ty).size == Size::Sized(Sizedness::Zero) <==> is_marker_zst(ty),
        spec_core_type(ty).size == Size::MetaSized(Metadata::SliceLike) <==> (ty == CoreType::Str || ty
            == CoreType::CStr || ty == CoreType::CString),
        spec_core_type(ty).size == Size::Sized(Sizedness::NonZero) <==> (ty == CoreType::CVoid || ty
            == CoreType::NonNull || ty == CoreType::String),
        spec_core_type(ty).layout == Stability::Unstable <==> (ty == CoreType::CStr || ty == CoreType::CString || ty
            == CoreType::String),
        spec_core_type(ty).alignment == Alignment::GtOne <==> (ty == CoreType::NonNull || ty == CoreType::String
            || ty == CoreType::CString),
        spec_core_type(ty).niche == Niche::WithNiche(Stability::Stable) <==> ty == CoreType::NonNull,
        spec_core_type(ty).niche == Niche::WithNiche(Stability::Unstable) <==> (ty == CoreType::Str || ty
            == CoreType::CString || ty == CoreType::String),
        spec_core_type(ty).mutability == Mutability::Exclusive,
        spec_core_type(ty).indirect_trap == Trap::Robust,
{
}

/// `UnsafeCell<T>` is stable and wholly interior-mutable with no niche, and
/// has `T`'s robustness, size, alignment and reach.
pub proof fn lemma_unsafe_cell_class(inner: RustSpec)
    ensures
        spec_unsafe_cell(inner).layout == Stability::Stable,
        spec_unsafe_cell(inner).trap == inner.trap,
        spec_unsafe_cell(inner).size == inner.size,
        spec_unsafe_cell(inner).alignment == inner.alignment,
        spec_unsafe_cell(inner).niche == Niche::WithoutNiche,
        spec_unsafe_cell(inner).mutability == Mutability::Interior,
        spec_unsafe_cell(inner).indirect_trap == inner.indirect_trap,
{
}

/// `NonZero<P>` exists exactly for the integers; it is laid out as `P` but
/// has the zero value as a guaranteed niche.
pub proof fn lemma_non_zero_class(p: Primitive)
    ensures
        spec_non_zero(p) is None <==> (p == Primitive::F32 || p == Primitive::F64),
        spec_non_zero(p) matches Some(n) ==> {
            &&& n.layout == Stability::Stable
            &&& n.trap == Trap::NonRobust
            &&& n.size == Size::Sized(Sizedness::NonZero)
            &&& (n.alignment == Alignment::One <==> is_byte(p))
            &&& n.niche == Niche::WithNiche(Stability::Stable)
            &&& n.mutability == Mutability::Exclusive
            &&& n.indirect_trap == Trap::Robust
        },
{
}

/// `Vec<T>` exists for sized `T`: an unstable, pointer-aligned owner with
/// invalid values and an unguaranteed niche that reaches `T`'s trap values.
pub proof fn lemma_vec_class(element: RustSpec)
    ensures
        spec_vec(element) is None <==> !(element.size is Sized),
        spec_vec(element) matches Some(v) ==> {
            &&& v.layout == Stability::Unstable
            &&& v.trap == Trap::NonRobust
            &&& v.size == Size::Sized(Sizedness::NonZero)
            &&& v.alignment == Alignment::GtOne
            &&& v.niche == Niche::WithNiche(Stability::Unstable)
            &&& v.mutability == Mutability::Exclusive
            &&& v.indirect_trap == element.trap
        },
{
}

/// `&R`: a pointer-aligned, non-zero-sized value with invalid values; a thin
/// referent gives the referent's layout and a guaranteed niche, a
/// metadata-sized one an unstable layout and an unguaranteed niche; it keeps
/// the referent's mutability and reaches its trap values.
pub proof fn lemma_reference_class(referent: RustSpec)
    ensures
        !(referent.size is MetaSized) ==> spec_reference(referent).layout == referent.layout,
        referent.size is MetaSized ==> spec_reference(referent).layout == Stability::Unstable,
        spec_reference(referent).trap == Trap::NonRobust,
        spec_reference(referent).size == Size::Sized(Sizedness::NonZero),
        spec_reference(referent).alignment == Alignment::GtOne,
        spec_reference(referent).niche == Niche::WithNiche(
            if referent.size is MetaSized {
                Stability::Unstable
            } else {
                Stability::Stable
            },
        ),
        spec_reference(referent).mutability == referent.mutability,
        spec_reference(referent).indirect_trap == referent.trap,
{
}

/// `Box<R>` is classified as `&R`, except that a box of metadata-sized
/// contents is exclusive; a box of an extern type is not classified.
pub proof fn lemma_boxed_class(content: RustSpec)
    ensures
        spec_boxed(content) is None <==> content.size is ExternTypeLike,
        content.size is Sized ==> spec_boxed(content) == Some(spec_reference(content)),
        content.size is MetaSized ==> spec_boxed(content) == Some(
            RustSpec { mutability: Mutability::Exclusive, ..spec_reference(content) },
        ),
{
}

/// `[R]` exists for sized `R`: slice-like, with `R`'s layout, robustness,
/// alignment and reach, no niche, exclusive.
pub proof fn lemma_slice_class(element: RustSpec)
    ensures
        spec_slice(element) is None <==> !(element.size is Sized),
        spec_slice(element) matches Some(s) ==> {
            &&& s.layout == element.layout
            &&& s.trap == element.trap
            &&& s.size == Size::MetaSized(Metadata::SliceLike)
            &&& s.alignment == element.alignment
            &&& s.niche == Niche::WithoutNiche
            &&& s.mutability == Mutability::Exclusive
            &&& s.indirect_trap == element.indirect_trap
        },
{
}

/// `[R; N]` exists for sized `R` and `N` up to 32. An empty array is a robust
/// ZST with `R`'s layout and alignment; a non-empty array is classified as
/// `R`, except that a niche of `R` is no longer guaranteed.
pub proof fn lemma_array_class(element: RustSpec, len: usize)
    ensures
        spec_array(element, len) is None <==> (!(element.size is Sized) || len > 32),
        spec_array(element, len) matches Some(a) ==> {
            &&& a.layout == element.layout
            &&& a.alignment == element.alignment
            &&& if len == 0 {
                &&& a.trap == Trap::Robust
                &&& a.size == Size::Sized(Sizedness::Zero)
                &&& a.niche == Niche::WithoutNiche
                &&& a.mutability == Mutability::Exclusive
                &&& a.indirect_trap == Trap::Robust
            } else {
                &&& a.trap == element.trap
                &&& a.size == element.size
                &&& (a.niche == Niche::WithoutNiche <==> element.niche == Niche::WithoutNiche)
                &&& a.niche != Niche::WithNiche(Stability::Stable)
                &&& a.mutability == element.mutability
                &&& a.indirect_trap == element.indirect_trap
            }
        },
{
}

/// `Option<R>` exists for sized `R`, is non-zero-sized and keeps `R`'s
/// alignment and reach.
pub proof fn lemma_option_class(payload: RustSpec)
    ensures
        spec_option(payload) is None <==> !(payload.size is Sized),
        spec_option(payload) matches Some(o) ==> {
            &&& o.size == Size::Sized(Sizedness::NonZero)
            &&& o.alignment == payload.alignment
            &&& o.indirect_trap == payload.indirect_trap
        },
{
}

/// `Result<R, E>` exists when both sides are sized. When neither side is laid
/// out in the other's niche (two non-zero-sized sides, or two zero-sized ones)
/// it is an unstable tagged wrapper, aligned to the larger side, reaching the
/// trap values of both.
pub proof fn lemma_result_class(ok: RustSpec, err: RustSpec)
    ensures
        spec_result(ok, err) is None <==> (!(ok.size is Sized) || !(err.size is Sized)),
        spec_result(ok, err) matches Some(r) ==> r.size == Size::Sized(Sizedness::NonZero),
        ok.size == err.size && ok.size is Sized ==> (spec_result(ok, err) matches Some(r) && {
            &&& r.layout == Stability::Unstable
            &&& r.trap == Trap::NonRobust
            &&& (r.alignment == Alignment::GtOne <==> (ok.alignment == Alignment::GtOne || err.alignment
                == Alignment::GtOne))
            &&& r.niche == Niche::WithNiche(Stability::Unstable)
            &&& r.mutability == Mutability::Exclusive
            &&& (r.indirect_trap == Trap::Robust <==> (ok.indirect_trap == Trap::Robust && err.indirect_trap
                == Trap::Robust))
        }),
{
}

/// Tuples of one to twelve sized elements: unstable and statically sized; every
/// other axis depends on every element: robust when all elements are,
/// non-zero-sized when some element is, over-aligned when some element is,
/// interior-mutable when all are, reaching trap values when some element does.
/// A one-element tuple keeps its element's niche; a longer one has none
/// exactly when no element has one, and never a guaranteed one.
pub proof fn lemma_tuple_class(elements: Seq<RustSpec>)
    ensures
        spec_tuple(elements) is None <==> (elements.len() == 0 || elements.len() > 12 || exists|i: int|
            0 <= i < elements.len() && !(#[trigger] elements[i].size is Sized)),
        spec_tuple(elements) matches Some(t) ==> {
            &&& t.layout == Stability::Unstable
            &&& (t.trap == Trap::Robust <==> forall|i: int|
                0 <= i < elements.len() ==> #[trigger] elements[i].trap == Trap::Robust)
            &&& t.size is Sized
            &&& (t.size == Size::Sized(Sizedness::NonZero) <==> exists|i: int|
                0 <= i < elements.len() && #[trigger] elements[i].size == Size::Sized(Sizedness::NonZero))
            &&& (t.alignment == Alignment::GtOne <==> exists|i: int|
                0 <= i < elements.len() && #[trigger] elements[i].alignment == Alignment::GtOne)
            &&& (elements.len() == 1 ==> t.niche == elements[0].niche)
            &&& (elements.len() > 1 ==> (t.niche == Niche::WithoutNiche <==> forall|i: int|
                0 <= i < elements.len() ==> #[trigger] elements[i].niche == Niche::WithoutNiche))
            &&& (elements.len() > 1 ==> t.niche != Niche::WithNiche(Stability::Stable))
            &&& (t.mutability == Mutability::Interior <==> forall|i: int|
                0 <= i < elements.len() ==> #[trigger] elements[i].mutability == Mutability::Interior)
            &&& (t.indirect_trap == Trap::Robust <==> forall|i: int|
                0 <= i < elements.len() ==> #[trigger] elements[i].indirect_trap == Trap::Robust)
        },
{
    if !crate::all_sized(elements) {
        let i = choose|i: int| 0 <= i < elements.len() && !#[trigger] elements[i].size.is_sized();
        assert(!(elements[i].size is Sized));
    }
    if exists|i: int| 0 <= i < elements.len() && !(#[trigger] elements[i].size is Sized) {
        let i = choose|i: int| 0 <= i < elements.len() && !(#[trigger] elements[i].size is Sized);
        assert(!elements[i].size.is_sized());
    }
}

/// Calling conventions that exist on every architecture, and those that exist
/// only on one.
pub proof fn lemma_abi_availability(abi: Abi, arch: Arch)
    ensures
        (abi == Abi::Rust || abi == Abi::C || abi == Abi::CUnwind || abi == Abi::System || abi == Abi::SystemUnwind)
            ==> spec_abi_available(abi, arch),
        (abi == Abi::Cdecl || abi == Abi::CdeclUnwind || abi == Abi::Stdcall || abi == Abi::StdcallUnwind || abi
            == Abi::Fastcall || abi == Abi::FastcallUnwind || abi == Abi::Thiscall || abi == Abi::ThiscallUnwind)
            ==> (spec_abi_available(abi, arch) <==> arch == Arch::X86),
        (abi == Abi::Sysv64 || abi == Abi::Sysv64Unwind || abi == Abi::Win64 || abi == Abi::Win64Unwind) ==> (
        spec_abi_available(abi, arch) <==> arch == Arch::X86_64),
        (abi == Abi::Aapcs || abi == Abi::AapcsUnwind) ==> (spec_abi_available(abi, arch) <==> arch == Arch::Arm),
        abi == Abi::Efiapi ==> (spec_abi_available(abi, arch) <==> arch != Arch::Other),
{
}

/// Function pointers exist for an available calling convention, at most twelve
/// sized parameters and a sized return type. They are pointer-aligned with
/// invalid values and a guaranteed niche, and their layout is stable exactly
/// for a non-Rust convention whose return type and every parameter are stable.
pub proof fn lemma_function_pointer_class(abi: Abi, arch: Arch, args: Seq<RustSpec>, ret: RustSpec)
    ensures
        spec_function_pointer(abi, arch, args, ret) is Some <==> (spec_abi_available(abi, arch) && args.len() <= 12
            && ret.size is Sized && forall|i: int| 0 <= i < args.len() ==> #[trigger] args[i].size is Sized),
        spec_function_pointer(abi, arch, args, ret) matches Some(f) ==> {
            &&& (f.layout == Stability::Stable <==> (abi != Abi::Rust && ret.layout == Stability::Stable && forall|
                i: int,
            |
                0 <= i < args.len() ==> #[trigger] args[i].layout == Stability::Stable))
            &&& f.trap == Trap::NonRobust
            &&& f.size == Size::Sized(Sizedness::NonZero)
            &&& f.alignment == Alignment::GtOne
            &&& f.niche == Niche::WithNiche(Stability::Stable)
            &&& f.mutability == Mutability::Exclusive
            &&& f.indirect_trap == Trap::Robust
        },
{
    if !crate::primitives::all_sized(args) {
        let i = choose|i: int| 0 <= i < args.len() && !#[trigger] args[i].size.is_sized();
        assert(!(args[i].size is Sized));
    }
    if forall|i: int| 0 <= i < args.len() ==> #[trigger] args[i].size is Sized {
        assert forall|i: int| 0 <= i < args.len() implies #[trigger] args[i].size.is_sized() by {
            assert(args[i].size is Sized);
        }
    }
}

/// The primitive integer type that a tag type is.
pub open spec fn tag_primitive(tag: Tag) -> Primitive {
    match tag {
        Tag::U8 => Primitive::U8,
        Tag::I8 => Primitive::I8,
        Tag::U16 => Primitive::U16,
        Tag::I16 => Primitive::I16,
        Tag::U32 => Primitive::U32,
        Tag::I32 => Primitive::I32,
        Tag::U64 => Primitive::U64,
        Tag::I64 => Primitive::I64,
        Tag::Usize => Primitive::Usize,
    }
}

/// A tag is aligned as the integer type it is: one byte exactly for `u8` and
/// `i8`, more for every wider tag.
pub proof fn lemma_tag_alignment(tag: Tag)
    ensures
        tag.alignment() == spec_primitive(tag_primitive(tag)).alignment,
        tag.alignment() == Alignment::One <==> (tag == Tag::U8 || tag == Tag::I8),
{
}

/// The tag of a Rust-representation enum is the smallest unsigned type that
/// numbers its variants.
pub proof fn lemma_infer_repr(n: nat)
    ensures
        spec_infer_repr(n) == Tag::U8 <==> n <= 256,
        spec_infer_repr(n) == Tag::U16 <==> (256 < n && n <= 65536),
        spec_infer_repr(n) == Tag::U32 <==> (65536 < n && n <= 4294967296),
        spec_infer_repr(n) == Tag::U64 <==> 4294967296 < n,
{
}

/// Size of the first `n` fields of an aggregate: undefined exactly when two
/// of them are dynamically sized; zero-sized exactly when all are; non-zero
/// statically sized exactly when all are sized and one is non-zero-sized;
/// otherwise the shape of the one dynamically sized field.
pub proof fn lemma_combined_size(env: Seq<RustSpec>, n: nat)
    requires
        n <= env.len(),
    ensures
        combined_size(env, n) is None <==> exists|i: int, j: int|
            #![trigger env[i], env[j]]
            0 <= i < j < n && !(env[i].size is Sized) && !(env[j].size is Sized),
        combined_size(env, n) == Some(Size::Sized(Sizedness::Zero)) <==> forall|i: int|
            0 <= i < n ==> #[trigger] env[i].size == Size::Sized(Sizedness::Zero),
        combined_size(env, n) == Some(Size::Sized(Sizedness::NonZero)) <==> ((forall|i: int|
            0 <= i < n ==> #[trigger] env[i].size is Sized) && exists|i: int|
            0 <= i < n && #[trigger] env[i].size == Size::Sized(Sizedness::NonZero)),
        forall|i: int|
            0 <= i < n && !(#[trigger] env[i].size is Sized) ==> (combined_size(env, n) is None || combined_size(
                env,
                n,
            ) == Some(env[i].size)),
    decreases n,
{
    if n > 0 {
        let m = (n - 1) as nat;
        lemma_combined_size(env, m);
        let last = env[m as int].size;
        if exists|i: int, j: int| #![trigger env[i], env[j]] 0 <= i < j < n && !(env[i].size is Sized) && !(env[j].size is Sized) {
            let (i, j) = choose|i: int, j: int| #![trigger env[i], env[j]] 0 <= i < j < n && !(env[i].size is Sized) && !(env[j].size is Sized);
            if j < m {
                assert(combined_size(env, m) is None);
            } else {
                assert(!(env[i].size is Sized));
            }
        }
        if combined_size(env, n) is None && combined_size(env, m) is Some {
            let j = m as int;
            assert(!(last is Sized));
            let s = combined_size(env, m).unwrap();
            assert(!(s is Sized));
            if forall|i: int| 0 <= i < m ==> #[trigger] env[i].size is Sized {
                assert(combined_size(env, m) == Some(Size::Sized(Sizedness::Zero)) || combined_size(env, m) == Some(
                    Size::Sized(Sizedness::NonZero),
                )) by {
                    if exists|i: int| 0 <= i < m && #[trigger] env[i].size == Size::Sized(Sizedness::NonZero) {
                    } else {
                        assert forall|i: int| 0 <= i < m implies #[trigger] env[i].size == Size::Sized(Sizedness::Zero) by {
                            assert(env[i].size is Sized);
                        }
                    }
                }
            }
            let i = choose|i: int| 0 <= i < m && !(#[trigger] env[i].size is Sized);
            assert(0 <= i < j < n && !(env[i].size is Sized) && !(env[j].size is Sized));
        }
        if forall|i: int| 0 <= i < n ==> #[trigger] env[i].size == Size::Sized(Sizedness::Zero) {
            assert(env[m as int].size == Size::Sized(Sizedness::Zero));
        }
        if combined_size(env, n) == Some(Size::Sized(Sizedness::Zero)) {
            assert forall|i: int| 0 <= i < n implies #[trigger] env[i].size == Size::Sized(Sizedness::Zero) by {
                if i < m {
                    assert(combined_size(env, m) == Some(Size::Sized(Sizedness::Zero)));
                }
            }
        }
        if combined_size(env, n) == Some(Size::Sized(Sizedness::NonZero)) {
            assert forall|i: int| 0 <= i < n implies #[trigger] env[i].size is Sized by {
                if i < m {
                    let s = combined_size(env, m).unwrap();
                    assert(s is Sized);
                }
            }
            if env[m as int].size != Size::Sized(Sizedness::NonZero) {
                assert(combined_size(env, m) == Some(Size::Sized(Sizedness::NonZero)));
                let w = choose|i: int| 0 <= i < m && #[trigger] env[i].size == Size::Sized(Sizedness::NonZero);
                assert(env[w].size == Size::Sized(Sizedness::NonZero));
            }
        }
        if (forall|i: int| 0 <= i < n ==> #[trigger] env[i].size is Sized) && exists|i: int|
            0 <= i < n && #[trigger] env[i].size == Size::Sized(Sizedness::NonZero) {
            let w = choose|i: int| 0 <= i < n && #[trigger] env[i].size == Size::Sized(Sizedness::NonZero);
            assert(env[m as int].size is Sized);
            assert forall|i: int| 0 <= i < m implies #[trigger] env[i].size is Sized by {
                assert(env[i].size is Sized);
            }
            if w < m {
                assert(combined_size(env, m) == Some(Size::Sized(Sizedness::NonZero)));
            } else {
                assert(combined_size(env, m) is Some);
            }
        }
        assert forall|i: int| 0 <= i < n && !(#[trigger] env[i].size is Sized) implies (combined_size(env, n) is None
            || combined_size(env, n) == Some(env[i].size)) by {
            if i < m {
                if combined_size(env, m) is Some && last is Sized {
                    assert(combined_size(env, m) == Some(env[i].size));
                }
            } else if combined_size(env, m) is Some {
                let s = combined_size(env, m).unwrap();
                if !(s is Sized) {
                    assert(combined_size(env, n) is None);
                }
            }
        }
    }
}

/// A struct-like item exists unless two of its fields are dynamically sized.
/// Its layout is stable exactly with a `repr` and every field stable; it is
/// robust, and reaches no trap values, exactly when every field does; its size
/// is that of the fields together; it is over-aligned exactly when a field is
/// or `#[repr(align(N))]` has `N > 1`. A custom niche is an unguaranteed one;
/// a transparent item keeps its single field's niche; otherwise it has a niche
/// exactly when some field does, and never a guaranteed one. It has its single
/// field's mutability and is exclusive with any other number of fields.
pub proof fn lemma_struct_class(repr: Option<ReprKind>, align: Option<usize>, custom_niche: bool, env: Seq<RustSpec>)
    ensures
        struct_classification(repr, align, custom_niche, env) is None <==> exists|i: int, j: int|
            #![trigger env[i], env[j]]
            0 <= i < j < env.len() && !(env[i].size is Sized) && !(env[j].size is Sized),
        struct_classification(repr, align, custom_niche, env) matches Some(c) ==> {
            &&& (c.layout == Stability::Stable <==> (repr is Some && forall|i: int|
                0 <= i < env.len() ==> #[trigger] env[i].layout == Stability::Stable))
            &&& (c.trap == Trap::Robust <==> forall|i: int|
                0 <= i < env.len() ==> #[trigger] env[i].trap == Trap::Robust)
            &&& (c.size == Size::Sized(Sizedness::Zero) <==> forall|i: int|
                0 <= i < env.len() ==> #[trigger] env[i].size == Size::Sized(Sizedness::Zero))
            &&& (c.size == Size::Sized(Sizedness::NonZero) <==> ((forall|i: int|
                0 <= i < env.len() ==> #[trigger] env[i].size is Sized) && exists|i: int|
                0 <= i < env.len() && #[trigger] env[i].size == Size::Sized(Sizedness::NonZero)))
            &&& (forall|i: int| 0 <= i < env.len() && !(#[trigger] env[i].size is Sized) ==> c.size == env[i].size)
            &&& (c.alignment == Alignment::GtOne <==> ((exists|i: int|
                0 <= i < env.len() && #[trigger] env[i].alignment == Alignment::GtOne) || (align matches Some(a)
                && a > 1)))
            &&& (custom_niche ==> c.niche == Niche::WithNiche(Stability::Unstable))
            &&& (!custom_niche && repr == Some(ReprKind::Transparent) && env.len() == 1 ==> c.niche == env[0].niche)
            &&& (!custom_niche && !(repr == Some(ReprKind::Transparent) && env.len() == 1) ==> {
                &&& (c.niche == Niche::WithoutNiche <==> forall|i: int|
                    0 <= i < env.len() ==> #[trigger] env[i].niche == Niche::WithoutNiche)
                &&& c.niche != Niche::WithNiche(Stability::Stable)
            })
            &&& (env.len() == 1 ==> c.mutability == env[0].mutability)
            &&& (env.len() != 1 ==> c.mutability == Mutability::Exclusive)
            &&& (c.indirect_trap == Trap::Robust <==> forall|i: int|
                0 <= i < env.len() ==> #[trigger] env[i].indirect_trap == Trap::Robust)
        },
{
    lemma_combined_size(env, env.len());
}

/// Number of values of each tag type: 2^8 for the one-byte tags, 2^16 and 2^32
/// for the two- and four-byte ones; left open for the wider ones.
pub proof fn lemma_tag_capacity(tag: Tag)
    ensures
        tag.capacity() == Some(256nat) <==> (tag == Tag::U8 || tag == Tag::I8),
        tag.capacity() == Some(65536nat) <==> (tag == Tag::U16 || tag == Tag::I16),
        tag.capacity() == Some(4294967296nat) <==> (tag == Tag::U32 || tag == Tag::I32),
        tag.capacity() is None <==> (tag == Tag::U64 || tag == Tag::I64 || tag == Tag::Usize),
{
}

/// An enum of `n` variants has tag values that name no variant unless its tag
/// type has exactly `n` values: without a `repr` the tag is the smallest
/// unsigned type that fits, so it is exact for 2^8, 2^16 and 2^32 variants;
/// a transparent enum or a `#[repr(C)]` one without an explicit tag type has
/// no such values.
pub proof fn lemma_enum_trap_tags(repr: Option<ReprKind>, n: nat)
    ensures
        repr is None ==> (!enum_has_trap_tag_values(repr, n) <==> (n == 256 || n == 65536 || n == 4294967296)),
        (repr == Some(ReprKind::Transparent) || repr == Some(ReprKind::C(None))) ==> !enum_has_trap_tag_values(
            repr,
            n,
        ),
        forall|t: Tag|
            (repr == Some(ReprKind::Primitive(t)) || repr == Some(ReprKind::C(Some(t)))) ==> (
            !enum_has_trap_tag_values(repr, n) <==> (((t == Tag::U8 || t == Tag::I8) && n == 256) || ((t == Tag::U16
                || t == Tag::I16) && n == 65536) || ((t == Tag::U32 || t == Tag::I32) && n == 4294967296))),
{
}

/// An enum with a tag is non-zero-sized; its layout is stable exactly with a
/// stable `repr` and every field stable; it is robust exactly when no tag
/// value is invalid and every field is robust, and has an unguaranteed niche
/// exactly when some tag value is invalid; it is over-aligned exactly when a
/// field is, the tag is wider than a byte or `#[repr(align(N))]` has `N > 1`;
/// a single-variant payload of one field keeps that field's mutability.
pub proof fn lemma_tagged_enum_class(
    stable_repr: bool,
    align: Option<usize>,
    tag: Option<Tag>,
    traps: bool,
    single_variant_payload: bool,
    env: Seq<RustSpec>,
)
    ensures
        ({
            let c = tagged_enum_classification(stable_repr, align, tag, traps, single_variant_payload, env);
            &&& (c.layout == Stability::Stable <==> (stable_repr && forall|i: int|
                0 <= i < env.len() ==> #[trigger] env[i].layout == Stability::Stable))
            &&& (c.trap == Trap::Robust <==> (!traps && forall|i: int|
                0 <= i < env.len() ==> #[trigger] env[i].trap == Trap::Robust))
            &&& c.size == Size::Sized(Sizedness::NonZero)
            &&& (c.alignment == Alignment::GtOne <==> ((exists|i: int|
                0 <= i < env.len() && #[trigger] env[i].alignment == Alignment::GtOne) || (tag matches Some(t) && t
                != Tag::U8 && t != Tag::I8) || (align matches Some(a) && a > 1)))
            &&& (c.niche == Niche::WithNiche(Stability::Unstable) <==> traps)
            &&& (c.niche == Niche::WithoutNiche <==> !traps)
            &&& (single_variant_payload && env.len() == 1 ==> c.mutability == env[0].mutability)
            &&& (!(single_variant_payload && env.len() == 1) ==> c.mutability == Mutability::Exclusive)
            &&& (c.indirect_trap == Trap::Robust <==> forall|i: int|
                0 <= i < env.len() ==> #[trigger] env[i].indirect_trap == Trap::Robust)
        }),
{
}

/// A `#[repr(C)]` enum with data is as wide as the target's C `enum`: its tag
/// is one, two or four bytes, it has invalid tag values unless that width
/// numbers exactly its variants, and it is over-aligned on every target whose
/// C `enum` is wider than a byte.
pub proof fn lemma_plain_c_enum_class(target: Target, align: Option<usize>, n: nat, env: Seq<RustSpec>)
    ensures
        ({
            let c = plain_c_enum_classification(target, align, n, env);
            &&& (target == Target::EightBitCEnum ==> (c.trap == Trap::NonRobust <==> (n != 256 || exists|i: int|
                0 <= i < env.len() && #[trigger] env[i].trap == Trap::NonRobust)))
            &&& (target == Target::SixteenBitCEnum ==> (c.trap == Trap::NonRobust <==> (n != 65536 || exists|i: int|
                0 <= i < env.len() && #[trigger] env[i].trap == Trap::NonRobust)))
            &&& ((target == Target::All || target == Target::ThirtyTwoBitCEnum) ==> (c.trap == Trap::NonRobust
                <==> (n != 4294967296 || exists|i: int|
                0 <= i < env.len() && #[trigger] env[i].trap == Trap::NonRobust)))
            &&& (target != Target::EightBitCEnum ==> c.alignment == Alignment::GtOne)
            &&& (c.layout == Stability::Stable <==> forall|i: int|
                0 <= i < env.len() ==> #[trigger] env[i].layout == Stability::Stable)
            &&& c.mutability == Mutability::Exclusive
        }),
{
}

/// An enum of `n` unit variants is stable exactly with a `repr`; it is
/// zero-sized exactly when it needs no tag (no variant, or one variant
/// without an explicit tag type); its tag values name no variant unless the
/// tag type has exactly `n` values, and then it is neither robust nor without
/// a niche; it is over-aligned exactly when its tag is wider than a byte or
/// `#[repr(align(N))]` has `N > 1`. It is exclusive and reaches nothing.
pub proof fn lemma_fieldless_enum_class(repr: Option<ReprKind>, align: Option<usize>, n: nat)
    ensures
        ({
            let c = fieldless_enum_classification(repr, align, n);
            &&& (c.layout == Stability::Stable <==> repr is Some)
            &&& c.size is Sized
            &&& (c.size == Size::Sized(Sizedness::Zero) <==> (n == 0 || (n == 1 && (repr is None || repr == Some(
                ReprKind::Transparent,
            )))))
            &&& (repr is None ==> (c.trap == Trap::NonRobust <==> (n > 1 && n != 256 && n != 65536 && n
                != 4294967296)))
            &&& (repr == Some(ReprKind::Transparent) ==> c.trap == Trap::Robust)
            &&& (forall|t: Tag|
                (repr == Some(ReprKind::Primitive(t)) || repr == Some(ReprKind::C(Some(t)))) ==> (c.trap
                    == Trap::NonRobust <==> (n > 0 && !(((t == Tag::U8 || t == Tag::I8) && n == 256) || ((t
                    == Tag::U16 || t == Tag::I16) && n == 65536) || ((t == Tag::U32 || t == Tag::I32) && n
                    == 4294967296)))))
            &&& (c.niche == Niche::WithNiche(Stability::Unstable) <==> c.trap == Trap::NonRobust)
            &&& (c.niche == Niche::WithoutNiche <==> c.trap == Trap::Robust)
            &&& ((repr is None || repr == Some(ReprKind::Transparent)) ==> (
            c.alignment == Alignment::GtOne <==> (n > 256 || (align matches Some(a) && a > 1))))
            &&& (forall|t: Tag|
                (repr == Some(ReprKind::Primitive(t)) || repr == Some(ReprKind::C(Some(t)))) ==> (c.alignment
                    == Alignment::GtOne <==> ((n > 0 && t != Tag::U8 && t != Tag::I8) || (align matches Some(a) && a
                    > 1))))
            &&& c.mutability == Mutability::Exclusive
            &&& c.indirect_trap == Trap::Robust
        }),
{
    lemma_infer_repr(n);
}

/// A union that is not transparent exists unless two of its fields are
/// dynamically sized; it is stable exactly with a `repr` and every field
/// stable, robust exactly with a `repr`, over-aligned exactly when a field is
/// or `#[repr(align(N))]` has `N > 1`; it has no niche, is exclusive and
/// reaches nothing.
pub proof fn lemma_union_class(repr: Option<ReprKind>, align: Option<usize>, env: Seq<RustSpec>)
    ensures
        union_classification(repr, align, env) is None <==> exists|i: int, j: int|
            #![trigger env[i], env[j]]
            0 <= i < j < env.len() && !(env[i].size is Sized) && !(env[j].size is Sized),
        union_classification(repr, align, env) matches Some(c) ==> {
            &&& (c.layout == Stability::Stable <==> (repr is Some && forall|i: int|
                0 <= i < env.len() ==> #[trigger] env[i].layout == Stability::Stable))
            &&& (c.trap == Trap::Robust <==> repr is Some)
            &&& (c.size == Size::Sized(Sizedness::Zero) <==> forall|i: int|
                0 <= i < env.len() ==> #[trigger] env[i].size == Size::Sized(Sizedness::Zero))
            &&& (c.size == Size::Sized(Sizedness::NonZero) <==> ((forall|i: int|
                0 <= i < env.len() ==> #[trigger] env[i].size is Sized) && exists|i: int|
                0 <= i < env.len() && #[trigger] env[i].size == Size::Sized(Sizedness::NonZero)))
            &&& (forall|i: int| 0 <= i < env.len() && !(#[trigger] env[i].size is Sized) ==> c.size == env[i].size)
            &&& (c.alignment == Alignment::GtOne <==> ((exists|i: int|
                0 <= i < env.len() && #[trigger] env[i].alignment == Alignment::GtOne) || (align matches Some(a)
                && a > 1)))
            &&& c.niche == Niche::WithoutNiche
            &&& c.mutability == Mutability::Exclusive
            &&& c.indirect_trap == Trap::Robust
        },
{
    lemma_combined_size(env, env.len());
}

/// The tag of an enum with data is the type its `repr` names, or without a
/// `repr` the smallest unsigned type that numbers its variants; a
/// transparent enum and a `#[repr(C)]` one without a tag type have no tag of
/// their own. Only a Rust-representation or transparent enum of a single
/// variant keeps that variant's payload mutability.
pub proof fn lemma_enum_tag(repr: Option<ReprKind>, n: nat)
    ensures
        forall|t: Tag|
            (repr == Some(ReprKind::Primitive(t)) || repr == Some(ReprKind::C(Some(t)))) ==> enum_tag(repr, n) == Some(t),
        repr is None ==> enum_tag(repr, n) == Some(spec_infer_repr(n)),
        repr is None ==> (enum_tag(repr, n) == Some(Tag::U8) <==> n <= 256),
        (repr == Some(ReprKind::Transparent) || repr == Some(ReprKind::C(None))) ==> enum_tag(repr, n) is None,
        enum_keeps_payload_mutability(repr, n) <==> (n == 1 && (repr is None || repr == Some(ReprKind::Transparent))),
{
    lemma_infer_repr(n);
}

} // verus!
