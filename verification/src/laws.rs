//! Properties that the classification rules promise as a whole.
use vstd::prelude::*;

use crate::core_impls::{spec_core_type, spec_unsafe_cell, spec_vec, CoreType};
use crate::derive::generate::{
    fieldless_enum_classification, raises_alignment, struct_classification, tagged_enum_classification,
    union_classification,
};
use crate::derive::repr::ReprKind;
use crate::layout::Trap;
use crate::mutability::Mutability;
use crate::niche::Niche;
use crate::pointers::{is_one_zst, spec_boxed, spec_option, spec_reference, spec_result};
use crate::primitives::{spec_array, spec_raw_pointer, MAX_ARRAY_LEN};
use crate::size::{Size, Sizedness};
use crate::{all_robust, all_stable, any_over_aligned, Alignment, RustSpec, Stability};

verus! {

/// Niches of pointers: `&R`, `&mut R` and `Box<R>` to a thin referent have a
/// compiler-guaranteed niche; references and boxes of metadata-sized
/// referents, and `Vec<R>`, have a niche that is not guaranteed.
pub proof fn lemma_pointer_niches(referent: RustSpec)
    ensures
        referent.size.is_thin() ==> spec_reference(referent).niche == Niche::WithNiche(Stability::Stable),
        referent.size.is_sized() ==> (spec_boxed(referent) matches Some(b) && b.niche == Niche::WithNiche(Stability::Stable)),
        referent.size is MetaSized ==> spec_reference(referent).niche == Niche::WithNiche(Stability::Unstable),
        referent.size is MetaSized ==> (spec_boxed(referent) matches Some(b) && b.niche == Niche::WithNiche(Stability::Unstable)),
        referent.size.is_sized() ==> (spec_vec(referent) matches Some(v) && v.niche == Niche::WithNiche(Stability::Unstable)),
{
}

/// Niche of a non-empty array `[R; N]`: a guaranteed niche of `R` is no longer
/// guaranteed, an unguaranteed niche stays, and no niche stays none.
pub proof fn lemma_array_niche(element: RustSpec, len: usize)
    requires
        element.size.is_sized(),
        0 < len <= MAX_ARRAY_LEN,
    ensures
        spec_array(element, len) matches Some(a) && a.niche == match element.niche {
            Niche::WithoutNiche => Niche::WithoutNiche,
            Niche::WithNiche(_) => Niche::WithNiche(Stability::Unstable),
        },
{
}

/// Niche of `Option<R>`: no niche of `R` gives an unguaranteed niche; a
/// guaranteed niche of `R` is used up, leaving none; an unguaranteed niche
/// stays unguaranteed.
pub proof fn lemma_option_niche(payload: RustSpec)
    requires
        payload.size.is_sized(),
    ensures
        spec_option(payload) matches Some(o) && o.niche == match payload.niche {
            Niche::WithoutNiche => Niche::WithNiche(Stability::Unstable),
            Niche::WithNiche(Stability::Stable) => Niche::WithoutNiche,
            Niche::WithNiche(Stability::Unstable) => Niche::WithNiche(Stability::Unstable),
        },
{
}

/// Robustness of derived items: a struct-like item is robust exactly when
/// every field is; an enum with a tag is robust exactly when every field is
/// and every tag value names a variant; a union is robust exactly when it has
/// a `repr`.
pub proof fn lemma_derived_trap(
    repr: Option<ReprKind>,
    align: Option<usize>,
    custom_niche: bool,
    env: Seq<RustSpec>,
    tag: Option<crate::derive::repr::Tag>,
    traps: bool,
    single_variant_payload: bool,
)
    ensures
        struct_classification(repr, align, custom_niche, env) matches Some(c) ==> (c.trap == Trap::Robust
            <==> all_robust(env)),
        tagged_enum_classification(repr is Some, align, tag, traps, single_variant_payload, env).trap
            == Trap::Robust <==> (!traps && all_robust(env)),
        union_classification(repr, align, env) matches Some(c) ==> (c.trap == Trap::Robust <==> repr is Some),
{
}

/// Alignment of derived items: more than one byte exactly when a field, the
/// tag or `#[repr(align(N))]` with `N > 1` asks for it.
pub proof fn lemma_derived_alignment(
    repr: Option<ReprKind>,
    align: Option<usize>,
    custom_niche: bool,
    env: Seq<RustSpec>,
    tag: Option<crate::derive::repr::Tag>,
    traps: bool,
    single_variant_payload: bool,
)
    ensures
        struct_classification(repr, align, custom_niche, env) matches Some(c) ==> (c.alignment
            == Alignment::GtOne <==> (any_over_aligned(env) || raises_alignment(align))),
        tagged_enum_classification(repr is Some, align, tag, traps, single_variant_payload, env).alignment
            == Alignment::GtOne <==> (any_over_aligned(env) || (tag matches Some(t) && t.alignment()
            == Alignment::GtOne) || raises_alignment(align)),
{
}

/// `Option<T>` laid out as `T` (when `T` has a guaranteed niche) keeps `T`'s
/// layout, alignment and mutability, and its robustness is what `T` reaches
/// through its pointers; otherwise it is an unstable, exclusive tagged
/// wrapper with trap values.
pub proof fn lemma_option_layout(payload: RustSpec)
    requires
        payload.size.is_sized(),
    ensures
        spec_option(payload) matches Some(o) && o.alignment == payload.alignment && o.indirect_trap
            == payload.indirect_trap && if payload.niche == Niche::WithNiche(Stability::Stable) {
            o.layout == payload.layout && o.mutability == payload.mutability && o.trap == payload.indirect_trap
        } else {
            o.layout == Stability::Unstable && o.mutability == Mutability::Exclusive && o.trap == Trap::NonRobust
        },
{
}

/// A `#[repr(transparent)]` item around a single field, without
/// `#[repr(align(..))]` or a custom niche, is classified exactly as its field.
pub proof fn lemma_transparent_is_field(field: RustSpec)
    ensures
        struct_classification(Some(ReprKind::Transparent), None, false, seq![field]) == Some(field),
{
    let env = seq![field];
    assert(crate::derive::family::combined_size(env, 1) == Some(field.size)) by {
        reveal_with_fuel(crate::derive::family::combined_size, 2);
    }
    assert(all_stable(env) <==> field.layout == Stability::Stable);
    assert(all_robust(env) <==> field.trap == Trap::Robust);
    assert(any_over_aligned(env) <==> field.alignment == Alignment::GtOne);
    assert(crate::all_indirectly_robust(env) <==> field.indirect_trap == Trap::Robust);
}

/// `Result<T, Z>` and `Result<Z, T>` for a non-zero-sized `T` and a
/// one-byte-aligned ZST `Z` are classified exactly as `Option<T>`.
pub proof fn lemma_result_with_zst_is_option(payload: RustSpec, zst: RustSpec)
    requires
        payload.size == Size::Sized(Sizedness::NonZero),
        is_one_zst(zst),
    ensures
        spec_result(payload, zst) == spec_option(payload),
        spec_result(zst, payload) == spec_option(payload),
{
}

/// Layout and robustness through pointers: references and boxes of a thin
/// referent keep the referent's layout stability and reach its trap values,
/// while raw pointers and `NonNull` are stable and robust through their
/// pointee whatever it is.
pub proof fn lemma_pointers_follow_pointee(referent: RustSpec)
    ensures
        referent.size.is_thin() ==> spec_reference(referent).layout == referent.layout,
        spec_reference(referent).indirect_trap == referent.trap,
        referent.size.is_sized() ==> (spec_boxed(referent) matches Some(b) && b.layout == referent.layout
            && b.indirect_trap == referent.trap),
        spec_raw_pointer().layout == Stability::Stable,
        spec_raw_pointer().indirect_trap == Trap::Robust,
        spec_core_type(CoreType::NonNull).layout == Stability::Stable,
        spec_core_type(CoreType::NonNull).indirect_trap == Trap::Robust,
{
}

/// Mutability through wrappers: references propagate the referent's
/// mutability, boxes too when the content is sized; boxes of unsized content,
/// raw pointers, `NonNull` and `Vec` are exclusive; `Option<T>` keeps `T`'s
/// mutability when it is laid out as `T` and is exclusive otherwise; a cell
/// is wholly interior-mutable.
pub proof fn lemma_mutability_through_wrappers(inner: RustSpec)
    ensures
        spec_reference(inner).mutability == inner.mutability,
        inner.size.is_sized() ==> (spec_boxed(inner) matches Some(b) && b.mutability == inner.mutability),
        inner.size is MetaSized ==> (spec_boxed(inner) matches Some(b) && b.mutability == Mutability::Exclusive),
        spec_raw_pointer().mutability == Mutability::Exclusive,
        spec_core_type(CoreType::NonNull).mutability == Mutability::Exclusive,
        inner.size.is_sized() ==> (spec_vec(inner) matches Some(v) && v.mutability == Mutability::Exclusive),
        inner.size.is_sized() ==> (spec_option(inner) matches Some(o) && o.mutability == if inner.niche
            == Niche::WithNiche(Stability::Stable) {
            inner.mutability
        } else {
            Mutability::Exclusive
        }),
        spec_unsafe_cell(inner).mutability == Mutability::Interior,
{
}

/// Mutability of derived items: a struct-like item is wholly
/// interior-mutable exactly when it has a single field that is; tagged enums
/// whose payload is not the single variant's field, fieldless enums and
/// unions are exclusive.
pub proof fn lemma_derived_mutability(
    repr: Option<ReprKind>,
    align: Option<usize>,
    custom_niche: bool,
    env: Seq<RustSpec>,
    tag: Option<crate::derive::repr::Tag>,
    traps: bool,
    num_variants: nat,
)
    ensures
        struct_classification(repr, align, custom_niche, env) matches Some(c) ==> (c.mutability
            == Mutability::Interior <==> (env.len() == 1 && env[0].mutability == Mutability::Interior)),
        tagged_enum_classification(repr is Some, align, tag, traps, false, env).mutability == Mutability::Exclusive,
        fieldless_enum_classification(repr, align, num_variants).mutability == Mutability::Exclusive,
        union_classification(repr, align, env) matches Some(c) ==> c.mutability == Mutability::Exclusive,
{
}

/// Layout of derived items: a Rust-representation struct is unstable; with a
/// `repr` it is stable exactly when every field is.
pub proof fn lemma_derived_layout(repr: Option<ReprKind>, align: Option<usize>, custom_niche: bool, env: Seq<RustSpec>)
    ensures
        struct_classification(repr, align, custom_niche, env) matches Some(c) ==> (c.layout == Stability::Stable
            <==> (repr is Some && all_stable(env))),
        union_classification(repr, align, env) matches Some(c) ==> (c.layout == Stability::Stable <==> (repr is Some
            && all_stable(env))),
        fieldless_enum_classification(repr, align, env.len()).layout == if repr is None {
            Stability::Unstable
        } else {
            Stability::Stable
        },
{
}

/// `#[repr(align(N))]` with `N > 1` makes every derived item aligned to more
/// than one byte.
pub proof fn lemma_repr_align_raises(
    repr: Option<ReprKind>,
    custom_niche: bool,
    env: Seq<RustSpec>,
    align: usize,
    num_variants: nat,
)
    requires
        align > 1,
    ensures
        struct_classification(repr, Some(align), custom_niche, env) matches Some(c) ==> c.alignment
            == Alignment::GtOne,
        union_classification(repr, Some(align), env) matches Some(c) ==> c.alignment == Alignment::GtOne,
        fieldless_enum_classification(repr, Some(align), num_variants).alignment == Alignment::GtOne,
{
}

/// A derived item without fields is robust, reaches no trap values, has no
/// niche unless it asks for a custom one, and is exclusive.
pub proof fn lemma_empty_struct(repr: Option<ReprKind>, align: Option<usize>, custom_niche: bool, env: Seq<RustSpec>)
    requires
        env.len() == 0,
    ensures
        struct_classification(repr, align, custom_niche, env) matches Some(c) && c.trap == Trap::Robust
            && c.indirect_trap == Trap::Robust && c.mutability == Mutability::Exclusive && c.size == Size::Sized(
            Sizedness::Zero,
        ) && (c.niche == Niche::WithoutNiche <==> !custom_niche),
{
    assert(crate::derive::family::combined_size(env, 0) == Some(Size::Sized(Sizedness::Zero)));
}

/// References, boxes, `Option` and `Result` are always statically sized and
/// non-zero-sized.
pub proof fn lemma_wrappers_are_sized(inner: RustSpec, other: RustSpec)
    ensures
        spec_reference(inner).size == Size::Sized(Sizedness::NonZero),
        spec_boxed(inner) matches Some(b) ==> b.size == Size::Sized(Sizedness::NonZero),
        spec_option(inner) matches Some(o) ==> o.size == Size::Sized(Sizedness::NonZero),
        spec_result(inner, other) matches Some(r) ==> r.size == Size::Sized(Sizedness::NonZero),
{
}

} // verus!
