#![allow(unused_imports)]
use rust_spec::core_impls::{core_type, non_zero, transparent_wrapper, unsafe_cell, vector, CoreType};
use rust_spec::derive::expand::{expand, Data, DeriveInput};
use rust_spec::derive::family::Field;
use rust_spec::derive::generate::{Target, Variant};
use rust_spec::derive::repr::{RawReprToken, ReprAttr};
use rust_spec::layout::Trap;
use rust_spec::mutability::Mutability;
use rust_spec::niche::Niche;
use rust_spec::pointers::{boxed, option, reference, result};
use rust_spec::primitives::{
    array, fieldless_primitive, function_pointer, primitive, raw_pointer, slice, Abi, Arch, FieldlessPrimitive,
    Primitive,
};
use rust_spec::size::{Metadata, Size, Sizedness};
use rust_spec::tuple::tuple;
use rust_spec::{Alignment, RustSpec, Stability};

/// A field whose type names no type parameter of the item.
fn concrete() -> Field {
    Field { has_type_params: false, hrtb_bounds: 0 }
}

/// A field whose type names a type parameter of the item.
fn generic() -> Field {
    Field { has_type_params: true, hrtb_bounds: 0 }
}

/// `#[repr(..)]` with the given words; `align(n)` is written `("align", Some(n))`.
fn repr(words: &[(&str, Option<usize>)]) -> Vec<ReprAttr> {
    let tokens = words
        .iter()
        .map(|(word, value)| RawReprToken::Ident {
            word: word.to_string(),
            group: value.map(Some),
            trailing: false,
        })
        .collect();
    vec![ReprAttr::List(tokens)]
}

fn unit_variant() -> Variant {
    Variant { is_unit: true, fields: vec![] }
}

fn tuple_variant(fields: Vec<Field>) -> Variant {
    Variant { is_unit: false, fields }
}

/// Classification that the derive gives the item once its fields (of all
/// variants, in order) are classified as `fields`, on a target whose C enums
/// are 32 bits wide.
fn derived(repr_attrs: Vec<ReprAttr>, data: Data, fields: Vec<RustSpec>) -> RustSpec {
    let input = DeriveInput { niche_attrs: vec![], repr_attrs, data };
    let impls = expand(&input).unwrap();
    let chosen = impls
        .iter()
        .find(|generated| generated.target == Target::All || generated.target == Target::ThirtyTwoBitCEnum)
        .unwrap();
    chosen.families.evaluate(&fields).unwrap()
}

fn u8_() -> RustSpec {
    primitive(Primitive::U8)
}

fn non_zero_u8() -> RustSpec {
    non_zero(Primitive::U8).unwrap()
}

fn unit() -> RustSpec {
    core_type(CoreType::Unit)
}

fn derived_param_repr_c_zst(b: RustSpec) -> RustSpec {
    derived(vec![], Data::Struct(vec![concrete(), generic()]), vec![unit(), b])
}

fn derived_empty() -> RustSpec {
    derived(vec![], Data::Struct(vec![]), vec![])
}

fn derived_rust_struct() -> RustSpec {
    derived(vec![], Data::Struct(vec![concrete()]), vec![u8_()])
}

fn derived_non_robust_rust_repr() -> RustSpec {
    derived(vec![], Data::Struct(vec![concrete()]), vec![fieldless_primitive(FieldlessPrimitive::Bool)])
}

fn derived_repr_c_struct() -> RustSpec {
    derived(repr(&[("C", None)]), Data::Struct(vec![concrete()]), vec![u8_()])
}

/// Both projections resolve to `u8`.
fn derived_repr_c_projection_c_type_fields() -> RustSpec {
    derived(repr(&[("C", None)]), Data::Struct(vec![concrete(), concrete()]), vec![u8_(), u8_()])
}

fn derived_interior_wrapper() -> RustSpec {
    derived(
        vec![],
        Data::Struct(vec![concrete(), concrete()]),
        vec![unsafe_cell(u8_()), unsafe_cell(primitive(Primitive::U16))],
    )
}

fn derived_mixed_mutability() -> RustSpec {
    derived(vec![], Data::Struct(vec![concrete(), concrete()]), vec![unsafe_cell(u8_()), u8_()])
}

fn derived_wrapper(value: RustSpec) -> RustSpec {
    derived(vec![], Data::Struct(vec![generic()]), vec![value])
}

fn derived_pair(first: RustSpec, second: RustSpec) -> RustSpec {
    derived(repr(&[("C", None)]), Data::Struct(vec![generic(), generic()]), vec![first, second])
}

fn derived_singleton_with_niche() -> RustSpec {
    derived(vec![], Data::Struct(vec![concrete()]), vec![non_zero_u8()])
}

fn derived_transparent_with_niche() -> RustSpec {
    derived(repr(&[("transparent", None)]), Data::Struct(vec![concrete()]), vec![non_zero_u8()])
}

fn derived_transparent_with_multiple_fields() -> RustSpec {
    derived(repr(&[("transparent", None)]), Data::Struct(vec![concrete(), concrete()]), vec![unit(), non_zero_u8()])
}

fn derived_transparent_zst_struct() -> RustSpec {
    derived(repr(&[("transparent", None)]), Data::Struct(vec![]), vec![])
}

/// The field is a raw pointer, which names no classified type parameter.
fn derived_raw_pointer() -> RustSpec {
    derived(repr(&[("C", None)]), Data::Struct(vec![concrete()]), vec![raw_pointer()])
}

fn derived_bytes() -> RustSpec {
    derived(repr(&[("transparent", None)]), Data::Struct(vec![concrete()]), vec![slice(u8_()).unwrap()])
}

fn derived_packet() -> RustSpec {
    derived(vec![], Data::Struct(vec![concrete(), concrete()]), vec![non_zero_u8(), slice(u8_()).unwrap()])
}

fn derived_tuple_packet() -> RustSpec {
    derived(vec![], Data::Struct(vec![concrete(), concrete()]), vec![non_zero_u8(), slice(u8_()).unwrap()])
}

fn derived_transparent_slice(element: RustSpec) -> Option<RustSpec> {
    let input = DeriveInput {
        niche_attrs: vec![],
        repr_attrs: repr(&[("transparent", None)]),
        data: Data::Struct(vec![generic()]),
    };
    let impls = expand(&input).unwrap();
    impls[0].families.evaluate(&vec![slice(element)?])
}

fn derived_rust_union() -> RustSpec {
    derived(
        vec![],
        Data::Union(vec![concrete(), concrete()]),
        vec![u8_(), fieldless_primitive(FieldlessPrimitive::Bool)],
    )
}

fn derived_repr_c_union() -> RustSpec {
    derived(
        repr(&[("C", None)]),
        Data::Union(vec![concrete(), concrete()]),
        vec![transparent_wrapper(unsafe_cell(u8_())), u8_()],
    )
}

#[test]
fn struct_classification() {
    // ParamReprCZst<()>
    let spec = derived_param_repr_c_zst(core_type(CoreType::Unit));
    assert_eq!(spec.layout, Stability::Unstable);
    assert_eq!(spec.size, Size::Sized(Sizedness::Zero));
    assert_eq!(spec.alignment, Alignment::One);
    assert_eq!(spec.trap, Trap::Robust);
    assert_eq!(spec.niche, Niche::WithoutNiche);
    assert_eq!(spec.mutability, Mutability::Exclusive);
    assert_eq!(spec.indirect_trap, Trap::Robust);
    // ParamReprCZst<UnsafeCell<NonZeroU8>>
    let spec = derived_param_repr_c_zst(unsafe_cell(non_zero(Primitive::U8).unwrap()));
    assert_eq!(spec.layout, Stability::Unstable);
    assert_eq!(spec.size, Size::Sized(Sizedness::NonZero));
    assert_eq!(spec.alignment, Alignment::One);
    assert_eq!(spec.trap, Trap::NonRobust);
    assert_eq!(spec.niche, Niche::WithoutNiche);
    assert_eq!(spec.mutability, Mutability::Exclusive);
    assert_eq!(spec.indirect_trap, Trap::Robust);
    // ParamReprCZst<u8>
    let spec = derived_param_repr_c_zst(primitive(Primitive::U8));
    assert_eq!(spec.layout, Stability::Unstable);
    assert_eq!(spec.size, Size::Sized(Sizedness::NonZero));
    assert_eq!(spec.alignment, Alignment::One);
    assert_eq!(spec.trap, Trap::Robust);
    assert_eq!(spec.niche, Niche::WithoutNiche);
    assert_eq!(spec.mutability, Mutability::Exclusive);
    assert_eq!(spec.indirect_trap, Trap::Robust);
    // SingletonWithNiche
    let spec = derived_singleton_with_niche();
    assert_eq!(spec.layout, Stability::Unstable);
    assert_eq!(spec.size, Size::Sized(Sizedness::NonZero));
    assert_eq!(spec.alignment, Alignment::One);
    assert_eq!(spec.trap, Trap::NonRobust);
    assert_eq!(spec.niche, Niche::WithNiche(Stability::Unstable));
    assert_eq!(spec.mutability, Mutability::Exclusive);
    assert_eq!(spec.indirect_trap, Trap::Robust);
    // TransparentWithNiche
    let spec = derived_transparent_with_niche();
    assert_eq!(spec.layout, Stability::Stable);
    assert_eq!(spec.size, Size::Sized(Sizedness::NonZero));
    assert_eq!(spec.alignment, Alignment::One);
    assert_eq!(spec.trap, Trap::NonRobust);
    assert_eq!(spec.niche, Niche::WithNiche(Stability::Stable));
    assert_eq!(spec.mutability, Mutability::Exclusive);
    assert_eq!(spec.indirect_trap, Trap::Robust);
    // TransparentWithMultipleFields
    let spec = derived_transparent_with_multiple_fields();
    assert_eq!(spec.layout, Stability::Stable);
    assert_eq!(spec.size, Size::Sized(Sizedness::NonZero));
    assert_eq!(spec.alignment, Alignment::One);
    assert_eq!(spec.trap, Trap::NonRobust);
    assert_eq!(spec.niche, Niche::WithNiche(Stability::Unstable));
    assert_eq!(spec.mutability, Mutability::Exclusive);
    assert_eq!(spec.indirect_trap, Trap::Robust);
    // TransparentZstStruct
    let spec = derived_transparent_zst_struct();
    assert_eq!(spec.layout, Stability::Stable);
    assert_eq!(spec.size, Size::Sized(Sizedness::Zero));
    assert_eq!(spec.alignment, Alignment::One);
    assert_eq!(spec.trap, Trap::Robust);
    assert_eq!(spec.niche, Niche::WithoutNiche);
    assert_eq!(spec.mutability, Mutability::Exclusive);
    assert_eq!(spec.indirect_trap, Trap::Robust);
    // Empty
    let spec = derived_empty();
    assert_eq!(spec.layout, Stability::Unstable);
    assert_eq!(spec.size, Size::Sized(Sizedness::Zero));
    assert_eq!(spec.alignment, Alignment::One);
    assert_eq!(spec.trap, Trap::Robust);
    assert_eq!(spec.niche, Niche::WithoutNiche);
    assert_eq!(spec.mutability, Mutability::Exclusive);
    assert_eq!(spec.indirect_trap, Trap::Robust);
    // RustStruct
    let spec = derived_rust_struct();
    assert_eq!(spec.layout, Stability::Unstable);
    assert_eq!(spec.size, Size::Sized(Sizedness::NonZero));
    assert_eq!(spec.alignment, Alignment::One);
    assert_eq!(spec.trap, Trap::Robust);
    assert_eq!(spec.niche, Niche::WithoutNiche);
    assert_eq!(spec.mutability, Mutability::Exclusive);
    assert_eq!(spec.indirect_trap, Trap::Robust);
    // NonRobustRustRepr
    let spec = derived_non_robust_rust_repr();
    assert_eq!(spec.layout, Stability::Unstable);
    assert_eq!(spec.size, Size::Sized(Sizedness::NonZero));
    assert_eq!(spec.alignment, Alignment::One);
    assert_eq!(spec.trap, Trap::NonRobust);
    assert_eq!(spec.niche, Niche::WithNiche(Stability::Unstable));
    assert_eq!(spec.mutability, Mutability::Exclusive);
    assert_eq!(spec.indirect_trap, Trap::Robust);
    // ReprCStruct
    let spec = derived_repr_c_struct();
    assert_eq!(spec.layout, Stability::Stable);
    assert_eq!(spec.size, Size::Sized(Sizedness::NonZero));
    assert_eq!(spec.alignment, Alignment::One);
    assert_eq!(spec.trap, Trap::Robust);
    assert_eq!(spec.niche, Niche::WithoutNiche);
    assert_eq!(spec.mutability, Mutability::Exclusive);
    assert_eq!(spec.indirect_trap, Trap::Robust);
    // ReprCProjectionCTypeFields
    let spec = derived_repr_c_projection_c_type_fields();
    assert_eq!(spec.layout, Stability::Stable);
    assert_eq!(spec.size, Size::Sized(Sizedness::NonZero));
    assert_eq!(spec.alignment, Alignment::One);
    assert_eq!(spec.trap, Trap::Robust);
    assert_eq!(spec.niche, Niche::WithoutNiche);
    assert_eq!(spec.mutability, Mutability::Exclusive);
    assert_eq!(spec.indirect_trap, Trap::Robust);
    // InteriorWrapper
    let spec = derived_interior_wrapper();
    assert_eq!(spec.layout, Stability::Unstable);
    assert_eq!(spec.size, Size::Sized(Sizedness::NonZero));
    assert_eq!(spec.alignment, Alignment::GtOne);
    assert_eq!(spec.trap, Trap::Robust);
    assert_eq!(spec.niche, Niche::WithoutNiche);
    assert_eq!(spec.mutability, Mutability::Exclusive);
    assert_eq!(spec.indirect_trap, Trap::Robust);
    // MixedMutability
    let spec = derived_mixed_mutability();
    assert_eq!(spec.layout, Stability::Unstable);
    assert_eq!(spec.size, Size::Sized(Sizedness::NonZero));
    assert_eq!(spec.alignment, Alignment::One);
    assert_eq!(spec.trap, Trap::Robust);
    assert_eq!(spec.niche, Niche::WithoutNiche);
    assert_eq!(spec.mutability, Mutability::Exclusive);
    assert_eq!(spec.indirect_trap, Trap::Robust);
    // Wrapper<u8>
    let spec = derived_wrapper(primitive(Primitive::U8));
    assert_eq!(spec.layout, Stability::Unstable);
    assert_eq!(spec.size, Size::Sized(Sizedness::NonZero));
    assert_eq!(spec.alignment, Alignment::One);
    assert_eq!(spec.trap, Trap::Robust);
    assert_eq!(spec.niche, Niche::WithoutNiche);
    assert_eq!(spec.mutability, Mutability::Exclusive);
    assert_eq!(spec.indirect_trap, Trap::Robust);
    // Wrapper<UnsafeCell<u8>>
    let spec = derived_wrapper(unsafe_cell(primitive(Primitive::U8)));
    assert_eq!(spec.layout, Stability::Unstable);
    assert_eq!(spec.size, Size::Sized(Sizedness::NonZero));
    assert_eq!(spec.alignment, Alignment::One);
    assert_eq!(spec.trap, Trap::Robust);
    assert_eq!(spec.niche, Niche::WithoutNiche);
    assert_eq!(spec.mutability, Mutability::Interior);
    assert_eq!(spec.indirect_trap, Trap::Robust);
    // Pair<u8, StdNonZero<u8>>
    let spec = derived_pair(primitive(Primitive::U8), non_zero(Primitive::U8).unwrap());
    assert_eq!(spec.layout, Stability::Stable);
    assert_eq!(spec.size, Size::Sized(Sizedness::NonZero));
    assert_eq!(spec.alignment, Alignment::One);
    assert_eq!(spec.trap, Trap::NonRobust);
    assert_eq!(spec.niche, Niche::WithNiche(Stability::Unstable));
    assert_eq!(spec.mutability, Mutability::Exclusive);
    assert_eq!(spec.indirect_trap, Trap::Robust);
    // Pair<bool, u8>
    let spec = derived_pair(fieldless_primitive(FieldlessPrimitive::Bool), primitive(Primitive::U8));
    assert_eq!(spec.layout, Stability::Stable);
    assert_eq!(spec.size, Size::Sized(Sizedness::NonZero));
    assert_eq!(spec.alignment, Alignment::One);
    assert_eq!(spec.trap, Trap::NonRobust);
    assert_eq!(spec.niche, Niche::WithNiche(Stability::Unstable));
    assert_eq!(spec.mutability, Mutability::Exclusive);
    assert_eq!(spec.indirect_trap, Trap::Robust);
    // RawPointer<NotRustSpec>
    let spec = derived_raw_pointer();
    assert_eq!(spec.layout, Stability::Stable);
    assert_eq!(spec.size, Size::Sized(Sizedness::NonZero));
    assert_eq!(spec.alignment, Alignment::GtOne);
    assert_eq!(spec.trap, Trap::Robust);
    assert_eq!(spec.niche, Niche::WithoutNiche);
    assert_eq!(spec.mutability, Mutability::Exclusive);
    assert_eq!(spec.indirect_trap, Trap::Robust);
}

#[test]
fn struct_wide_classification() {
    // Bytes
    let spec = derived_bytes();
    assert_eq!(spec.layout, Stability::Stable);
    assert_eq!(spec.size, Size::MetaSized(Metadata::SliceLike));
    assert_eq!(spec.alignment, Alignment::One);
    assert_eq!(spec.trap, Trap::Robust);
    assert_eq!(spec.mutability, Mutability::Exclusive);
    assert_eq!(spec.indirect_trap, Trap::Robust);
    // Packet
    let spec = derived_packet();
    assert_eq!(spec.layout, Stability::Unstable);
    assert_eq!(spec.size, Size::MetaSized(Metadata::SliceLike));
    assert_eq!(spec.alignment, Alignment::One);
    assert_eq!(spec.trap, Trap::NonRobust);
    assert_eq!(spec.niche, Niche::WithNiche(Stability::Unstable));
    assert_eq!(spec.mutability, Mutability::Exclusive);
    assert_eq!(spec.indirect_trap, Trap::Robust);
    // TuplePacket
    let spec = derived_tuple_packet();
    assert_eq!(spec.layout, Stability::Unstable);
    assert_eq!(spec.size, Size::MetaSized(Metadata::SliceLike));
    assert_eq!(spec.alignment, Alignment::One);
    assert_eq!(spec.trap, Trap::NonRobust);
    assert_eq!(spec.niche, Niche::WithNiche(Stability::Unstable));
    assert_eq!(spec.mutability, Mutability::Exclusive);
    assert_eq!(spec.indirect_trap, Trap::Robust);
}

#[test]
fn generic_slice_classification() {
    for element in [u8_(), fieldless_primitive(FieldlessPrimitive::Bool), unit(), reference(u8_())] {
        assert!(slice(element).is_some());
        assert!(derived_transparent_slice(element).is_some());
    }
}

#[test]
fn union_classification() {
    let spec = derived_rust_union();
    assert_eq!(spec.layout, Stability::Unstable);
    assert_eq!(spec.trap, Trap::NonRobust);
    assert_eq!(spec.size, Size::Sized(Sizedness::NonZero));
    assert_eq!(spec.niche, Niche::WithoutNiche);
    assert_eq!(spec.mutability, Mutability::Exclusive);
    assert_eq!(spec.indirect_trap, Trap::Robust);

    let spec = derived_repr_c_union();
    assert_eq!(spec.layout, Stability::Stable);
    assert_eq!(spec.trap, Trap::Robust);
    assert_eq!(spec.size, Size::Sized(Sizedness::NonZero));
    assert_eq!(spec.niche, Niche::WithoutNiche);
    assert_eq!(spec.mutability, Mutability::Exclusive);
    assert_eq!(spec.indirect_trap, Trap::Robust);
}

#[test]
fn rust_spec_derives_wide() {
    let spec = derived_bytes();
    assert_eq!(spec.layout, Stability::Stable);
    assert_eq!(spec.trap, Trap::Robust);
    assert_eq!(spec.size, Size::MetaSized(Metadata::SliceLike));
    assert_eq!(spec.niche, Niche::WithoutNiche);
    assert_eq!(spec.mutability, Mutability::Exclusive);
}
