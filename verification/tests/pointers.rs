#![allow(unused_imports)]
use rust_spec::core_impls::{core_type, non_zero, transparent_wrapper, unsafe_cell, vector, CoreType};
use rust_spec::layout::Trap;
use rust_spec::mutability::Mutability;
use rust_spec::niche::Niche;
use rust_spec::pointers::{boxed, option, reference, result};
use rust_spec::primitives::{
    array, fieldless_primitive, function_pointer, primitive, raw_pointer, slice, Abi, Arch, FieldlessPrimitive,
    Primitive,
};
use rust_spec::size::{Metadata, Size, Sizedness};
use rust_spec::tuple::tuple;
use rust_spec::{Alignment, RustSpec, Stability};

#[test]
fn indirect_trap_follows_supported_pointers_only() {
    // &u8
    let spec = reference(primitive(Primitive::U8));
    assert_eq!(spec.indirect_trap, Trap::Robust);
    // &bool
    let spec = reference(fieldless_primitive(FieldlessPrimitive::Bool));
    assert_eq!(spec.indirect_trap, Trap::NonRobust);
    // &&u8
    let spec = reference(reference(primitive(Primitive::U8)));
    assert_eq!(spec.indirect_trap, Trap::NonRobust);
    // Option<&u8>
    let spec = option(reference(primitive(Primitive::U8))).unwrap();
    assert_eq!(spec.indirect_trap, Trap::Robust);
    // *const bool
    let spec = raw_pointer();
    assert_eq!(spec.indirect_trap, Trap::Robust);
}

#[test]
fn transparent_type() {
    // bool
    let spec = fieldless_primitive(FieldlessPrimitive::Bool);
    assert_eq!(spec.layout, Stability::Stable);
    assert_eq!(spec.trap, Trap::NonRobust);
    assert_eq!(spec.size, Size::Sized(Sizedness::NonZero));
    assert_eq!(spec.niche, Niche::WithNiche(Stability::Unstable));
    assert_eq!(spec.mutability, Mutability::Exclusive);
    assert_eq!(spec.indirect_trap, Trap::Robust);
    // &bool
    let spec = reference(fieldless_primitive(FieldlessPrimitive::Bool));
    assert_eq!(spec.layout, Stability::Stable);
    assert_eq!(spec.trap, Trap::NonRobust);
    assert_eq!(spec.size, Size::Sized(Sizedness::NonZero));
    assert_eq!(spec.niche, Niche::WithNiche(Stability::Stable));
    assert_eq!(spec.mutability, Mutability::Exclusive);
    assert_eq!(spec.indirect_trap, Trap::NonRobust);
    // &mut bool
    let spec = reference(fieldless_primitive(FieldlessPrimitive::Bool));
    assert_eq!(spec.layout, Stability::Stable);
    assert_eq!(spec.trap, Trap::NonRobust);
    assert_eq!(spec.size, Size::Sized(Sizedness::NonZero));
    assert_eq!(spec.niche, Niche::WithNiche(Stability::Stable));
    assert_eq!(spec.mutability, Mutability::Exclusive);
    assert_eq!(spec.indirect_trap, Trap::NonRobust);
    // Box<bool>
    let spec = boxed(fieldless_primitive(FieldlessPrimitive::Bool)).unwrap();
    assert_eq!(spec.layout, Stability::Stable);
    assert_eq!(spec.trap, Trap::NonRobust);
    assert_eq!(spec.size, Size::Sized(Sizedness::NonZero));
    assert_eq!(spec.niche, Niche::WithNiche(Stability::Stable));
    assert_eq!(spec.mutability, Mutability::Exclusive);
    assert_eq!(spec.indirect_trap, Trap::NonRobust);
    // &[bool]
    let spec = reference(slice(fieldless_primitive(FieldlessPrimitive::Bool)).unwrap());
    assert_eq!(spec.layout, Stability::Unstable);
    assert_eq!(spec.trap, Trap::NonRobust);
    assert_eq!(spec.size, Size::Sized(Sizedness::NonZero));
    assert_eq!(spec.niche, Niche::WithNiche(Stability::Unstable));
    assert_eq!(spec.mutability, Mutability::Exclusive);
    assert_eq!(spec.indirect_trap, Trap::NonRobust);
    // &mut [bool]
    let spec = reference(slice(fieldless_primitive(FieldlessPrimitive::Bool)).unwrap());
    assert_eq!(spec.layout, Stability::Unstable);
    assert_eq!(spec.trap, Trap::NonRobust);
    assert_eq!(spec.size, Size::Sized(Sizedness::NonZero));
    assert_eq!(spec.niche, Niche::WithNiche(Stability::Unstable));
    assert_eq!(spec.mutability, Mutability::Exclusive);
    assert_eq!(spec.indirect_trap, Trap::NonRobust);
    // Box<[bool]>
    let spec = boxed(slice(fieldless_primitive(FieldlessPrimitive::Bool)).unwrap()).unwrap();
    assert_eq!(spec.layout, Stability::Unstable);
    assert_eq!(spec.trap, Trap::NonRobust);
    assert_eq!(spec.size, Size::Sized(Sizedness::NonZero));
    assert_eq!(spec.niche, Niche::WithNiche(Stability::Unstable));
    assert_eq!(spec.mutability, Mutability::Exclusive);
    assert_eq!(spec.indirect_trap, Trap::NonRobust);
    // Vec<bool>
    let spec = vector(fieldless_primitive(FieldlessPrimitive::Bool)).unwrap();
    assert_eq!(spec.layout, Stability::Unstable);
    assert_eq!(spec.trap, Trap::NonRobust);
    assert_eq!(spec.size, Size::Sized(Sizedness::NonZero));
    assert_eq!(spec.niche, Niche::WithNiche(Stability::Unstable));
    assert_eq!(spec.mutability, Mutability::Exclusive);
    assert_eq!(spec.indirect_trap, Trap::NonRobust);
    // [bool; 2]
    let spec = array(fieldless_primitive(FieldlessPrimitive::Bool), 2).unwrap();
    assert_eq!(spec.layout, Stability::Stable);
    assert_eq!(spec.trap, Trap::NonRobust);
    assert_eq!(spec.size, Size::Sized(Sizedness::NonZero));
    assert_eq!(spec.niche, Niche::WithNiche(Stability::Unstable));
    assert_eq!(spec.mutability, Mutability::Exclusive);
    assert_eq!(spec.indirect_trap, Trap::Robust);
}

#[test]
fn option_stable_niche_layout() {
    // Option<NonZeroU8>
    let spec = option(non_zero(Primitive::U8).unwrap()).unwrap();
    assert_eq!(spec.layout, Stability::Stable);
    assert_eq!(spec.trap, Trap::Robust);
    assert_eq!(spec.size, Size::Sized(Sizedness::NonZero));
    assert_eq!(spec.niche, Niche::WithoutNiche);
    assert_eq!(spec.mutability, Mutability::Exclusive);
    assert_eq!(spec.indirect_trap, Trap::Robust);
    // Option<&u8>
    let spec = option(reference(primitive(Primitive::U8))).unwrap();
    assert_eq!(spec.layout, Stability::Stable);
    assert_eq!(spec.trap, Trap::Robust);
    assert_eq!(spec.size, Size::Sized(Sizedness::NonZero));
    assert_eq!(spec.niche, Niche::WithoutNiche);
    assert_eq!(spec.mutability, Mutability::Exclusive);
    assert_eq!(spec.indirect_trap, Trap::Robust);
    // Option<&(u8, u8, u8)>
    let spec = option(reference(tuple(&vec![primitive(Primitive::U8), primitive(Primitive::U8), primitive(Primitive::U8)]).unwrap())).unwrap();
    assert_eq!(spec.layout, Stability::Unstable);
    assert_eq!(spec.trap, Trap::Robust);
    assert_eq!(spec.size, Size::Sized(Sizedness::NonZero));
    assert_eq!(spec.niche, Niche::WithoutNiche);
    assert_eq!(spec.mutability, Mutability::Exclusive);
    assert_eq!(spec.indirect_trap, Trap::Robust);
    // Option<&NonZeroU8>
    let spec = option(reference(non_zero(Primitive::U8).unwrap())).unwrap();
    assert_eq!(spec.layout, Stability::Stable);
    assert_eq!(spec.trap, Trap::NonRobust);
    assert_eq!(spec.size, Size::Sized(Sizedness::NonZero));
    assert_eq!(spec.niche, Niche::WithoutNiche);
    assert_eq!(spec.mutability, Mutability::Exclusive);
    assert_eq!(spec.indirect_trap, Trap::NonRobust);
}

#[test]
fn result_stable_niche_layout() {
    // Result<NonZeroU8, ()>
    let spec = result(non_zero(Primitive::U8).unwrap(), core_type(CoreType::Unit)).unwrap();
    assert_eq!(spec.layout, Stability::Stable);
    assert_eq!(spec.trap, Trap::Robust);
    assert_eq!(spec.size, Size::Sized(Sizedness::NonZero));
    assert_eq!(spec.niche, Niche::WithoutNiche);
    assert_eq!(spec.mutability, Mutability::Exclusive);
    assert_eq!(spec.indirect_trap, Trap::Robust);
    // Result<&u8, ()>
    let spec = result(reference(primitive(Primitive::U8)), core_type(CoreType::Unit)).unwrap();
    assert_eq!(spec.layout, Stability::Stable);
    assert_eq!(spec.trap, Trap::Robust);
    assert_eq!(spec.size, Size::Sized(Sizedness::NonZero));
    assert_eq!(spec.niche, Niche::WithoutNiche);
    assert_eq!(spec.mutability, Mutability::Exclusive);
    assert_eq!(spec.indirect_trap, Trap::Robust);
    // Result<&NonZeroU8, ()>
    let spec = result(reference(non_zero(Primitive::U8).unwrap()), core_type(CoreType::Unit)).unwrap();
    assert_eq!(spec.layout, Stability::Stable);
    assert_eq!(spec.trap, Trap::NonRobust);
    assert_eq!(spec.size, Size::Sized(Sizedness::NonZero));
    assert_eq!(spec.niche, Niche::WithoutNiche);
    assert_eq!(spec.mutability, Mutability::Exclusive);
    assert_eq!(spec.indirect_trap, Trap::NonRobust);
    // Result<(), NonZeroU8>
    let spec = result(core_type(CoreType::Unit), non_zero(Primitive::U8).unwrap()).unwrap();
    assert_eq!(spec.layout, Stability::Stable);
    assert_eq!(spec.trap, Trap::Robust);
    assert_eq!(spec.size, Size::Sized(Sizedness::NonZero));
    assert_eq!(spec.niche, Niche::WithoutNiche);
    assert_eq!(spec.mutability, Mutability::Exclusive);
    assert_eq!(spec.indirect_trap, Trap::Robust);
    // Result<&mut u8, ()>
    let spec = result(reference(primitive(Primitive::U8)), core_type(CoreType::Unit)).unwrap();
    assert_eq!(spec.layout, Stability::Stable);
    assert_eq!(spec.trap, Trap::Robust);
    assert_eq!(spec.size, Size::Sized(Sizedness::NonZero));
    assert_eq!(spec.niche, Niche::WithoutNiche);
    assert_eq!(spec.mutability, Mutability::Exclusive);
    assert_eq!(spec.indirect_trap, Trap::Robust);
}

#[test]
fn robust_ref() {
    // &&u8
    let spec = reference(reference(primitive(Primitive::U8)));
    assert_eq!(spec.layout, Stability::Stable);
    assert_eq!(spec.trap, Trap::NonRobust);
    assert_eq!(spec.size, Size::Sized(Sizedness::NonZero));
    assert_eq!(spec.niche, Niche::WithNiche(Stability::Stable));
    assert_eq!(spec.mutability, Mutability::Exclusive);
    assert_eq!(spec.indirect_trap, Trap::NonRobust);
    // &mut &u8
    let spec = reference(reference(primitive(Primitive::U8)));
    assert_eq!(spec.layout, Stability::Stable);
    assert_eq!(spec.trap, Trap::NonRobust);
    assert_eq!(spec.size, Size::Sized(Sizedness::NonZero));
    assert_eq!(spec.niche, Niche::WithNiche(Stability::Stable));
    assert_eq!(spec.mutability, Mutability::Exclusive);
    assert_eq!(spec.indirect_trap, Trap::NonRobust);
    // Box<&bool>
    let spec = boxed(reference(fieldless_primitive(FieldlessPrimitive::Bool))).unwrap();
    assert_eq!(spec.layout, Stability::Stable);
    assert_eq!(spec.trap, Trap::NonRobust);
    assert_eq!(spec.size, Size::Sized(Sizedness::NonZero));
    assert_eq!(spec.niche, Niche::WithNiche(Stability::Stable));
    assert_eq!(spec.mutability, Mutability::Exclusive);
    assert_eq!(spec.indirect_trap, Trap::NonRobust);
    // &[&u8]
    let spec = reference(slice(reference(primitive(Primitive::U8))).unwrap());
    assert_eq!(spec.layout, Stability::Unstable);
    assert_eq!(spec.trap, Trap::NonRobust);
    assert_eq!(spec.size, Size::Sized(Sizedness::NonZero));
    assert_eq!(spec.niche, Niche::WithNiche(Stability::Unstable));
    assert_eq!(spec.mutability, Mutability::Exclusive);
    assert_eq!(spec.indirect_trap, Trap::NonRobust);
    // &mut [&u8]
    let spec = reference(slice(reference(primitive(Primitive::U8))).unwrap());
    assert_eq!(spec.layout, Stability::Unstable);
    assert_eq!(spec.trap, Trap::NonRobust);
    assert_eq!(spec.size, Size::Sized(Sizedness::NonZero));
    assert_eq!(spec.niche, Niche::WithNiche(Stability::Unstable));
    assert_eq!(spec.mutability, Mutability::Exclusive);
    assert_eq!(spec.indirect_trap, Trap::NonRobust);
    // Box<[&u8]>
    let spec = boxed(slice(reference(primitive(Primitive::U8))).unwrap()).unwrap();
    assert_eq!(spec.layout, Stability::Unstable);
    assert_eq!(spec.trap, Trap::NonRobust);
    assert_eq!(spec.size, Size::Sized(Sizedness::NonZero));
    assert_eq!(spec.niche, Niche::WithNiche(Stability::Unstable));
    assert_eq!(spec.mutability, Mutability::Exclusive);
    assert_eq!(spec.indirect_trap, Trap::NonRobust);
    // Vec<&u8>
    let spec = vector(reference(primitive(Primitive::U8))).unwrap();
    assert_eq!(spec.layout, Stability::Unstable);
    assert_eq!(spec.trap, Trap::NonRobust);
    assert_eq!(spec.size, Size::Sized(Sizedness::NonZero));
    assert_eq!(spec.niche, Niche::WithNiche(Stability::Unstable));
    assert_eq!(spec.mutability, Mutability::Exclusive);
    assert_eq!(spec.indirect_trap, Trap::NonRobust);
    // [&u8; 2]
    let spec = array(reference(primitive(Primitive::U8)), 2).unwrap();
    assert_eq!(spec.layout, Stability::Stable);
    assert_eq!(spec.trap, Trap::NonRobust);
    assert_eq!(spec.size, Size::Sized(Sizedness::NonZero));
    assert_eq!(spec.niche, Niche::WithNiche(Stability::Unstable));
    assert_eq!(spec.mutability, Mutability::Exclusive);
    assert_eq!(spec.indirect_trap, Trap::Robust);
    // Option<&u8>
    let spec = option(reference(primitive(Primitive::U8))).unwrap();
    assert_eq!(spec.layout, Stability::Stable);
    assert_eq!(spec.trap, Trap::Robust);
    assert_eq!(spec.size, Size::Sized(Sizedness::NonZero));
    assert_eq!(spec.niche, Niche::WithoutNiche);
    assert_eq!(spec.mutability, Mutability::Exclusive);
    assert_eq!(spec.indirect_trap, Trap::Robust);
}

#[test]
fn transparent_ref() {
    // &&bool
    let spec = reference(reference(fieldless_primitive(FieldlessPrimitive::Bool)));
    assert_eq!(spec.layout, Stability::Stable);
    assert_eq!(spec.trap, Trap::NonRobust);
    assert_eq!(spec.size, Size::Sized(Sizedness::NonZero));
    assert_eq!(spec.niche, Niche::WithNiche(Stability::Stable));
    assert_eq!(spec.mutability, Mutability::Exclusive);
    assert_eq!(spec.indirect_trap, Trap::NonRobust);
    // &mut &bool
    let spec = reference(reference(fieldless_primitive(FieldlessPrimitive::Bool)));
    assert_eq!(spec.layout, Stability::Stable);
    assert_eq!(spec.trap, Trap::NonRobust);
    assert_eq!(spec.size, Size::Sized(Sizedness::NonZero));
    assert_eq!(spec.niche, Niche::WithNiche(Stability::Stable));
    assert_eq!(spec.mutability, Mutability::Exclusive);
    assert_eq!(spec.indirect_trap, Trap::NonRobust);
    // Box<&bool>
    let spec = boxed(reference(fieldless_primitive(FieldlessPrimitive::Bool))).unwrap();
    assert_eq!(spec.layout, Stability::Stable);
    assert_eq!(spec.trap, Trap::NonRobust);
    assert_eq!(spec.size, Size::Sized(Sizedness::NonZero));
    assert_eq!(spec.niche, Niche::WithNiche(Stability::Stable));
    assert_eq!(spec.mutability, Mutability::Exclusive);
    assert_eq!(spec.indirect_trap, Trap::NonRobust);
    // &[&bool]
    let spec = reference(slice(reference(fieldless_primitive(FieldlessPrimitive::Bool))).unwrap());
    assert_eq!(spec.layout, Stability::Unstable);
    assert_eq!(spec.trap, Trap::NonRobust);
    assert_eq!(spec.size, Size::Sized(Sizedness::NonZero));
    assert_eq!(spec.niche, Niche::WithNiche(Stability::Unstable));
    assert_eq!(spec.mutability, Mutability::Exclusive);
    assert_eq!(spec.indirect_trap, Trap::NonRobust);
    // &mut [&bool]
    let spec = reference(slice(reference(fieldless_primitive(FieldlessPrimitive::Bool))).unwrap());
    assert_eq!(spec.layout, Stability::Unstable);
    assert_eq!(spec.trap, Trap::NonRobust);
    assert_eq!(spec.size, Size::Sized(Sizedness::NonZero));
    assert_eq!(spec.niche, Niche::WithNiche(Stability::Unstable));
    assert_eq!(spec.mutability, Mutability::Exclusive);
    assert_eq!(spec.indirect_trap, Trap::NonRobust);
    // Box<[&bool]>
    let spec = boxed(slice(reference(fieldless_primitive(FieldlessPrimitive::Bool))).unwrap()).unwrap();
    assert_eq!(spec.layout, Stability::Unstable);
    assert_eq!(spec.trap, Trap::NonRobust);
    assert_eq!(spec.size, Size::Sized(Sizedness::NonZero));
    assert_eq!(spec.niche, Niche::WithNiche(Stability::Unstable));
    assert_eq!(spec.mutability, Mutability::Exclusive);
    assert_eq!(spec.indirect_trap, Trap::NonRobust);
    // Vec<&bool>
    let spec = vector(reference(fieldless_primitive(FieldlessPrimitive::Bool))).unwrap();
    assert_eq!(spec.layout, Stability::Unstable);
    assert_eq!(spec.trap, Trap::NonRobust);
    assert_eq!(spec.size, Size::Sized(Sizedness::NonZero));
    assert_eq!(spec.niche, Niche::WithNiche(Stability::Unstable));
    assert_eq!(spec.mutability, Mutability::Exclusive);
    assert_eq!(spec.indirect_trap, Trap::NonRobust);
    // [&bool; 2]
    let spec = array(reference(fieldless_primitive(FieldlessPrimitive::Bool)), 2).unwrap();
    assert_eq!(spec.layout, Stability::Stable);
    assert_eq!(spec.trap, Trap::NonRobust);
    assert_eq!(spec.size, Size::Sized(Sizedness::NonZero));
    assert_eq!(spec.niche, Niche::WithNiche(Stability::Unstable));
    assert_eq!(spec.mutability, Mutability::Exclusive);
    assert_eq!(spec.indirect_trap, Trap::NonRobust);
    // Option<&bool>
    let spec = option(reference(fieldless_primitive(FieldlessPrimitive::Bool))).unwrap();
    assert_eq!(spec.layout, Stability::Stable);
    assert_eq!(spec.trap, Trap::NonRobust);
    assert_eq!(spec.size, Size::Sized(Sizedness::NonZero));
    assert_eq!(spec.niche, Niche::WithoutNiche);
    assert_eq!(spec.mutability, Mutability::Exclusive);
    assert_eq!(spec.indirect_trap, Trap::NonRobust);
}

#[test]
fn robust_ref_mut() {
    // &&mut u8
    let spec = reference(reference(primitive(Primitive::U8)));
    assert_eq!(spec.layout, Stability::Stable);
    assert_eq!(spec.trap, Trap::NonRobust);
    assert_eq!(spec.size, Size::Sized(Sizedness::NonZero));
    assert_eq!(spec.niche, Niche::WithNiche(Stability::Stable));
    assert_eq!(spec.mutability, Mutability::Exclusive);
    assert_eq!(spec.indirect_trap, Trap::NonRobust);
    // &mut &mut u8
    let spec = reference(reference(primitive(Primitive::U8)));
    assert_eq!(spec.layout, Stability::Stable);
    assert_eq!(spec.trap, Trap::NonRobust);
    assert_eq!(spec.size, Size::Sized(Sizedness::NonZero));
    assert_eq!(spec.niche, Niche::WithNiche(Stability::Stable));
    assert_eq!(spec.mutability, Mutability::Exclusive);
    assert_eq!(spec.indirect_trap, Trap::NonRobust);
    // Box<&mut u8>
    let spec = boxed(reference(primitive(Primitive::U8))).unwrap();
    assert_eq!(spec.layout, Stability::Stable);
    assert_eq!(spec.trap, Trap::NonRobust);
    assert_eq!(spec.size, Size::Sized(Sizedness::NonZero));
    assert_eq!(spec.niche, Niche::WithNiche(Stability::Stable));
    assert_eq!(spec.mutability, Mutability::Exclusive);
    assert_eq!(spec.indirect_trap, Trap::NonRobust);
    // &[&mut u8]
    let spec = reference(slice(reference(primitive(Primitive::U8))).unwrap());
    assert_eq!(spec.layout, Stability::Unstable);
    assert_eq!(spec.trap, Trap::NonRobust);
    assert_eq!(spec.size, Size::Sized(Sizedness::NonZero));
    assert_eq!(spec.niche, Niche::WithNiche(Stability::Unstable));
    assert_eq!(spec.mutability, Mutability::Exclusive);
    assert_eq!(spec.indirect_trap, Trap::NonRobust);
    // &mut [&mut u8]
    let spec = reference(slice(reference(primitive(Primitive::U8))).unwrap());
    assert_eq!(spec.layout, Stability::Unstable);
    assert_eq!(spec.trap, Trap::NonRobust);
    assert_eq!(spec.size, Size::Sized(Sizedness::NonZero));
    assert_eq!(spec.niche, Niche::WithNiche(Stability::Unstable));
    assert_eq!(spec.mutability, Mutability::Exclusive);
    assert_eq!(spec.indirect_trap, Trap::NonRobust);
    // Box<[&mut u8]>
    let spec = boxed(slice(reference(primitive(Primitive::U8))).unwrap()).unwrap();
    assert_eq!(spec.layout, Stability::Unstable);
    assert_eq!(spec.trap, Trap::NonRobust);
    assert_eq!(spec.size, Size::Sized(Sizedness::NonZero));
    assert_eq!(spec.niche, Niche::WithNiche(Stability::Unstable));
    assert_eq!(spec.mutability, Mutability::Exclusive);
    assert_eq!(spec.indirect_trap, Trap::NonRobust);
    // Vec<&mut u8>
    let spec = vector(reference(primitive(Primitive::U8))).unwrap();
    assert_eq!(spec.layout, Stability::Unstable);
    assert_eq!(spec.trap, Trap::NonRobust);
    assert_eq!(spec.size, Size::Sized(Sizedness::NonZero));
    assert_eq!(spec.niche, Niche::WithNiche(Stability::Unstable));
    assert_eq!(spec.mutability, Mutability::Exclusive);
    assert_eq!(spec.indirect_trap, Trap::NonRobust);
    // [&mut u8; 2]
    let spec = array(reference(primitive(Primitive::U8)), 2).unwrap();
    assert_eq!(spec.layout, Stability::Stable);
    assert_eq!(spec.trap, Trap::NonRobust);
    assert_eq!(spec.size, Size::Sized(Sizedness::NonZero));
    assert_eq!(spec.niche, Niche::WithNiche(Stability::Unstable));
    assert_eq!(spec.mutability, Mutability::Exclusive);
    assert_eq!(spec.indirect_trap, Trap::Robust);
    // Option<&mut u8>
    let spec = option(reference(primitive(Primitive::U8))).unwrap();
    assert_eq!(spec.layout, Stability::Stable);
    assert_eq!(spec.trap, Trap::Robust);
    assert_eq!(spec.size, Size::Sized(Sizedness::NonZero));
    assert_eq!(spec.niche, Niche::WithoutNiche);
    assert_eq!(spec.mutability, Mutability::Exclusive);
    assert_eq!(spec.indirect_trap, Trap::Robust);
}

#[test]
fn transparent_ref_mut() {
    // &&mut bool
    let spec = reference(reference(fieldless_primitive(FieldlessPrimitive::Bool)));
    assert_eq!(spec.layout, Stability::Stable);
    assert_eq!(spec.trap, Trap::NonRobust);
    assert_eq!(spec.size, Size::Sized(Sizedness::NonZero));
    assert_eq!(spec.niche, Niche::WithNiche(Stability::Stable));
    assert_eq!(spec.mutability, Mutability::Exclusive);
    assert_eq!(spec.indirect_trap, Trap::NonRobust);
    // &mut &mut bool
    let spec = reference(reference(fieldless_primitive(FieldlessPrimitive::Bool)));
    assert_eq!(spec.layout, Stability::Stable);
    assert_eq!(spec.trap, Trap::NonRobust);
    assert_eq!(spec.size, Size::Sized(Sizedness::NonZero));
    assert_eq!(spec.niche, Niche::WithNiche(Stability::Stable));
    assert_eq!(spec.mutability, Mutability::Exclusive);
    assert_eq!(spec.indirect_trap, Trap::NonRobust);
    // Box<&mut bool>
    let spec = boxed(reference(fieldless_primitive(FieldlessPrimitive::Bool))).unwrap();
    assert_eq!(spec.layout, Stability::Stable);
    assert_eq!(spec.trap, Trap::NonRobust);
    assert_eq!(spec.size, Size::Sized(Sizedness::NonZero));
    assert_eq!(spec.niche, Niche::WithNiche(Stability::Stable));
    assert_eq!(spec.mutability, Mutability::Exclusive);
    assert_eq!(spec.indirect_trap, Trap::NonRobust);
    // &[&mut bool]
    let spec = reference(slice(reference(fieldless_primitive(FieldlessPrimitive::Bool))).unwrap());
    assert_eq!(spec.layout, Stability::Unstable);
    assert_eq!(spec.trap, Trap::NonRobust);
    assert_eq!(spec.size, Size::Sized(Sizedness::NonZero));
    assert_eq!(spec.niche, Niche::WithNiche(Stability::Unstable));
    assert_eq!(spec.mutability, Mutability::Exclusive);
    assert_eq!(spec.indirect_trap, Trap::NonRobust);
    // &mut [&mut bool]
    let spec = reference(slice(reference(fieldless_primitive(FieldlessPrimitive::Bool))).unwrap());
    assert_eq!(spec.layout, Stability::Unstable);
    assert_eq!(spec.trap, Trap::NonRobust);
    assert_eq!(spec.size, Size::Sized(Sizedness::NonZero));
    assert_eq!(spec.niche, Niche::WithNiche(Stability::Unstable));
    assert_eq!(spec.mutability, Mutability::Exclusive);
    assert_eq!(spec.indirect_trap, Trap::NonRobust);
    // Box<[&mut bool]>
    let spec = boxed(slice(reference(fieldless_primitive(FieldlessPrimitive::Bool))).unwrap()).unwrap();
    assert_eq!(spec.layout, Stability::Unstable);
    assert_eq!(spec.trap, Trap::NonRobust);
    assert_eq!(spec.size, Size::Sized(Sizedness::NonZero));
    assert_eq!(spec.niche, Niche::WithNiche(Stability::Unstable));
    assert_eq!(spec.mutability, Mutability::Exclusive);
    assert_eq!(spec.indirect_trap, Trap::NonRobust);
    // Vec<&mut bool>
    let spec = vector(reference(fieldless_primitive(FieldlessPrimitive::Bool))).unwrap();
    assert_eq!(spec.layout, Stability::Unstable);
    assert_eq!(spec.trap, Trap::NonRobust);
    assert_eq!(spec.size, Size::Sized(Sizedness::NonZero));
    assert_eq!(spec.niche, Niche::WithNiche(Stability::Unstable));
    assert_eq!(spec.mutability, Mutability::Exclusive);
    assert_eq!(spec.indirect_trap, Trap::NonRobust);
    // [&mut bool; 2]
    let spec = array(reference(fieldless_primitive(FieldlessPrimitive::Bool)), 2).unwrap();
    assert_eq!(spec.layout, Stability::Stable);
    assert_eq!(spec.trap, Trap::NonRobust);
    assert_eq!(spec.size, Size::Sized(Sizedness::NonZero));
    assert_eq!(spec.niche, Niche::WithNiche(Stability::Unstable));
    assert_eq!(spec.mutability, Mutability::Exclusive);
    assert_eq!(spec.indirect_trap, Trap::NonRobust);
    // Option<&mut bool>
    let spec = option(reference(fieldless_primitive(FieldlessPrimitive::Bool))).unwrap();
    assert_eq!(spec.layout, Stability::Stable);
    assert_eq!(spec.trap, Trap::NonRobust);
    assert_eq!(spec.size, Size::Sized(Sizedness::NonZero));
    assert_eq!(spec.niche, Niche::WithoutNiche);
    assert_eq!(spec.mutability, Mutability::Exclusive);
    assert_eq!(spec.indirect_trap, Trap::NonRobust);
}

