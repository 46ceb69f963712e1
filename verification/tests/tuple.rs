#![allow(unused_imports)]
use rust_spec::core_impls::{core_type, non_zero, transparent_wrapper, unsafe_cell, vector, CoreType};
use rust_spec::layout::Trap;
use rust_spec::mutability::Mutability;
use rust_spec::niche::Niche;
use rust_spec::pointers::{boxed, option, reference, result};
use rust_spec::primitives::{
    array, fieldless_primitive, function_pointer, primitive, raw_pointer, slice, Abi, Arch, FieldlessPrimitive,
    Primitive,
};
use rust_spec::size::{Metadata, Size, Sizedness};
use rust_spec::tuple::tuple;
use rust_spec::{Alignment, RustSpec, Stability};

#[test]
fn tuple_size_family_tracks_zst_fields() {
    // ((), ())
    let spec = tuple(&vec![core_type(CoreType::Unit), core_type(CoreType::Unit)]).unwrap();
    assert_eq!(spec.layout, Stability::Unstable);
    assert_eq!(spec.size, Size::Sized(Sizedness::Zero));
    assert_eq!(spec.alignment, Alignment::One);
    assert_eq!(spec.trap, Trap::Robust);
    assert_eq!(spec.niche, Niche::WithoutNiche);
    assert_eq!(spec.mutability, Mutability::Exclusive);
    assert_eq!(spec.indirect_trap, Trap::Robust);
    // ((), (), ())
    let spec = tuple(&vec![core_type(CoreType::Unit), core_type(CoreType::Unit), core_type(CoreType::Unit)]).unwrap();
    assert_eq!(spec.layout, Stability::Unstable);
    assert_eq!(spec.size, Size::Sized(Sizedness::Zero));
    assert_eq!(spec.alignment, Alignment::One);
    assert_eq!(spec.trap, Trap::Robust);
    assert_eq!(spec.niche, Niche::WithoutNiche);
    assert_eq!(spec.mutability, Mutability::Exclusive);
    assert_eq!(spec.indirect_trap, Trap::Robust);
}

#[test]
fn tuple_size_family_tracks_non_zst_fields() {
    // ((), u8)
    let spec = tuple(&vec![core_type(CoreType::Unit), primitive(Primitive::U8)]).unwrap();
    assert_eq!(spec.layout, Stability::Unstable);
    assert_eq!(spec.size, Size::Sized(Sizedness::NonZero));
    assert_eq!(spec.alignment, Alignment::One);
    assert_eq!(spec.trap, Trap::Robust);
    assert_eq!(spec.niche, Niche::WithoutNiche);
    assert_eq!(spec.mutability, Mutability::Exclusive);
    assert_eq!(spec.indirect_trap, Trap::Robust);
    // (u8, ())
    let spec = tuple(&vec![primitive(Primitive::U8), core_type(CoreType::Unit)]).unwrap();
    assert_eq!(spec.layout, Stability::Unstable);
    assert_eq!(spec.size, Size::Sized(Sizedness::NonZero));
    assert_eq!(spec.alignment, Alignment::One);
    assert_eq!(spec.trap, Trap::Robust);
    assert_eq!(spec.niche, Niche::WithoutNiche);
    assert_eq!(spec.mutability, Mutability::Exclusive);
    assert_eq!(spec.indirect_trap, Trap::Robust);
    // ((), u8, ())
    let spec = tuple(&vec![core_type(CoreType::Unit), primitive(Primitive::U8), core_type(CoreType::Unit)]).unwrap();
    assert_eq!(spec.layout, Stability::Unstable);
    assert_eq!(spec.size, Size::Sized(Sizedness::NonZero));
    assert_eq!(spec.alignment, Alignment::One);
    assert_eq!(spec.trap, Trap::Robust);
    assert_eq!(spec.niche, Niche::WithoutNiche);
    assert_eq!(spec.mutability, Mutability::Exclusive);
    assert_eq!(spec.indirect_trap, Trap::Robust);
}

#[test]
fn stored_tuple_3_without_niche() {
    // (u8, u8, u8)
    let spec = tuple(&vec![primitive(Primitive::U8), primitive(Primitive::U8), primitive(Primitive::U8)]).unwrap();
    assert_eq!(spec.layout, Stability::Unstable);
    assert_eq!(spec.size, Size::Sized(Sizedness::NonZero));
    assert_eq!(spec.alignment, Alignment::One);
    assert_eq!(spec.trap, Trap::Robust);
    assert_eq!(spec.niche, Niche::WithoutNiche);
    assert_eq!(spec.mutability, Mutability::Exclusive);
    assert_eq!(spec.indirect_trap, Trap::Robust);
    // &(u8, u8, u8)
    let spec = reference(tuple(&vec![primitive(Primitive::U8), primitive(Primitive::U8), primitive(Primitive::U8)]).unwrap());
    assert_eq!(spec.layout, Stability::Unstable);
    assert_eq!(spec.size, Size::Sized(Sizedness::NonZero));
    assert_eq!(spec.alignment, Alignment::GtOne);
    assert_eq!(spec.trap, Trap::NonRobust);
    assert_eq!(spec.niche, Niche::WithNiche(Stability::Stable));
    assert_eq!(spec.mutability, Mutability::Exclusive);
    assert_eq!(spec.indirect_trap, Trap::Robust);
    // &mut (u8, u8, u8)
    let spec = reference(tuple(&vec![primitive(Primitive::U8), primitive(Primitive::U8), primitive(Primitive::U8)]).unwrap());
    assert_eq!(spec.layout, Stability::Unstable);
    assert_eq!(spec.size, Size::Sized(Sizedness::NonZero));
    assert_eq!(spec.alignment, Alignment::GtOne);
    assert_eq!(spec.trap, Trap::NonRobust);
    assert_eq!(spec.niche, Niche::WithNiche(Stability::Stable));
    assert_eq!(spec.mutability, Mutability::Exclusive);
    assert_eq!(spec.indirect_trap, Trap::Robust);
    // Box<(u8, u8, u8)>
    let spec = boxed(tuple(&vec![primitive(Primitive::U8), primitive(Primitive::U8), primitive(Primitive::U8)]).unwrap()).unwrap();
    assert_eq!(spec.layout, Stability::Unstable);
    assert_eq!(spec.size, Size::Sized(Sizedness::NonZero));
    assert_eq!(spec.alignment, Alignment::GtOne);
    assert_eq!(spec.trap, Trap::NonRobust);
    assert_eq!(spec.niche, Niche::WithNiche(Stability::Stable));
    assert_eq!(spec.mutability, Mutability::Exclusive);
    assert_eq!(spec.indirect_trap, Trap::Robust);
    // &[(u8, u8, u8)]
    let spec = reference(slice(tuple(&vec![primitive(Primitive::U8), primitive(Primitive::U8), primitive(Primitive::U8)]).unwrap()).unwrap());
    assert_eq!(spec.layout, Stability::Unstable);
    assert_eq!(spec.size, Size::Sized(Sizedness::NonZero));
    assert_eq!(spec.alignment, Alignment::GtOne);
    assert_eq!(spec.trap, Trap::NonRobust);
    assert_eq!(spec.niche, Niche::WithNiche(Stability::Unstable));
    assert_eq!(spec.mutability, Mutability::Exclusive);
    assert_eq!(spec.indirect_trap, Trap::Robust);
    // &mut [(u8, u8, u8)]
    let spec = reference(slice(tuple(&vec![primitive(Primitive::U8), primitive(Primitive::U8), primitive(Primitive::U8)]).unwrap()).unwrap());
    assert_eq!(spec.layout, Stability::Unstable);
    assert_eq!(spec.size, Size::Sized(Sizedness::NonZero));
    assert_eq!(spec.alignment, Alignment::GtOne);
    assert_eq!(spec.trap, Trap::NonRobust);
    assert_eq!(spec.niche, Niche::WithNiche(Stability::Unstable));
    assert_eq!(spec.mutability, Mutability::Exclusive);
    assert_eq!(spec.indirect_trap, Trap::Robust);
    // Box<[(u8, u8, u8)]>
    let spec = boxed(slice(tuple(&vec![primitive(Primitive::U8), primitive(Primitive::U8), primitive(Primitive::U8)]).unwrap()).unwrap()).unwrap();
    assert_eq!(spec.layout, Stability::Unstable);
    assert_eq!(spec.size, Size::Sized(Sizedness::NonZero));
    assert_eq!(spec.alignment, Alignment::GtOne);
    assert_eq!(spec.trap, Trap::NonRobust);
    assert_eq!(spec.niche, Niche::WithNiche(Stability::Unstable));
    assert_eq!(spec.mutability, Mutability::Exclusive);
    assert_eq!(spec.indirect_trap, Trap::Robust);
    // Vec<(u8, u8, u8)>
    let spec = vector(tuple(&vec![primitive(Primitive::U8), primitive(Primitive::U8), primitive(Primitive::U8)]).unwrap()).unwrap();
    assert_eq!(spec.layout, Stability::Unstable);
    assert_eq!(spec.size, Size::Sized(Sizedness::NonZero));
    assert_eq!(spec.alignment, Alignment::GtOne);
    assert_eq!(spec.trap, Trap::NonRobust);
    assert_eq!(spec.niche, Niche::WithNiche(Stability::Unstable));
    assert_eq!(spec.mutability, Mutability::Exclusive);
    assert_eq!(spec.indirect_trap, Trap::Robust);
    // [(u8, u8, u8); 2]
    let spec = array(tuple(&vec![primitive(Primitive::U8), primitive(Primitive::U8), primitive(Primitive::U8)]).unwrap(), 2).unwrap();
    assert_eq!(spec.layout, Stability::Unstable);
    assert_eq!(spec.size, Size::Sized(Sizedness::NonZero));
    assert_eq!(spec.alignment, Alignment::One);
    assert_eq!(spec.trap, Trap::Robust);
    assert_eq!(spec.niche, Niche::WithoutNiche);
    assert_eq!(spec.mutability, Mutability::Exclusive);
    assert_eq!(spec.indirect_trap, Trap::Robust);
    // Option<(u8, u8, u8)>
    let spec = option(tuple(&vec![primitive(Primitive::U8), primitive(Primitive::U8), primitive(Primitive::U8)]).unwrap()).unwrap();
    assert_eq!(spec.layout, Stability::Unstable);
    assert_eq!(spec.size, Size::Sized(Sizedness::NonZero));
    assert_eq!(spec.alignment, Alignment::One);
    assert_eq!(spec.trap, Trap::NonRobust);
    assert_eq!(spec.niche, Niche::WithNiche(Stability::Unstable));
    assert_eq!(spec.mutability, Mutability::Exclusive);
    assert_eq!(spec.indirect_trap, Trap::Robust);
}

#[test]
fn stored_tuple_3_with_niche() {
    // (u8, StdNonZero<u8>, bool)
    let spec = tuple(&vec![primitive(Primitive::U8), non_zero(Primitive::U8).unwrap(), fieldless_primitive(FieldlessPrimitive::Bool)]).unwrap();
    assert_eq!(spec.layout, Stability::Unstable);
    assert_eq!(spec.size, Size::Sized(Sizedness::NonZero));
    assert_eq!(spec.alignment, Alignment::One);
    assert_eq!(spec.trap, Trap::NonRobust);
    assert_eq!(spec.niche, Niche::WithNiche(Stability::Unstable));
    assert_eq!(spec.mutability, Mutability::Exclusive);
    assert_eq!(spec.indirect_trap, Trap::Robust);
    // &(u8, StdNonZero<u8>, bool)
    let spec = reference(tuple(&vec![primitive(Primitive::U8), non_zero(Primitive::U8).unwrap(), fieldless_primitive(FieldlessPrimitive::Bool)]).unwrap());
    assert_eq!(spec.layout, Stability::Unstable);
    assert_eq!(spec.size, Size::Sized(Sizedness::NonZero));
    assert_eq!(spec.alignment, Alignment::GtOne);
    assert_eq!(spec.trap, Trap::NonRobust);
    assert_eq!(spec.niche, Niche::WithNiche(Stability::Stable));
    assert_eq!(spec.mutability, Mutability::Exclusive);
    assert_eq!(spec.indirect_trap, Trap::NonRobust);
    // &mut (u8, StdNonZero<u8>, bool)
    let spec = reference(tuple(&vec![primitive(Primitive::U8), non_zero(Primitive::U8).unwrap(), fieldless_primitive(FieldlessPrimitive::Bool)]).unwrap());
    assert_eq!(spec.layout, Stability::Unstable);
    assert_eq!(spec.size, Size::Sized(Sizedness::NonZero));
    assert_eq!(spec.alignment, Alignment::GtOne);
    assert_eq!(spec.trap, Trap::NonRobust);
    assert_eq!(spec.niche, Niche::WithNiche(Stability::Stable));
    assert_eq!(spec.mutability, Mutability::Exclusive);
    assert_eq!(spec.indirect_trap, Trap::NonRobust);
    // Box<(u8, StdNonZero<u8>, bool)>
    let spec = boxed(tuple(&vec![primitive(Primitive::U8), non_zero(Primitive::U8).unwrap(), fieldless_primitive(FieldlessPrimitive::Bool)]).unwrap()).unwrap();
    assert_eq!(spec.layout, Stability::Unstable);
    assert_eq!(spec.size, Size::Sized(Sizedness::NonZero));
    assert_eq!(spec.alignment, Alignment::GtOne);
    assert_eq!(spec.trap, Trap::NonRobust);
    assert_eq!(spec.niche, Niche::WithNiche(Stability::Stable));
    assert_eq!(spec.mutability, Mutability::Exclusive);
    assert_eq!(spec.indirect_trap, Trap::NonRobust);
    // &[(u8, StdNonZero<u8>, bool)]
    let spec = reference(slice(tuple(&vec![primitive(Primitive::U8), non_zero(Primitive::U8).unwrap(), fieldless_primitive(FieldlessPrimitive::Bool)]).unwrap()).unwrap());
    assert_eq!(spec.layout, Stability::Unstable);
    assert_eq!(spec.size, Size::Sized(Sizedness::NonZero));
    assert_eq!(spec.alignment, Alignment::GtOne);
    assert_eq!(spec.trap, Trap::NonRobust);
    assert_eq!(spec.niche, Niche::WithNiche(Stability::Unstable));
    assert_eq!(spec.mutability, Mutability::Exclusive);
    assert_eq!(spec.indirect_trap, Trap::NonRobust);
    // &mut [(u8, StdNonZero<u8>, bool)]
    let spec = reference(slice(tuple(&vec![primitive(Primitive::U8), non_zero(Primitive::U8).unwrap(), fieldless_primitive(FieldlessPrimitive::Bool)]).unwrap()).unwrap());
    assert_eq!(spec.layout, Stability::Unstable);
    assert_eq!(spec.size, Size::Sized(Sizedness::NonZero));
    assert_eq!(spec.alignment, Alignment::GtOne);
    assert_eq!(spec.trap, Trap::NonRobust);
    assert_eq!(spec.niche, Niche::WithNiche(Stability::Unstable));
    assert_eq!(spec.mutability, Mutability::Exclusive);
    assert_eq!(spec.indirect_trap, Trap::NonRobust);
    // Box<[(u8, StdNonZero<u8>, bool)]>
    let spec = boxed(slice(tuple(&vec![primitive(Primitive::U8), non_zero(Primitive::U8).unwrap(), fieldless_primitive(FieldlessPrimitive::Bool)]).unwrap()).unwrap()).unwrap();
    assert_eq!(spec.layout, Stability::Unstable);
    assert_eq!(spec.size, Size::Sized(Sizedness::NonZero));
    assert_eq!(spec.alignment, Alignment::GtOne);
    assert_eq!(spec.trap, Trap::NonRobust);
    assert_eq!(spec.niche, Niche::WithNiche(Stability::Unstable));
    assert_eq!(spec.mutability, Mutability::Exclusive);
    assert_eq!(spec.indirect_trap, Trap::NonRobust);
    // Vec<(u8, StdNonZero<u8>, bool)>
    let spec = vector(tuple(&vec![primitive(Primitive::U8), non_zero(Primitive::U8).unwrap(), fieldless_primitive(FieldlessPrimitive::Bool)]).unwrap()).unwrap();
    assert_eq!(spec.layout, Stability::Unstable);
    assert_eq!(spec.size, Size::Sized(Sizedness::NonZero));
    assert_eq!(spec.alignment, Alignment::GtOne);
    assert_eq!(spec.trap, Trap::NonRobust);
    assert_eq!(spec.niche, Niche::WithNiche(Stability::Unstable));
    assert_eq!(spec.mutability, Mutability::Exclusive);
    assert_eq!(spec.indirect_trap, Trap::NonRobust);
    // [(u8, StdNonZero<u8>, bool); 2]
    let spec = array(tuple(&vec![primitive(Primitive::U8), non_zero(Primitive::U8).unwrap(), fieldless_primitive(FieldlessPrimitive::Bool)]).unwrap(), 2).unwrap();
    assert_eq!(spec.layout, Stability::Unstable);
    assert_eq!(spec.size, Size::Sized(Sizedness::NonZero));
    assert_eq!(spec.alignment, Alignment::One);
    assert_eq!(spec.trap, Trap::NonRobust);
    assert_eq!(spec.niche, Niche::WithNiche(Stability::Unstable));
    assert_eq!(spec.mutability, Mutability::Exclusive);
    assert_eq!(spec.indirect_trap, Trap::Robust);
    // Option<(u8, StdNonZero<u8>, bool)>
    let spec = option(tuple(&vec![primitive(Primitive::U8), non_zero(Primitive::U8).unwrap(), fieldless_primitive(FieldlessPrimitive::Bool)]).unwrap()).unwrap();
    assert_eq!(spec.layout, Stability::Unstable);
    assert_eq!(spec.size, Size::Sized(Sizedness::NonZero));
    assert_eq!(spec.alignment, Alignment::One);
    assert_eq!(spec.trap, Trap::NonRobust);
    assert_eq!(spec.niche, Niche::WithNiche(Stability::Unstable));
    assert_eq!(spec.mutability, Mutability::Exclusive);
    assert_eq!(spec.indirect_trap, Trap::Robust);
}

