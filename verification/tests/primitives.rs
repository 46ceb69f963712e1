#![allow(unused_imports)]
use rust_spec::core_impls::{core_type, non_zero, transparent_wrapper, unsafe_cell, vector, CoreType};
use rust_spec::layout::Trap;
use rust_spec::mutability::Mutability;
use rust_spec::niche::Niche;
use rust_spec::pointers::{boxed, option, reference, result};
use rust_spec::primitives::{
    array, fieldless_primitive, function_pointer, primitive, raw_pointer, slice, Abi, Arch, FieldlessPrimitive,
    Primitive,
};
use rust_spec::size::{Metadata, Size, Sizedness};
use rust_spec::tuple::tuple;
use rust_spec::{Alignment, RustSpec, Stability};

#[test]
fn function_pointer_classification() {
    // RustFn
    let spec = function_pointer(Abi::Rust, Arch::X86_64, &vec![], core_type(CoreType::Unit)).unwrap();
    assert_eq!(spec.layout, Stability::Unstable);
    assert_eq!(spec.niche, Niche::WithNiche(Stability::Stable));
    // unsafe fn(u8) -> u16
    let spec = function_pointer(Abi::Rust, Arch::X86_64, &vec![primitive(Primitive::U8)], primitive(Primitive::U16)).unwrap();
    assert_eq!(spec.layout, Stability::Unstable);
    // extern "Rust" fn(u8) -> u16
    let spec = function_pointer(Abi::Rust, Arch::X86_64, &vec![primitive(Primitive::U8)], primitive(Primitive::U16)).unwrap();
    assert_eq!(spec.layout, Stability::Unstable);
    // extern "C" fn(u8) -> u16
    let spec = function_pointer(Abi::C, Arch::X86_64, &vec![primitive(Primitive::U8)], primitive(Primitive::U16)).unwrap();
    assert_eq!(spec.layout, Stability::Stable);
    // unsafe extern "C" fn(u8) -> u16
    let spec = function_pointer(Abi::C, Arch::X86_64, &vec![primitive(Primitive::U8)], primitive(Primitive::U16)).unwrap();
    assert_eq!(spec.layout, Stability::Stable);
    // extern "C-unwind" fn(u8) -> u16
    let spec = function_pointer(Abi::CUnwind, Arch::X86_64, &vec![primitive(Primitive::U8)], primitive(Primitive::U16)).unwrap();
    assert_eq!(spec.layout, Stability::Stable);
    // extern "system" fn(u8) -> u16
    let spec = function_pointer(Abi::System, Arch::X86_64, &vec![primitive(Primitive::U8)], primitive(Primitive::U16)).unwrap();
    assert_eq!(spec.layout, Stability::Stable);
    // extern "system-unwind" fn(u8) -> u16
    let spec = function_pointer(Abi::SystemUnwind, Arch::X86_64, &vec![primitive(Primitive::U8)], primitive(Primitive::U16)).unwrap();
    assert_eq!(spec.layout, Stability::Stable);
    // extern "sysv64" fn(u8) -> u16
    let spec = function_pointer(Abi::Sysv64, Arch::X86_64, &vec![primitive(Primitive::U8)], primitive(Primitive::U16)).unwrap();
    assert_eq!(spec.layout, Stability::Stable);
    // extern "win64" fn(u8) -> u16
    let spec = function_pointer(Abi::Win64, Arch::X86_64, &vec![primitive(Primitive::U8)], primitive(Primitive::U16)).unwrap();
    assert_eq!(spec.layout, Stability::Stable);
    // extern "C" fn((u8,)) -> u16
    let spec = function_pointer(Abi::C, Arch::X86_64, &vec![tuple(&vec![primitive(Primitive::U8)]).unwrap()], primitive(Primitive::U16)).unwrap();
    assert_eq!(spec.layout, Stability::Unstable);
    // extern "C" fn(u8) -> (u16,)
    let spec = function_pointer(Abi::C, Arch::X86_64, &vec![primitive(Primitive::U8)], tuple(&vec![primitive(Primitive::U16)]).unwrap()).unwrap();
    assert_eq!(spec.layout, Stability::Unstable);
    // CFn12
    let spec = function_pointer(Abi::C, Arch::X86_64, &vec![primitive(Primitive::U8), primitive(Primitive::U8), primitive(Primitive::U8), primitive(Primitive::U8), primitive(Primitive::U8), primitive(Primitive::U8), primitive(Primitive::U8), primitive(Primitive::U8), primitive(Primitive::U8), primitive(Primitive::U8), primitive(Primitive::U8), primitive(Primitive::U8)], core_type(CoreType::Unit)).unwrap();
    assert_eq!(spec.layout, Stability::Stable);
}

fn named() {}

#[test]
fn function_pointer_option_has_pointer_size() {
    let _: fn() = named;

    assert_eq!(std::mem::size_of::<Option<fn()>>(), std::mem::size_of::<fn()>());
    assert_eq!(std::mem::size_of::<Option<fn(u8) -> u16>>(), std::mem::size_of::<fn(u8) -> u16>());

    // The guaranteed null niche is what the classification promises.
    let unit = core_type(CoreType::Unit);
    let spec = function_pointer(Abi::Rust, Arch::X86_64, &vec![], unit).unwrap();
    assert_eq!(spec.niche, Niche::WithNiche(Stability::Stable));
    let spec = function_pointer(Abi::System, Arch::X86_64, &vec![], unit).unwrap();
    assert_eq!(spec.niche, Niche::WithNiche(Stability::Stable));
}

#[test]
fn robust_u8() {
    // u8
    let spec = primitive(Primitive::U8);
    assert_eq!(spec.layout, Stability::Stable);
    assert_eq!(spec.size, Size::Sized(Sizedness::NonZero));
    assert_eq!(spec.alignment, Alignment::One);
    assert_eq!(spec.trap, Trap::Robust);
    assert_eq!(spec.niche, Niche::WithoutNiche);
    assert_eq!(spec.mutability, Mutability::Exclusive);
    assert_eq!(spec.indirect_trap, Trap::Robust);
    // &u8
    let spec = reference(primitive(Primitive::U8));
    assert_eq!(spec.layout, Stability::Stable);
    assert_eq!(spec.size, Size::Sized(Sizedness::NonZero));
    assert_eq!(spec.alignment, Alignment::GtOne);
    assert_eq!(spec.trap, Trap::NonRobust);
    assert_eq!(spec.niche, Niche::WithNiche(Stability::Stable));
    assert_eq!(spec.mutability, Mutability::Exclusive);
    assert_eq!(spec.indirect_trap, Trap::Robust);
    // &mut u8
    let spec = reference(primitive(Primitive::U8));
    assert_eq!(spec.layout, Stability::Stable);
    assert_eq!(spec.size, Size::Sized(Sizedness::NonZero));
    assert_eq!(spec.alignment, Alignment::GtOne);
    assert_eq!(spec.trap, Trap::NonRobust);
    assert_eq!(spec.niche, Niche::WithNiche(Stability::Stable));
    assert_eq!(spec.mutability, Mutability::Exclusive);
    assert_eq!(spec.indirect_trap, Trap::Robust);
    // Box<u8>
    let spec = boxed(primitive(Primitive::U8)).unwrap();
    assert_eq!(spec.layout, Stability::Stable);
    assert_eq!(spec.size, Size::Sized(Sizedness::NonZero));
    assert_eq!(spec.alignment, Alignment::GtOne);
    assert_eq!(spec.trap, Trap::NonRobust);
    assert_eq!(spec.niche, Niche::WithNiche(Stability::Stable));
    assert_eq!(spec.mutability, Mutability::Exclusive);
    assert_eq!(spec.indirect_trap, Trap::Robust);
    // &[u8]
    let spec = reference(slice(primitive(Primitive::U8)).unwrap());
    assert_eq!(spec.layout, Stability::Unstable);
    assert_eq!(spec.size, Size::Sized(Sizedness::NonZero));
    assert_eq!(spec.alignment, Alignment::GtOne);
    assert_eq!(spec.trap, Trap::NonRobust);
    assert_eq!(spec.niche, Niche::WithNiche(Stability::Unstable));
    assert_eq!(spec.mutability, Mutability::Exclusive);
    assert_eq!(spec.indirect_trap, Trap::Robust);
    // &mut [u8]
    let spec = reference(slice(primitive(Primitive::U8)).unwrap());
    assert_eq!(spec.layout, Stability::Unstable);
    assert_eq!(spec.size, Size::Sized(Sizedness::NonZero));
    assert_eq!(spec.alignment, Alignment::GtOne);
    assert_eq!(spec.trap, Trap::NonRobust);
    assert_eq!(spec.niche, Niche::WithNiche(Stability::Unstable));
    assert_eq!(spec.mutability, Mutability::Exclusive);
    assert_eq!(spec.indirect_trap, Trap::Robust);
    // Box<[u8]>
    let spec = boxed(slice(primitive(Primitive::U8)).unwrap()).unwrap();
    assert_eq!(spec.layout, Stability::Unstable);
    assert_eq!(spec.size, Size::Sized(Sizedness::NonZero));
    assert_eq!(spec.alignment, Alignment::GtOne);
    assert_eq!(spec.trap, Trap::NonRobust);
    assert_eq!(spec.niche, Niche::WithNiche(Stability::Unstable));
    assert_eq!(spec.mutability, Mutability::Exclusive);
    assert_eq!(spec.indirect_trap, Trap::Robust);
    // Vec<u8>
    let spec = vector(primitive(Primitive::U8)).unwrap();
    assert_eq!(spec.layout, Stability::Unstable);
    assert_eq!(spec.size, Size::Sized(Sizedness::NonZero));
    assert_eq!(spec.alignment, Alignment::GtOne);
    assert_eq!(spec.trap, Trap::NonRobust);
    assert_eq!(spec.niche, Niche::WithNiche(Stability::Unstable));
    assert_eq!(spec.mutability, Mutability::Exclusive);
    assert_eq!(spec.indirect_trap, Trap::Robust);
    // [u8; 2]
    let spec = array(primitive(Primitive::U8), 2).unwrap();
    assert_eq!(spec.layout, Stability::Stable);
    assert_eq!(spec.size, Size::Sized(Sizedness::NonZero));
    assert_eq!(spec.alignment, Alignment::One);
    assert_eq!(spec.trap, Trap::Robust);
    assert_eq!(spec.niche, Niche::WithoutNiche);
    assert_eq!(spec.mutability, Mutability::Exclusive);
    assert_eq!(spec.indirect_trap, Trap::Robust);
    // Option<u8>
    let spec = option(primitive(Primitive::U8)).unwrap();
    assert_eq!(spec.layout, Stability::Unstable);
    assert_eq!(spec.size, Size::Sized(Sizedness::NonZero));
    assert_eq!(spec.alignment, Alignment::One);
    assert_eq!(spec.trap, Trap::NonRobust);
    assert_eq!(spec.niche, Niche::WithNiche(Stability::Unstable));
    assert_eq!(spec.mutability, Mutability::Exclusive);
    assert_eq!(spec.indirect_trap, Trap::Robust);
}

