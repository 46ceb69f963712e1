//! The classification that `#[derive(RustSpec)]` generates for a struct, enum
//! or union, computed from a plain description of the item.
//!
//! Field types are not known when the derive runs, so every axis of the
//! generated classification is a [`family::Kind`]: an expression over the
//! fields' own classifications. [`family::eval`] gives the classification that
//! such an expression denotes once the fields are known, and the contracts
//! below say what that classification is for every choice of field
//! classifications.
pub mod attrs;
pub mod expand;
pub mod family;
pub mod generate;
pub mod hrtb;
pub mod repr;
pub mod runtime;
