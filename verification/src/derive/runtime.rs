//! Where the generated impls find the runtime items: the `rust-spec` crate
//! directly, or through the `co3` facade that re-exports it.
use vstd::prelude::*;

verus! {

/// What a lookup of a crate among the dependencies of the crate being compiled
/// found.
pub enum CrateLookup {
    /// The crate being compiled is that crate.
    Itself,
    /// A dependency on that crate, under the given name.
    Named(String),
    /// No such dependency.
    Missing,
}

/// The path of the runtime items as seen from the crate being compiled.
pub enum RuntimePath {
    /// `rust_spec`: the crate being compiled is `rust-spec`.
    OwnCrate,
    /// `name`: `rust-spec` is a dependency named `name`.
    Direct(String),
    /// `crate::rust_spec`: the crate being compiled is the facade.
    FacadeItself,
    /// `name::rust_spec`: the facade is a dependency named `name`.
    Facade(String),
    /// `co3::rust_spec`: neither was found, so the facade's usual name.
    FacadeDefault,
}

/// The runtime path: `rust-spec` itself when it is found, else through the
/// facade when that is found, else through the facade's usual name.
pub open spec fn spec_runtime_path(rust_spec: CrateLookup, facade: CrateLookup) -> RuntimePath {
    match rust_spec {
        CrateLookup::Itself => RuntimePath::OwnCrate,
        CrateLookup::Named(name) => RuntimePath::Direct(name),
        CrateLookup::Missing => match facade {
            CrateLookup::Itself => RuntimePath::FacadeItself,
            CrateLookup::Named(name) => RuntimePath::Facade(name),
            CrateLookup::Missing => RuntimePath::FacadeDefault,
        },
    }
}

/// Chooses the runtime path from the lookups of `rust-spec` and of the facade.
pub fn runtime_path(rust_spec: CrateLookup, facade: CrateLookup) -> (path: RuntimePath)
    ensures
        path == spec_runtime_path(rust_spec, facade),
{
    match rust_spec {
        CrateLookup::Itself => RuntimePath::OwnCrate,
        CrateLookup::Named(name) => RuntimePath::Direct(name),
        CrateLookup::Missing => match facade {
            CrateLookup::Itself => RuntimePath::FacadeItself,
            CrateLookup::Named(name) => RuntimePath::Facade(name),
            CrateLookup::Missing => RuntimePath::FacadeDefault,
        },
    }
}


/// `rust-spec` wins over the facade: when it is found, the facade's lookup
/// changes nothing and the path is `rust-spec` under the name it was found
/// by; the facade is used, under its own name, only when `rust-spec` is
/// missing; and the usual facade name is the last resort.
pub proof fn lemma_runtime_preference(rust_spec: CrateLookup, facade: CrateLookup, other: CrateLookup)
    ensures
        !(rust_spec is Missing) ==> spec_runtime_path(rust_spec, facade) == spec_runtime_path(rust_spec, other),
        rust_spec matches CrateLookup::Named(name) ==> spec_runtime_path(rust_spec, facade) == RuntimePath::Direct(
            name,
        ),
        rust_spec is Missing ==> (facade matches CrateLookup::Named(name) ==> spec_runtime_path(rust_spec, facade)
            == RuntimePath::Facade(name)),
        spec_runtime_path(rust_spec, facade) == RuntimePath::FacadeDefault <==> (rust_spec is Missing
            && facade is Missing),
        spec_runtime_path(rust_spec, facade) == RuntimePath::OwnCrate <==> rust_spec is Itself,
        spec_runtime_path(rust_spec, facade) == RuntimePath::FacadeItself <==> (rust_spec is Missing
            && facade is Itself),
{
}

} // verus!
