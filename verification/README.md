# rust-spec

Classification of Rust types by Rust-specified properties: representation
stability, trap robustness, size shape, alignment, niche availability,
whole-value mutability through shared access, and the robustness reachable
through supported pointers.

The library is verified with Verus. Every axis exists twice: as zero-sized
marker types combined with `+` at the type level, and as a value-level enum
whose combination is the specification the marker arithmetic is checked
against.

## Layout

- `src/lib.rs`, `layout.rs`, `size.rs`, `alignment.rs`, `niche.rs`,
  `mutability.rs`, `repr.rs`: the axes, their markers and value-level combination, with the
  algebraic laws of each combination.
- `primitives.rs`, `pointers.rs`, `tuple.rs`, `core_impls.rs`: the
  classification of primitive, pointer, slice, array, function-pointer,
  tuple, `Option`, `Result` and standard-library types, each an executable
  function proved equal to its specification.
- `laws.rs`: properties that the classification rules promise as a whole.
- `derive/`: the logic of `#[derive(RustSpec)]` on a plain description of the
  item: `#[repr]` and `#[rust_spec]` attribute parsing, higher-ranked
  projection bounds, the type-level families of the generated impls, proved
  to denote the classification of the item for every classification of its
  fields and to carry exactly the where-predicates they need, and the
  where-clause of each impl.
- `app/lib.rs`: the unverified front end of the derive, which reads an item
  with `syn` into the library's plain description (field type shapes,
  interned paths), calls the library and prints the impls with `quote`.
