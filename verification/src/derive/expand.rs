//! Entry point of the derive: from a plain description of the item to the
//! impls to generate.
use vstd::prelude::*;

use crate::derive::attrs::{all_metas, parse_custom_niche_attr, spec_custom_niche, NestedMeta, NicheAttrError};
use crate::derive::family::Field;
use crate::derive::generate::{
    enum_has_trap_tag_values, enum_keeps_payload_mutability, enum_tag, fieldless_enum_classification, flattened,
    gen_enum_impl, gen_fieldless_enum_impl, gen_struct_fields_impl, gen_struct_impl, gen_union_impl, is_fieldless_enum,
    plain_c_enum_classification, struct_classification, tagged_enum_classification, union_classification, GeneratedImpl,
    Target, Variant,
};
use crate::derive::repr::{parse_repr, spec_parse_repr, ReprAttr, ReprError, ReprKind};
use crate::RustSpec;

verus! {

/// The body of the item that the derive is applied to.
pub enum Data {
    Struct(Vec<Field>),
    Enum(Vec<Variant>),
    Union(Vec<Field>),
}

/// Everything the derive reads from an item.
pub struct DeriveInput {
    /// Nested items of each `#[rust_spec(..)]` attribute.
    pub niche_attrs: Vec<Vec<NestedMeta>>,
    /// The item's `#[repr]` attributes.
    pub repr_attrs: Vec<ReprAttr>,
    pub data: Data,
}

/// Why the derive rejects an item.
#[derive(Clone, Copy, Debug, PartialEq, Eq, Structural)]
pub enum DeriveError {
    Niche(NicheAttrError),
    Repr(ReprError),
}

/// Whether `impls` is one impl for every target that gives the item the
/// classification `expected(env)` for every classification `env` of its
/// fields `fields`, with exactly the where-predicates it needs.
pub open spec fn single_impl(
    impls: Seq<GeneratedImpl>,
    fields: Seq<Field>,
    expected: spec_fn(Seq<RustSpec>) -> Option<RustSpec>,
) -> bool {
    &&& impls.len() == 1
    &&& impls[0].target == Target::All
    &&& impls[0].families.implements(fields.len(), expected)
    &&& impls[0].families.bounds_complete(fields)
}

/// Whether `impls` are the three `#[repr(C)]` enum impls of an enum with
/// `num_variants` variants and fields `fields`, each with exactly the
/// where-predicates it needs.
pub open spec fn plain_c_impls(impls: Seq<GeneratedImpl>, fields: Seq<Field>, align: Option<usize>, num_variants: nat) -> bool {
    let n = fields.len();
    &&& impls.len() == 3
    &&& impls[0].target == Target::EightBitCEnum
    &&& impls[1].target == Target::SixteenBitCEnum
    &&& impls[2].target == Target::ThirtyTwoBitCEnum
    &&& forall|k: int| 0 <= k < 3 ==> (#[trigger] impls[k]).families.implements(
        n,
        |env: Seq<RustSpec>| Some(plain_c_enum_classification(impls[k].target, align, num_variants, env)),
    )
    &&& forall|k: int| 0 <= k < 3 ==> (#[trigger] impls[k]).families.bounds_complete(fields)
}

/// Whether `impls` are what the derive generates for an item with body `data`,
/// representation `repr` (with alignment `align`) and custom-niche flag
/// `custom_niche`.
pub open spec fn expected_impls(
    impls: Seq<GeneratedImpl>,
    data: Data,
    repr: Option<ReprKind>,
    align: Option<usize>,
    custom_niche: bool,
) -> bool {
    match data {
        Data::Struct(fields) => single_impl(
            impls,
            fields@,
            |env: Seq<RustSpec>| struct_classification(repr, align, custom_niche, env),
        ),
        Data::Enum(variants) => {
            let vs = variants@;
            let n = vs.len();
            if forall|i: int| 0 <= i < n ==> #[trigger] vs[i].is_unit {
                if repr == Some(ReprKind::C(None)) {
                    plain_c_impls(impls, flattened(vs), align, n)
                } else {
                    single_impl(impls, Seq::empty(), |env: Seq<RustSpec>| Some(fieldless_enum_classification(repr, align, n)))
                }
            } else if repr == Some(ReprKind::Transparent) || (repr is None && n == 1) {
                single_impl(
                    impls,
                    vs[0].fields@,
                    |env: Seq<RustSpec>| struct_classification(repr, align, custom_niche, env),
                )
            } else if repr == Some(ReprKind::C(None)) {
                plain_c_impls(impls, flattened(vs), align, n)
            } else {
                single_impl(
                    impls,
                    flattened(vs),
                    |env: Seq<RustSpec>|
                        Some(
                            tagged_enum_classification(
                                repr is Some,
                                align,
                                enum_tag(repr, n),
                                enum_has_trap_tag_values(repr, n),
                                enum_keeps_payload_mutability(repr, n),
                                env,
                            ),
                        ),
                )
            }
        },
        Data::Union(fields) => if repr == Some(ReprKind::Transparent) {
            single_impl(
                impls,
                fields@,
                |env: Seq<RustSpec>| struct_classification(Some(ReprKind::Transparent), align, custom_niche, env),
            )
        } else {
            single_impl(impls, fields@, |env: Seq<RustSpec>| union_classification(repr, align, env))
        },
    }
}

/// The `RustSpec` impls to generate for an item, or why the item is rejected.
pub fn expand(input: &DeriveInput) -> (impls: Result<Vec<GeneratedImpl>, DeriveError>)
    ensures
        match spec_custom_niche(all_metas(input.niche_attrs@)) {
            Err(e) => impls == Err::<Vec<GeneratedImpl>, DeriveError>(DeriveError::Niche(e)),
            Ok(custom_niche) => match spec_parse_repr(input.repr_attrs@) {
                Err(e) => impls == Err::<Vec<GeneratedImpl>, DeriveError>(DeriveError::Repr(e)),
                Ok(repr) => impls matches Ok(generated) && expected_impls(
                    generated@,
                    input.data,
                    repr.kind,
                    repr.align,
                    custom_niche,
                ),
            },
        },
{
    let custom_niche = match parse_custom_niche_attr(&input.niche_attrs) {
        Ok(custom_niche) => custom_niche,
        Err(e) => {
            return Err(DeriveError::Niche(e));
        },
    };
    let repr = match parse_repr(&input.repr_attrs) {
        Ok(repr) => repr,
        Err(e) => {
            return Err(DeriveError::Repr(e));
        },
    };
    let alignment = repr.align;
    let kind = repr.kind;
    let mut impls: Vec<GeneratedImpl> = Vec::new();
    match &input.data {
        Data::Struct(fields) => {
            let families = gen_struct_impl(kind, alignment, fields, custom_niche);
            impls.push(GeneratedImpl { target: Target::All, families });
        },
        Data::Enum(variants) => {
            if is_fieldless_enum(variants) {
                impls = gen_fieldless_enum_impl(kind, alignment, variants);
            } else if kind == Some(ReprKind::Transparent) || (kind.is_none() && variants.len() == 1) {
                let families = gen_struct_impl(kind, alignment, &variants[0].fields, custom_niche);
                impls.push(GeneratedImpl { target: Target::All, families });
            } else {
                impls = gen_enum_impl(kind, alignment, variants);
            }
        },
        Data::Union(fields) => {
            if kind == Some(ReprKind::Transparent) {
                let families = gen_struct_fields_impl(Some(ReprKind::Transparent), alignment, fields, custom_niche);
                impls.push(GeneratedImpl { target: Target::All, families });
            } else {
                let families = gen_union_impl(kind, alignment, fields);
                impls.push(GeneratedImpl { target: Target::All, families });
            }
        },
    }
    Ok(impls)
}

} // verus!
