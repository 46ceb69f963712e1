//! The families that the derive generates for each axis, and the
//! classification that they amount to.
use vstd::prelude::*;

use crate::derive::family::{
    aggregate_fold, all_indices, axis_class, combine_class, combined_size, eval, from_eval, field_axis_kind, fold, lemma_fold_conjunction, lemma_fold_niche,
    lemma_fold_size, lemma_join_laws, none_has_niche, required_bounds, routes_fields, total_operation, AggregateFamily, Axis, Class,
    Field, Folded, Kind, Marker, Operator, Bound,
};
use crate::derive::hrtb::{all_field_bounds, bound_needs_binders, field_bounds, kind_mentions_hrtb, FieldBound};
use crate::derive::repr::{infer_repr, primitive_tag_has_traps, rust_tag_has_traps, spec_infer_repr, Repr, ReprKind, Tag};
use crate::layout::Trap;
use crate::mutability::Mutability;
use crate::niche::Niche;
use crate::size::{Size, Sizedness};
use crate::{all_indirectly_robust, all_robust, all_stable, any_over_aligned, Alignment, RustSpec, Stability};

verus! {

/// Whether a `#[repr(align(..))]` value raises the alignment above one byte.
pub open spec fn raises_alignment(align: Option<usize>) -> bool {
    align matches Some(value) && value > 1
}

/// Whether the family denotes `value(env)` and its where-predicates hold, for
/// every classification `env` of `n` fields.
pub open spec fn family_yields(family: AggregateFamily, n: nat, value: spec_fn(Seq<RustSpec>) -> Class) -> bool {
    forall|env: Seq<RustSpec>|
        env.len() == n ==> #[trigger] eval(family.kind, env) == Some(value(env)) && family.bounds_hold(env)
}

impl AggregateFamily {
    /// Whether every where-predicate of the family holds.
    pub open spec fn bounds_hold(self, env: Seq<RustSpec>) -> bool {
        forall|j: int| 0 <= j < self.aggregate_bounds@.len() ==> #[trigger] self.aggregate_bounds@[j].holds(env)
    }
}

/// A fixed family without where-predicates needs none.
proof fn lemma_fixed_complete(family: AggregateFamily, fields: Seq<Field>)
    requires
        family.kind is Fixed || family.kind is Field || family.kind is HrtbField,
        routes_fields(family.kind, fields),
        family.aggregate_bounds@.len() == 0,
    ensures
        family.bounds_complete(fields),
{
    assert(required_bounds(family.kind, fields) =~= family.aggregate_bounds@);
}

/// Combining a family with a fixed left operand whose operation names a type
/// for every right operand needs no more where-predicates than the family.
proof fn lemma_total_wrap(op: Operator, lhs: Kind, inner: Kind, fields: Seq<Field>)
    requires
        total_operation(op, lhs),
    ensures
        required_bounds(Kind::Apply(op, Box::new(lhs), Box::new(inner)), fields) == required_bounds(inner, fields),
        routes_fields(Kind::Apply(op, Box::new(lhs), Box::new(inner)), fields) == routes_fields(inner, fields),
{
    assert(required_bounds(lhs, fields) =~= Seq::<Bound>::empty());
    assert(routes_fields(lhs, fields));
    assert(required_bounds(Kind::Apply(op, Box::new(lhs), Box::new(inner)), fields) =~= required_bounds(inner, fields));
}

/// Family of a representation that Rust does not guarantee.
pub fn gen_unstable_layout_family() -> (family: AggregateFamily)
    ensures
        family.kind == Kind::Fixed(Marker::Unstable),
        family.aggregate_bounds@.len() == 0,
{
    AggregateFamily::fixed(Kind::Fixed(Marker::Unstable))
}

/// Whether every field's `axis` is `good`.
pub open spec fn all_fields_are(env: Seq<RustSpec>, axis: Axis, good: Class) -> bool {
    forall|i: int| 0 <= i < env.len() ==> #[trigger] axis_class(env[i], axis) == good
}

/// An aggregate family over an operator that keeps `good` only while every
/// operand is `good` denotes `good` exactly when the seed (if any) and every
/// field are `good`.
proof fn lemma_aggregate_conjunction(
    family: AggregateFamily,
    op: Operator,
    axis: Axis,
    seed: Option<Marker>,
    n: nat,
    good: Class,
    bad: Class,
)
    requires
        family.denotes(op, axis, seed, n),
        seed is None ==> n > 0,
        seed matches Some(m) ==> (m.class() == good || m.class() == bad),
        forall|s: RustSpec| #[trigger] axis_class(s, axis) == good || axis_class(s, axis) == bad,
        combine_class(op, good, good) == Some(good),
        combine_class(op, good, bad) == Some(bad),
        combine_class(op, bad, good) == Some(bad),
        combine_class(op, bad, bad) == Some(bad),
    ensures
        forall|env: Seq<RustSpec>|
            env.len() == n ==> #[trigger] eval(family.kind, env) == Some(
                if (seed matches Some(m) ==> m.class() == good) && all_fields_are(env, axis, good) {
                    good
                } else {
                    bad
                },
            ) && family.bounds_hold(env),
{
    assert forall|env: Seq<RustSpec>| env.len() == n implies #[trigger] eval(family.kind, env) == Some(
        if (seed matches Some(m) ==> m.class() == good) && all_fields_are(env, axis, good) {
            good
        } else {
            bad
        },
    ) && family.bounds_hold(env) by {
        assert(from_eval(eval(family.kind, env)) == aggregate_fold(op, axis, seed, env));
        assert forall|i: int| 0 <= i < n implies #[trigger] axis_class(env[i], axis) == good || axis_class(env[i], axis) == bad by {
            assert(axis_class(env[i], axis) == good || axis_class(env[i], axis) == bad);
        };
        lemma_fold_conjunction(op, axis, env, n, good, bad);
        let f = fold(op, axis, env, all_indices(n));
        lemma_join_laws(op, Folded::Empty, f, Folded::Empty);
        assert(all_fields_are(env, axis, good) == forall|i: int| 0 <= i < n ==> #[trigger] axis_class(env[i], axis) == good);
    };
}

/// Layout family of an item whose `repr` guarantees its representation: stable
/// exactly when every field is.
pub fn gen_stable_layout_family(fields: &Vec<Field>) -> (family: AggregateFamily)
    ensures
        family_yields(
            family,
            fields@.len(),
            |env: Seq<RustSpec>|
                Class::Layout(if all_stable(env) { Stability::Stable } else { Stability::Unstable }),
        ),
        family.bounds_complete(fields@),
{
    let family = match AggregateFamily::aggregate(Operator::Add, Axis::Layout, fields) {
        Some(family) => family,
        None => AggregateFamily::fixed(Kind::Fixed(Marker::Stable)),
    };
    proof {
        if fields@.len() == 0 {
            lemma_fixed_complete(family, fields@);
        }
        let n = fields@.len();
        let good = Class::Layout(Stability::Stable);
        if n > 0 {
            lemma_aggregate_conjunction(family, Operator::Add, Axis::Layout, None, n, good, Class::Layout(Stability::Unstable));
        }
        assert forall|env: Seq<RustSpec>| env.len() == n implies #[trigger] eval(family.kind, env) == Some(
            Class::Layout(if all_stable(env) { Stability::Stable } else { Stability::Unstable }),
        ) && family.bounds_hold(env) by {
            assert(all_stable(env) == all_fields_are(env, Axis::Layout, good)) by {
                if all_fields_are(env, Axis::Layout, good) {
                    assert forall|i: int| 0 <= i < env.len() implies #[trigger] env[i].layout == Stability::Stable by {
                        assert(axis_class(env[i], Axis::Layout) == good);
                    };
                }
            };
        };
    }
    family
}

/// Layout family of an enum whose `repr` guarantees its representation.
pub fn gen_enum_layout_family(fields: &Vec<Field>) -> (family: AggregateFamily)
    ensures
        family_yields(
            family,
            fields@.len(),
            |env: Seq<RustSpec>|
                Class::Layout(if all_stable(env) { Stability::Stable } else { Stability::Unstable }),
        ),
        family.bounds_complete(fields@),
{
    gen_stable_layout_family(fields)
}

/// Indirect trap family: robust exactly when no field reaches trap values
/// through a supported pointer.
pub fn gen_indirect_trap_family(fields: &Vec<Field>) -> (family: AggregateFamily)
    ensures
        family_yields(
            family,
            fields@.len(),
            |env: Seq<RustSpec>|
                Class::Trap(if all_indirectly_robust(env) { Trap::Robust } else { Trap::NonRobust }),
        ),
        family.bounds_complete(fields@),
{
    let family = match AggregateFamily::aggregate(Operator::Add, Axis::IndirectTrap, fields) {
        Some(family) => family,
        None => AggregateFamily::fixed(Kind::Fixed(Marker::Robust)),
    };
    proof {
        if fields@.len() == 0 {
            lemma_fixed_complete(family, fields@);
        }
        let n = fields@.len();
        let good = Class::Trap(Trap::Robust);
        if n > 0 {
            lemma_aggregate_conjunction(family, Operator::Add, Axis::IndirectTrap, None, n, good, Class::Trap(Trap::NonRobust));
        }
        assert forall|env: Seq<RustSpec>| env.len() == n implies #[trigger] eval(family.kind, env) == Some(
            Class::Trap(if all_indirectly_robust(env) { Trap::Robust } else { Trap::NonRobust }),
        ) && family.bounds_hold(env) by {
            assert(all_indirectly_robust(env) == all_fields_are(env, Axis::IndirectTrap, good)) by {
                if all_fields_are(env, Axis::IndirectTrap, good) {
                    assert forall|i: int| 0 <= i < env.len() implies #[trigger] env[i].indirect_trap == Trap::Robust by {
                        assert(axis_class(env[i], Axis::IndirectTrap) == good);
                    };
                }
            };
        };
    }
    family
}

/// Trap family: robust exactly when the item itself has no trap values (such
/// as unused enum tags) and no field has any.
pub fn gen_trap_family(fields: &Vec<Field>, has_trap_values: bool) -> (family: AggregateFamily)
    ensures
        family_yields(
            family,
            fields@.len(),
            |env: Seq<RustSpec>|
                Class::Trap(if !has_trap_values && all_robust(env) { Trap::Robust } else { Trap::NonRobust }),
        ),
        family.bounds_complete(fields@),
{
    let init = if has_trap_values {
        Marker::NonRobust
    } else {
        Marker::Robust
    };
    let family = AggregateFamily::aggregate_with_seed(Operator::Add, Axis::Trap, init, fields);
    proof {
        let n = fields@.len();
        let good = Class::Trap(Trap::Robust);
        lemma_aggregate_conjunction(family, Operator::Add, Axis::Trap, Some(init), n, good, Class::Trap(Trap::NonRobust));
        assert forall|env: Seq<RustSpec>| env.len() == n implies #[trigger] eval(family.kind, env) == Some(
            Class::Trap(if !has_trap_values && all_robust(env) { Trap::Robust } else { Trap::NonRobust }),
        ) && family.bounds_hold(env) by {
            assert(all_robust(env) == all_fields_are(env, Axis::Trap, good)) by {
                if all_fields_are(env, Axis::Trap, good) {
                    assert forall|i: int| 0 <= i < env.len() implies #[trigger] env[i].trap == Trap::Robust by {
                        assert(axis_class(env[i], Axis::Trap) == good);
                    };
                }
            };
        };
    }
    family
}

/// Size family: the combined size of the fields, zero-sized without fields.
pub fn gen_size_family(fields: &Vec<Field>) -> (family: AggregateFamily)
    ensures
        forall|env: Seq<RustSpec>|
            env.len() == fields@.len() ==> #[trigger] eval(family.kind, env) == match combined_size(env, env.len()) {
                Some(s) => Some(Class::Size(s)),
                None => None,
            } && (combined_size(env, env.len()) is Some ==> family.bounds_hold(env)),
        family.bounds_complete(fields@),
{
    let family = match AggregateFamily::aggregate(Operator::Add, Axis::Size, fields) {
        Some(family) => family,
        None => AggregateFamily::fixed(Kind::Fixed(Marker::SizedZero)),
    };
    proof {
        if fields@.len() == 0 {
            lemma_fixed_complete(family, fields@);
        }
        let n = fields@.len();
        assert forall|env: Seq<RustSpec>| env.len() == n implies #[trigger] eval(family.kind, env) == match combined_size(env, env.len()) {
            Some(s) => Some(Class::Size(s)),
            None => None,
        } && (combined_size(env, env.len()) is Some ==> family.bounds_hold(env)) by {
            lemma_fold_size(env, n);
            if n > 0 {
                assert(from_eval(eval(family.kind, env)) == aggregate_fold(Operator::Add, Axis::Size, None, env));
                lemma_join_laws(Operator::Add, Folded::Empty, fold(Operator::Add, Axis::Size, env, all_indices(n)), Folded::Empty);
            }
        };
    }
    family
}

/// Alignment family: the largest alignment among the fields and the enum tag
/// (if any), one byte when there is neither.
pub fn gen_alignment_family(fields: &Vec<Field>, tag: Option<Tag>) -> (family: AggregateFamily)
    ensures
        family_yields(
            family,
            fields@.len(),
            |env: Seq<RustSpec>|
                Class::Alignment(
                    if any_over_aligned(env) || (tag matches Some(t) && t.alignment() == Alignment::GtOne) {
                        Alignment::GtOne
                    } else {
                        Alignment::One
                    },
                ),
        ),
        family.bounds_complete(fields@),
{
    let mut family = match AggregateFamily::aggregate(Operator::Max, Axis::Alignment, fields) {
        Some(family) => family,
        None => AggregateFamily::fixed(Kind::Fixed(Marker::One)),
    };
    let ghost untagged = family;
    proof {
        if fields@.len() == 0 {
            lemma_fixed_complete(family, fields@);
        }
        let n = fields@.len();
        let good = Class::Alignment(Alignment::One);
        if n > 0 {
            lemma_aggregate_conjunction(family, Operator::Max, Axis::Alignment, None, n, good, Class::Alignment(Alignment::GtOne));
        }
        assert forall|env: Seq<RustSpec>| env.len() == n implies #[trigger] eval(family.kind, env) == Some(
            Class::Alignment(if any_over_aligned(env) { Alignment::GtOne } else { Alignment::One }),
        ) && family.bounds_hold(env) by {
            assert(any_over_aligned(env) == !all_fields_are(env, Axis::Alignment, good)) by {
                if any_over_aligned(env) {
                    let w = choose|i: int| 0 <= i < env.len() && #[trigger] env[i].alignment == Alignment::GtOne;
                    assert(axis_class(env[w], Axis::Alignment) != good);
                }
                if !all_fields_are(env, Axis::Alignment, good) {
                    let w = choose|i: int| 0 <= i < env.len() && #[trigger] axis_class(env[i], Axis::Alignment) != good;
                    assert(env[w].alignment == Alignment::GtOne);
                }
            };
        };
    }
    if let Some(tag) = tag {
        let kind = family.kind;
        family.kind = Kind::Apply(Operator::Max, Box::new(Kind::TagAlignment(tag)), Box::new(kind));
        proof {
            lemma_total_wrap(Operator::Max, Kind::TagAlignment(tag), untagged.kind, fields@);
            let n = fields@.len();
            assert forall|env: Seq<RustSpec>| env.len() == n implies #[trigger] eval(family.kind, env) == Some(
                Class::Alignment(
                    if any_over_aligned(env) || tag.alignment() == Alignment::GtOne {
                        Alignment::GtOne
                    } else {
                        Alignment::One
                    },
                ),
            ) && family.bounds_hold(env) by {
                assert(eval(untagged.kind, env) == Some(
                    Class::Alignment(if any_over_aligned(env) { Alignment::GtOne } else { Alignment::One }),
                ));
                assert(untagged.bounds_hold(env));
                assert(family.aggregate_bounds@ == untagged.aggregate_bounds@);
                assert(family.kind == Kind::Apply(Operator::Max, Box::new(Kind::TagAlignment(tag)), Box::new(untagged.kind)));
                assert(eval(Kind::TagAlignment(tag), env) == Some(Class::Alignment(tag.alignment())));
            };
        }
    }
    family
}

/// Raises the alignment family to more than one byte when the item has a
/// `#[repr(align(..))]` above one.
pub fn apply_repr_alignment(family: AggregateFamily, align: Option<usize>) -> (raised: AggregateFamily)
    ensures
        raised.aggregate_bounds@ == family.aggregate_bounds@,
        raised.kind == if raises_alignment(align) {
            Kind::Apply(Operator::Max, Box::new(Kind::Fixed(Marker::GtOne)), Box::new(family.kind))
        } else {
            family.kind
        },
        forall|fields: Seq<Field>| #[trigger] family.bounds_complete(fields) ==> raised.bounds_complete(fields),
        forall|env: Seq<RustSpec>| #[trigger]
            eval(raised.kind, env) == if raises_alignment(align) {
                match eval(family.kind, env) {
                    Some(Class::Alignment(_)) => Some(Class::Alignment(Alignment::GtOne)),
                    _ => None,
                }
            } else {
                eval(family.kind, env)
            },
{
    let mut family = family;
    let raise = match align {
        Some(value) => value > 1,
        None => false,
    };
    let ghost unraised = family.kind;
    let ghost input = family;
    assert(raise == raises_alignment(align));
    if raise {
        let kind = family.kind;
        family.kind = Kind::Apply(Operator::Max, Box::new(Kind::Fixed(Marker::GtOne)), Box::new(kind));
        assert forall|env: Seq<RustSpec>| #[trigger] eval(family.kind, env) == match eval(unraised, env) {
            Some(Class::Alignment(_)) => Some(Class::Alignment(Alignment::GtOne)),
            _ => None,
        } by {
            assert(eval(Kind::Fixed(Marker::GtOne), env) == Some(Class::Alignment(Alignment::GtOne)));
        };
        assert forall|fields: Seq<Field>| #[trigger] input.bounds_complete(fields) implies family.bounds_complete(fields) by {
            lemma_total_wrap(Operator::Max, Kind::Fixed(Marker::GtOne), unraised, fields);
        };
    }
    family
}

/// Niche family of a struct-like item: no niche when no field has one, an
/// unguaranteed niche otherwise.
pub fn gen_niche_family(fields: &Vec<Field>) -> (family: AggregateFamily)
    ensures
        family_yields(
            family,
            fields@.len(),
            |env: Seq<RustSpec>|
                Class::Niche(
                    if none_has_niche(env, env.len()) {
                        Niche::WithoutNiche
                    } else {
                        Niche::WithNiche(Stability::Unstable)
                    },
                ),
        ),
        family.bounds_complete(fields@),
{
    let family = AggregateFamily::aggregate_with_seed(Operator::Add, Axis::Niche, Marker::WithoutNiche, fields);
    proof {
        let n = fields@.len();
        assert forall|env: Seq<RustSpec>| env.len() == n implies #[trigger] eval(family.kind, env) == Some(
            Class::Niche(
                if none_has_niche(env, env.len()) {
                    Niche::WithoutNiche
                } else {
                    Niche::WithNiche(Stability::Unstable)
                },
            ),
        ) && family.bounds_hold(env) by {
            assert(from_eval(eval(family.kind, env)) == aggregate_fold(Operator::Add, Axis::Niche, Some(Marker::WithoutNiche), env));
            lemma_fold_niche(env, n);
            if n == 1 {
                assert(none_has_niche(env, 1) == (env[0].niche == Niche::WithoutNiche));
            }
        };
    }
    family
}

/// Niche family of a transparent item: the niche of its only field, no niche
/// without fields.
pub fn gen_transparent_niche_family(fields: &Vec<Field>) -> (family: AggregateFamily)
    ensures
        family_yields(
            family,
            fields@.len(),
            |env: Seq<RustSpec>|
                Class::Niche(
                    if env.len() == 1 {
                        env[0].niche
                    } else if none_has_niche(env, env.len()) {
                        Niche::WithoutNiche
                    } else {
                        Niche::WithNiche(Stability::Unstable)
                    },
                ),
        ),
        family.bounds_complete(fields@),
{
    if fields.len() == 0 {
        let family = AggregateFamily::fixed(Kind::Fixed(Marker::WithoutNiche));
        proof {
            lemma_fixed_complete(family, fields@);
        }
        family
    } else if fields.len() == 1 {
        let family = AggregateFamily::fixed(field_axis_kind(&fields[0], 0, Axis::Niche));
        proof {
            lemma_fixed_complete(family, fields@);
        }
        family
    } else {
        gen_niche_family(fields)
    }
}

/// Mutability family: the mutability of the only field, exclusive for any
/// other number of fields.
pub fn gen_single_field_mutability_family(fields: &Vec<Field>) -> (family: AggregateFamily)
    ensures
        family_yields(
            family,
            fields@.len(),
            |env: Seq<RustSpec>|
                Class::Mutability(if env.len() == 1 { env[0].mutability } else { Mutability::Exclusive }),
        ),
        family.aggregate_bounds@.len() == 0,
        family.kind == if fields@.len() == 1 {
            if fields@[0].hrtb_bounds > 0 {
                Kind::HrtbField(0, Axis::Mutability)
            } else {
                Kind::Field(0, Axis::Mutability)
            }
        } else {
            Kind::Fixed(Marker::Exclusive)
        },
        family.bounds_complete(fields@),
{
    let family = if fields.len() == 1 {
        AggregateFamily::fixed(field_axis_kind(&fields[0], 0, Axis::Mutability))
    } else {
        gen_exclusive_mutability_family()
    };
    proof {
        lemma_fixed_complete(family, fields@);
    }
    family
}

/// Mutability family of an item that is never wholly interior-mutable.
pub fn gen_exclusive_mutability_family() -> (family: AggregateFamily)
    ensures
        family.kind == Kind::Fixed(Marker::Exclusive),
        family.aggregate_bounds@.len() == 0,
{
    AggregateFamily::fixed(Kind::Fixed(Marker::Exclusive))
}

/// Niche family of an enum: an unguaranteed niche when some tag value names
/// no variant, no niche otherwise.
pub fn gen_enum_niche_family(has_trap_tag_values: bool) -> (family: AggregateFamily)
    ensures
        family.kind == Kind::Fixed(
            if has_trap_tag_values {
                Marker::WithNicheUnstable
            } else {
                Marker::WithoutNiche
            },
        ),
        family.aggregate_bounds@.len() == 0,
{
    let niche_kind = if has_trap_tag_values {
        Marker::WithNicheUnstable
    } else {
        Marker::WithoutNiche
    };
    AggregateFamily::fixed(Kind::Fixed(niche_kind))
}

/// The seven families of a generated `RustSpec` impl.
pub struct TypeSpecFamilies {
    pub layout: AggregateFamily,
    pub size: AggregateFamily,
    pub alignment: AggregateFamily,
    pub trap: AggregateFamily,
    pub niche: AggregateFamily,
    pub mutability: AggregateFamily,
    pub indirect_trap: AggregateFamily,
}

impl TypeSpecFamilies {
    /// The classification that the generated impl gives the item once its
    /// fields are classified as `env`, or `None` when some family names no
    /// type.
    pub open spec fn classify(&self, env: Seq<RustSpec>) -> Option<RustSpec> {
        match (
            eval(self.layout.kind, env),
            eval(self.size.kind, env),
            eval(self.alignment.kind, env),
            eval(self.trap.kind, env),
            eval(self.niche.kind, env),
            eval(self.mutability.kind, env),
            eval(self.indirect_trap.kind, env),
        ) {
            (
                Some(Class::Layout(layout)),
                Some(Class::Size(size)),
                Some(Class::Alignment(alignment)),
                Some(Class::Trap(trap)),
                Some(Class::Niche(niche)),
                Some(Class::Mutability(mutability)),
                Some(Class::Trap(indirect_trap)),
            ) => Some(RustSpec { layout, trap, size, alignment, niche, mutability, indirect_trap }),
            _ => None,
        }
    }

    /// The classification that the generated impl gives the item once its
    /// fields are classified as `fields`.
    pub fn evaluate(&self, fields: &Vec<RustSpec>) -> (spec: Option<RustSpec>)
        ensures
            spec == self.classify(fields@),
    {
        match (
            self.layout.kind.evaluate(fields),
            self.size.kind.evaluate(fields),
            self.alignment.kind.evaluate(fields),
            self.trap.kind.evaluate(fields),
            self.niche.kind.evaluate(fields),
            self.mutability.kind.evaluate(fields),
            self.indirect_trap.kind.evaluate(fields),
        ) {
            (
                Some(Class::Layout(layout)),
                Some(Class::Size(size)),
                Some(Class::Alignment(alignment)),
                Some(Class::Trap(trap)),
                Some(Class::Niche(niche)),
                Some(Class::Mutability(mutability)),
                Some(Class::Trap(indirect_trap)),
            ) => Some(RustSpec { layout, trap, size, alignment, niche, mutability, indirect_trap }),
            _ => None,
        }
    }

    /// Whether every family carries exactly the where-predicates it needs for
    /// the fields `fields`.
    pub open spec fn bounds_complete(&self, fields: Seq<Field>) -> bool {
        &&& self.layout.bounds_complete(fields)
        &&& self.size.bounds_complete(fields)
        &&& self.alignment.bounds_complete(fields)
        &&& self.trap.bounds_complete(fields)
        &&& self.niche.bounds_complete(fields)
        &&& self.mutability.bounds_complete(fields)
        &&& self.indirect_trap.bounds_complete(fields)
    }

    /// Whether every where-predicate of the generated impl holds.
    pub open spec fn bounds_hold(&self, env: Seq<RustSpec>) -> bool {
        &&& self.layout.bounds_hold(env)
        &&& self.size.bounds_hold(env)
        &&& self.alignment.bounds_hold(env)
        &&& self.trap.bounds_hold(env)
        &&& self.niche.bounds_hold(env)
        &&& self.mutability.bounds_hold(env)
        &&& self.indirect_trap.bounds_hold(env)
    }

    /// Whether, for every classification `env` of `n` fields, the impl gives
    /// the item the classification `expected(env)`, and its where-predicates
    /// hold whenever that classification exists.
    pub open spec fn implements(&self, n: nat, expected: spec_fn(Seq<RustSpec>) -> Option<RustSpec>) -> bool {
        forall|env: Seq<RustSpec>|
            env.len() == n ==> #[trigger] self.classify(env) == expected(env) && (expected(env) is Some
                ==> self.bounds_hold(env))
    }
}

/// A higher-ranked binder of the item: the `predicate`-th higher-ranked
/// where-predicate that the projections of the field `field` need.
#[derive(Clone, Copy, Debug, PartialEq, Eq, Structural)]
pub struct Binder {
    pub field: usize,
    pub predicate: usize,
}

/// A where-predicate of a generated impl.
pub enum ImplPredicate {
    /// A predicate on one field.
    Field(FieldBound),
    /// A family's predicate `lhs: op<rhs>`.
    Family(Bound),
    /// A family's predicate that reaches a field through the higher-ranked
    /// helper trait, under one binder of the item.
    FamilyUnder(Binder, Bound),
}

/// The binders of one field.
pub open spec fn field_binders(index: int, field: Field) -> Seq<Binder> {
    Seq::new(field.hrtb_bounds as nat, |k: int| Binder { field: index as usize, predicate: k as usize })
}

/// The binders of all fields, field by field.
pub open spec fn all_binders(fields: Seq<Field>) -> Seq<Binder>
    decreases fields.len(),
{
    if fields.len() == 0 {
        Seq::empty()
    } else {
        all_binders(fields.drop_last()) + field_binders(fields.len() - 1, fields.last())
    }
}

/// The predicates of one family predicate: itself, or, when it reaches a field
/// through the higher-ranked helper trait, itself under each binder.
pub open spec fn bound_predicates(bound: Bound, binders: Seq<Binder>) -> Seq<ImplPredicate> {
    if kind_mentions_hrtb(bound.lhs) || kind_mentions_hrtb(bound.rhs) {
        binders.map_values(|b: Binder| ImplPredicate::FamilyUnder(b, bound))
    } else {
        seq![ImplPredicate::Family(bound)]
    }
}

/// The predicates of a family's predicates, in order.
pub open spec fn family_predicates(bounds: Seq<Bound>, binders: Seq<Binder>) -> Seq<ImplPredicate>
    decreases bounds.len(),
{
    if bounds.len() == 0 {
        Seq::empty()
    } else {
        family_predicates(bounds.drop_last(), binders) + bound_predicates(bounds.last(), binders)
    }
}

/// The where-clause of a generated impl (before the item's own predicates):
/// the predicates on the fields, then those of the seven families in axis
/// order.
pub open spec fn spec_where_predicates(fields: Seq<Field>, families: TypeSpecFamilies) -> Seq<ImplPredicate> {
    let binders = all_binders(fields);
    all_field_bounds(fields).map_values(|b: FieldBound| ImplPredicate::Field(b)) + family_predicates(
        families.layout.aggregate_bounds@,
        binders,
    ) + family_predicates(families.size.aggregate_bounds@, binders) + family_predicates(
        families.alignment.aggregate_bounds@,
        binders,
    ) + family_predicates(families.trap.aggregate_bounds@, binders) + family_predicates(
        families.niche.aggregate_bounds@,
        binders,
    ) + family_predicates(families.mutability.aggregate_bounds@, binders) + family_predicates(
        families.indirect_trap.aggregate_bounds@,
        binders,
    )
}

/// The binders of all fields, field by field.
pub fn binders_of(fields: &Vec<Field>) -> (binders: Vec<Binder>)
    ensures
        binders@ == all_binders(fields@),
{
    let mut binders: Vec<Binder> = Vec::new();
    let mut i: usize = 0;
    while i < fields.len()
        invariant
            i <= fields@.len(),
            binders@ == all_binders(fields@.take(i as int)),
        decreases fields@.len() - i,
    {
        let field = fields[i];
        let ghost before = binders@;
        assert(fields@.take(i + 1).drop_last() =~= fields@.take(i as int));
        assert(fields@.take(i + 1).last() == field);
        let mut k: usize = 0;
        while k < field.hrtb_bounds
            invariant
                k <= field.hrtb_bounds,
                binders@ == before + Seq::new(k as nat, |m: int| Binder { field: i, predicate: m as usize }),
            decreases field.hrtb_bounds - k,
        {
            binders.push(Binder { field: i, predicate: k });
            k = k + 1;
            assert(binders@ =~= before + Seq::new(k as nat, |m: int| Binder { field: i, predicate: m as usize }));
        }
        assert(binders@ =~= all_binders(fields@.take(i + 1)));
        i = i + 1;
    }
    assert(fields@.take(fields@.len() as int) =~= fields@);
    binders
}

/// Appends the predicates of a family's predicates.
fn push_family_predicates(preds: &mut Vec<ImplPredicate>, bounds: &Vec<Bound>, binders: &Vec<Binder>)
    ensures
        final(preds)@ == old(preds)@ + family_predicates(bounds@, binders@),
{
    let ghost start = preds@;
    let mut i: usize = 0;
    while i < bounds.len()
        invariant
            i <= bounds@.len(),
            preds@ == start + family_predicates(bounds@.take(i as int), binders@),
        decreases bounds@.len() - i,
    {
        let bound = bounds[i].copy();
        let ghost before = preds@;
        assert(bounds@.take(i + 1).drop_last() =~= bounds@.take(i as int));
        assert(bounds@.take(i + 1).last() == bound);
        if bound_needs_binders(&bound) {
            let mut j: usize = 0;
            while j < binders.len()
                invariant
                    j <= binders@.len(),
                    bound == bounds@[i as int],
                    preds@ == before + binders@.take(j as int).map_values(|b: Binder| ImplPredicate::FamilyUnder(b, bound)),
                decreases binders@.len() - j,
            {
                preds.push(ImplPredicate::FamilyUnder(binders[j], bound.copy()));
                j = j + 1;
                assert(preds@ =~= before + binders@.take(j as int).map_values(
                    |b: Binder| ImplPredicate::FamilyUnder(b, bound),
                ));
            }
            assert(binders@.take(binders@.len() as int) =~= binders@);
        } else {
            preds.push(ImplPredicate::Family(bound));
        }
        assert(preds@ =~= start + family_predicates(bounds@.take(i + 1), binders@));
        i = i + 1;
    }
    assert(bounds@.take(bounds@.len() as int) =~= bounds@);
}

/// The where-clause of a generated impl with the families `families` over the
/// fields `fields` (before the item's own predicates): `Field: RustSpec` or
/// the higher-ranked helper bounds of each field, then the families'
/// predicates in axis order, each that reaches a field through the helper
/// trait repeated under every binder of the item.
pub fn where_predicates(fields: &Vec<Field>, families: &TypeSpecFamilies) -> (preds: Vec<ImplPredicate>)
    ensures
        preds@ == spec_where_predicates(fields@, *families),
{
    let binders = binders_of(fields);
    let per_field = field_bounds(fields);
    let mut preds: Vec<ImplPredicate> = Vec::new();
    let mut i: usize = 0;
    while i < per_field.len()
        invariant
            i <= per_field@.len(),
            preds@ == per_field@.take(i as int).map_values(|b: FieldBound| ImplPredicate::Field(b)),
        decreases per_field@.len() - i,
    {
        preds.push(ImplPredicate::Field(per_field[i]));
        i = i + 1;
        assert(preds@ =~= per_field@.take(i as int).map_values(|b: FieldBound| ImplPredicate::Field(b)));
    }
    assert(per_field@.take(per_field@.len() as int) =~= per_field@);
    push_family_predicates(&mut preds, &families.layout.aggregate_bounds, &binders);
    push_family_predicates(&mut preds, &families.size.aggregate_bounds, &binders);
    push_family_predicates(&mut preds, &families.alignment.aggregate_bounds, &binders);
    push_family_predicates(&mut preds, &families.trap.aggregate_bounds, &binders);
    push_family_predicates(&mut preds, &families.niche.aggregate_bounds, &binders);
    push_family_predicates(&mut preds, &families.mutability.aggregate_bounds, &binders);
    push_family_predicates(&mut preds, &families.indirect_trap.aggregate_bounds, &binders);
    preds
}

/// Alignment of an item: more than one byte when a field, the enum tag or a
/// `#[repr(align(..))]` asks for it.
pub open spec fn item_alignment(env: Seq<RustSpec>, tag: Option<Tag>, align: Option<usize>) -> Alignment {
    if any_over_aligned(env) || (tag matches Some(t) && t.alignment() == Alignment::GtOne)
        || raises_alignment(align) {
        Alignment::GtOne
    } else {
        Alignment::One
    }
}

/// Classification that the derive gives a struct (or a struct-like enum or
/// transparent union) with fields classified as `env`; `None` when two fields
/// are dynamically sized.
pub open spec fn struct_classification(
    repr: Option<ReprKind>,
    align: Option<usize>,
    custom_niche: bool,
    env: Seq<RustSpec>,
) -> Option<RustSpec> {
    match combined_size(env, env.len()) {
        None => None,
        Some(size) => Some(
            RustSpec {
                layout: if repr is Some && all_stable(env) {
                    Stability::Stable
                } else {
                    Stability::Unstable
                },
                trap: if all_robust(env) {
                    Trap::Robust
                } else {
                    Trap::NonRobust
                },
                size,
                alignment: item_alignment(env, None, align),
                niche: if custom_niche {
                    Niche::WithNiche(Stability::Unstable)
                } else if repr == Some(ReprKind::Transparent) && env.len() == 1 {
                    env[0].niche
                } else if none_has_niche(env, env.len()) {
                    Niche::WithoutNiche
                } else {
                    Niche::WithNiche(Stability::Unstable)
                },
                mutability: if env.len() == 1 {
                    env[0].mutability
                } else {
                    Mutability::Exclusive
                },
                indirect_trap: if all_indirectly_robust(env) {
                    Trap::Robust
                } else {
                    Trap::NonRobust
                },
            },
        ),
    }
}

/// Families of a struct-like item with the given fields.
pub fn gen_struct_fields_impl(
    repr: Option<ReprKind>,
    alignment: Option<usize>,
    fields: &Vec<Field>,
    custom_niche: bool,
) -> (families: TypeSpecFamilies)
    ensures
        families.implements(
            fields@.len(),
            |env: Seq<RustSpec>| struct_classification(repr, alignment, custom_niche, env),
        ),
        families.bounds_complete(fields@),
{
    let layout = if repr.is_some() {
        gen_stable_layout_family(fields)
    } else {
        gen_unstable_layout_family()
    };
    let size = gen_size_family(fields);
    let aligned = gen_alignment_family(fields, None);
    let alignment_family = apply_repr_alignment(aligned, alignment);
    let trap = gen_trap_family(fields, false);
    let niche = if custom_niche {
        AggregateFamily::fixed(Kind::Fixed(Marker::WithNicheUnstable))
    } else if repr == Some(ReprKind::Transparent) {
        gen_transparent_niche_family(fields)
    } else {
        gen_niche_family(fields)
    };
    let mutability = gen_single_field_mutability_family(fields);
    let indirect_trap = gen_indirect_trap_family(fields);
    let families = TypeSpecFamilies {
        layout,
        size,
        alignment: alignment_family,
        trap,
        niche,
        mutability,
        indirect_trap,
    };
    proof {
        let n = fields@.len();
        assert forall|env: Seq<RustSpec>| env.len() == n implies #[trigger] families.classify(env)
            == struct_classification(repr, alignment, custom_niche, env) && (struct_classification(
            repr,
            alignment,
            custom_niche,
            env,
        ) is Some ==> families.bounds_hold(env)) by {
            assert(eval(aligned.kind, env) == Some(
                Class::Alignment(if any_over_aligned(env) { Alignment::GtOne } else { Alignment::One }),
            ));
            assert(aligned.bounds_hold(env));
            assert(eval(families.alignment.kind, env) == Some(Class::Alignment(item_alignment(env, None, alignment))));
            assert(eval(families.layout.kind, env) == Some(
                Class::Layout(
                    if repr is Some && all_stable(env) {
                        Stability::Stable
                    } else {
                        Stability::Unstable
                    },
                ),
            ));
            assert(eval(families.trap.kind, env) == Some(
                Class::Trap(if all_robust(env) { Trap::Robust } else { Trap::NonRobust }),
            ));
            assert(families.niche.bounds_hold(env));
        };
        if repr is None {
            lemma_fixed_complete(families.layout, fields@);
        }
        if custom_niche {
            lemma_fixed_complete(families.niche, fields@);
        }
        assert(aligned.bounds_complete(fields@));
    }
    families
}

/// An enum variant: whether it is a unit variant (no field list at all), and
/// its fields.
pub struct Variant {
    pub is_unit: bool,
    pub fields: Vec<Field>,
}

/// The fields of all variants, in order.
pub open spec fn flattened(variants: Seq<Variant>) -> Seq<Field>
    decreases variants.len(),
{
    if variants.len() == 0 {
        Seq::empty()
    } else {
        flattened(variants.drop_last()) + variants.last().fields@
    }
}

/// Whether every variant is a unit variant.
pub fn is_fieldless_enum(variants: &Vec<Variant>) -> (fieldless: bool)
    ensures
        fieldless == forall|i: int| 0 <= i < variants@.len() ==> #[trigger] variants@[i].is_unit,
{
    let mut i: usize = 0;
    while i < variants.len()
        invariant
            i <= variants@.len(),
            forall|j: int| 0 <= j < i ==> #[trigger] variants@[j].is_unit,
        decreases variants@.len() - i,
    {
        if !variants[i].is_unit {
            return false;
        }
        i = i + 1;
    }
    true
}

/// The fields of a variant list, in order.
pub fn field_types(fields: &Vec<Field>) -> (out: Vec<Field>)
    ensures
        out@ == fields@,
{
    let mut out: Vec<Field> = Vec::new();
    let mut i: usize = 0;
    while i < fields.len()
        invariant
            i <= fields@.len(),
            out@ == fields@.take(i as int),
        decreases fields@.len() - i,
    {
        out.push(fields[i]);
        i = i + 1;
        assert(out@ =~= fields@.take(i as int));
    }
    assert(fields@.take(fields@.len() as int) =~= fields@);
    out
}

/// The fields of all variants, in order.
pub fn variant_field_types(variants: &Vec<Variant>) -> (fields: Vec<Field>)
    ensures
        fields@ == flattened(variants@),
{
    let mut fields: Vec<Field> = Vec::new();
    let mut i: usize = 0;
    while i < variants.len()
        invariant
            i <= variants@.len(),
            fields@ == flattened(variants@.take(i as int)),
        decreases variants@.len() - i,
    {
        let variant_fields = field_types(&variants[i].fields);
        let mut j: usize = 0;
        let ghost before = fields@;
        while j < variant_fields.len()
            invariant
                j <= variant_fields@.len(),
                fields@ == before + variant_fields@.take(j as int),
            decreases variant_fields@.len() - j,
        {
            fields.push(variant_fields[j]);
            j = j + 1;
            assert(fields@ =~= before + variant_fields@.take(j as int));
        }
        assert(variant_fields@.take(variant_fields@.len() as int) =~= variant_fields@);
        assert(variants@.take(i + 1).drop_last() =~= variants@.take(i as int));
        i = i + 1;
    }
    assert(variants@.take(variants@.len() as int) =~= variants@);
    fields
}

/// Target families that a generated impl is restricted to.
#[derive(Clone, Copy, Debug, PartialEq, Eq, Structural)]
pub enum Target {
    /// Every target.
    All,
    /// Targets whose C `enum` is 8 bits wide.
    EightBitCEnum,
    /// Targets whose C `enum` is 16 bits wide.
    SixteenBitCEnum,
    /// Every other target, where a C `enum` is 32 bits wide.
    ThirtyTwoBitCEnum,
}

/// A generated `RustSpec` impl.
pub struct GeneratedImpl {
    pub target: Target,
    pub families: TypeSpecFamilies,
}

/// Tag type of an enum with a data-carrying variant, when it has one.
pub open spec fn enum_tag(repr: Option<ReprKind>, num_variants: nat) -> Option<Tag> {
    match repr {
        Some(ReprKind::Primitive(tag)) => Some(tag),
        Some(ReprKind::C(Some(tag))) => Some(tag),
        Some(ReprKind::C(None)) => None,
        Some(ReprKind::Transparent) => None,
        None => Some(spec_infer_repr(num_variants)),
    }
}

/// Whether some tag value of the enum names no variant.
pub open spec fn enum_has_trap_tag_values(repr: Option<ReprKind>, num_variants: nat) -> bool {
    match repr {
        Some(ReprKind::Transparent) => false,
        _ => match enum_tag(repr, num_variants) {
            Some(tag) => tag.capacity() != Some(num_variants),
            None => false,
        },
    }
}

/// Classification of an enum with a tag of type `tag` (when present) whose
/// variants' fields are classified as `env`.
pub open spec fn tagged_enum_classification(
    stable_repr: bool,
    align: Option<usize>,
    tag: Option<Tag>,
    has_trap_tag_values: bool,
    single_variant_payload: bool,
    env: Seq<RustSpec>,
) -> RustSpec {
    RustSpec {
        layout: if stable_repr && all_stable(env) {
            Stability::Stable
        } else {
            Stability::Unstable
        },
        trap: if !has_trap_tag_values && all_robust(env) {
            Trap::Robust
        } else {
            Trap::NonRobust
        },
        size: Size::Sized(Sizedness::NonZero),
        alignment: item_alignment(env, tag, align),
        niche: if has_trap_tag_values {
            Niche::WithNiche(Stability::Unstable)
        } else {
            Niche::WithoutNiche
        },
        mutability: if single_variant_payload && env.len() == 1 {
            env[0].mutability
        } else {
            Mutability::Exclusive
        },
        indirect_trap: if all_indirectly_robust(env) {
            Trap::Robust
        } else {
            Trap::NonRobust
        },
    }
}

/// Families of an enum with a tag, whose variants' fields are `fields`.
fn gen_tagged_enum_families(
    stable_repr: bool,
    align: Option<usize>,
    tag: Option<Tag>,
    has_trap_tag_values: bool,
    single_variant_payload: bool,
    fields: &Vec<Field>,
) -> (families: TypeSpecFamilies)
    ensures
        families.implements(
            fields@.len(),
            |env: Seq<RustSpec>|
                Some(
                    tagged_enum_classification(
                        stable_repr,
                        align,
                        tag,
                        has_trap_tag_values,
                        single_variant_payload,
                        env,
                    ),
                ),
        ),
        families.bounds_complete(fields@),
{
    let layout = if stable_repr {
        gen_enum_layout_family(fields)
    } else {
        gen_unstable_layout_family()
    };
    let size = AggregateFamily::fixed(Kind::Fixed(Marker::SizedNonZero));
    let aligned = gen_alignment_family(fields, tag);
    let alignment = apply_repr_alignment(aligned, align);
    let trap = gen_trap_family(fields, has_trap_tag_values);
    let niche = gen_enum_niche_family(has_trap_tag_values);
    let mutability = if single_variant_payload {
        gen_single_field_mutability_family(fields)
    } else {
        gen_exclusive_mutability_family()
    };
    let indirect_trap = gen_indirect_trap_family(fields);
    let families = TypeSpecFamilies { layout, size, alignment, trap, niche, mutability, indirect_trap };
    proof {
        let n = fields@.len();
        assert forall|env: Seq<RustSpec>| env.len() == n implies #[trigger] families.classify(env) == Some(
            tagged_enum_classification(stable_repr, align, tag, has_trap_tag_values, single_variant_payload, env),
        ) && families.bounds_hold(env) by {
            assert(eval(aligned.kind, env) == Some(
                Class::Alignment(
                    if any_over_aligned(env) || (tag matches Some(t) && t.alignment() == Alignment::GtOne) {
                        Alignment::GtOne
                    } else {
                        Alignment::One
                    },
                ),
            ));
            assert(aligned.bounds_hold(env));
            assert(eval(families.layout.kind, env) == Some(
                Class::Layout(
                    if stable_repr && all_stable(env) {
                        Stability::Stable
                    } else {
                        Stability::Unstable
                    },
                ),
            ));
            assert(eval(families.trap.kind, env) == Some(
                Class::Trap(if !has_trap_tag_values && all_robust(env) { Trap::Robust } else { Trap::NonRobust }),
            ));
            assert(eval(families.indirect_trap.kind, env) == Some(
                Class::Trap(if all_indirectly_robust(env) { Trap::Robust } else { Trap::NonRobust }),
            ));
            assert(families.mutability.bounds_hold(env));
        };
        if !stable_repr {
            lemma_fixed_complete(families.layout, fields@);
        }
        if !single_variant_payload {
            lemma_fixed_complete(families.mutability, fields@);
        }
        lemma_fixed_complete(families.size, fields@);
        lemma_fixed_complete(families.niche, fields@);
        assert(aligned.bounds_complete(fields@));
    }
    families
}

/// The `#[repr(C)]` enum impls, one per C `enum` width, in the order 8, 16
/// and 32 bits.
pub fn gen_plain_c_enum_impls(repr_alignment: Option<usize>, variants: &Vec<Variant>) -> (impls: Vec<GeneratedImpl>)
    ensures
        impls@.len() == 3,
        impls@[0].target == Target::EightBitCEnum,
        impls@[1].target == Target::SixteenBitCEnum,
        impls@[2].target == Target::ThirtyTwoBitCEnum,
        forall|k: int| 0 <= k < 3 ==> (#[trigger] impls@[k]).families.implements(
            flattened(variants@).len(),
            |env: Seq<RustSpec>| Some(plain_c_enum_classification(impls@[k].target, repr_alignment, variants@.len(), env)),
        ),
        forall|k: int| 0 <= k < 3 ==> (#[trigger] impls@[k]).families.bounds_complete(flattened(variants@)),
{
    let fields = variant_field_types(variants);
    let mut impls: Vec<GeneratedImpl> = Vec::new();
    let targets = [Target::EightBitCEnum, Target::SixteenBitCEnum, Target::ThirtyTwoBitCEnum];
    let widths: [u32; 3] = [8, 16, 32];
    let mut k: usize = 0;
    while k < 3
        invariant
            k <= 3,
            fields@ == flattened(variants@),
            targets@ == seq![Target::EightBitCEnum, Target::SixteenBitCEnum, Target::ThirtyTwoBitCEnum],
            widths@ == seq![8u32, 16u32, 32u32],
            impls@.len() == k,
            forall|j: int| 0 <= j < k ==> (#[trigger] impls@[j]).target == targets@[j],
            forall|j: int| 0 <= j < k ==> (#[trigger] impls@[j]).families.implements(
                flattened(variants@).len(),
                |env: Seq<RustSpec>| Some(plain_c_enum_classification(impls@[j].target, repr_alignment, variants@.len(), env)),
            ),
            forall|j: int| 0 <= j < k ==> (#[trigger] impls@[j]).families.bounds_complete(flattened(variants@)),
        decreases 3 - k,
    {
        let tag = crate::derive::repr::c_tag_type(widths[k]);
        let has_trap_tag_values = primitive_tag_has_traps(tag, variants.len());
        let families = gen_tagged_enum_families(true, repr_alignment, Some(tag), has_trap_tag_values, false, &fields);
        impls.push(GeneratedImpl { target: targets[k], families });
        k = k + 1;
    }
    impls
}

/// Tag type of a `#[repr(C)]` enum on the given targets.
pub open spec fn c_enum_tag(target: Target) -> Tag {
    match target {
        Target::EightBitCEnum => Tag::U8,
        Target::SixteenBitCEnum => Tag::U16,
        _ => Tag::U32,
    }
}

/// Classification of a `#[repr(C)]` enum with `num_variants` variants on the
/// given targets.
pub open spec fn plain_c_enum_classification(
    target: Target,
    align: Option<usize>,
    num_variants: nat,
    env: Seq<RustSpec>,
) -> RustSpec {
    let tag = c_enum_tag(target);
    tagged_enum_classification(true, align, Some(tag), tag.capacity() != Some(num_variants), false, env)
}

/// Families of a struct with the given fields.
pub fn gen_struct_impl(
    repr: Option<ReprKind>,
    repr_alignment: Option<usize>,
    fields: &Vec<Field>,
    custom_niche: bool,
) -> (families: TypeSpecFamilies)
    ensures
        families.implements(
            fields@.len(),
            |env: Seq<RustSpec>| struct_classification(repr, repr_alignment, custom_niche, env),
        ),
        families.bounds_complete(fields@),
{
    let fields = field_types(fields);
    gen_struct_fields_impl(repr, repr_alignment, &fields, custom_niche)
}

/// Whether the single-variant payload of an enum keeps its field's mutability.
pub open spec fn enum_keeps_payload_mutability(repr: Option<ReprKind>, num_variants: nat) -> bool {
    (repr is None || repr == Some(ReprKind::Transparent)) && num_variants == 1
}

/// Impls of an enum with at least one data-carrying variant.
pub fn gen_enum_impl(repr: Option<ReprKind>, repr_alignment: Option<usize>, variants: &Vec<Variant>) -> (impls: Vec<GeneratedImpl>)
    ensures
        repr == Some(ReprKind::C(None)) ==> {
            &&& impls@.len() == 3
            &&& impls@[0].target == Target::EightBitCEnum
            &&& impls@[1].target == Target::SixteenBitCEnum
            &&& impls@[2].target == Target::ThirtyTwoBitCEnum
            &&& forall|k: int| 0 <= k < 3 ==> (#[trigger] impls@[k]).families.implements(
                flattened(variants@).len(),
                |env: Seq<RustSpec>| Some(plain_c_enum_classification(impls@[k].target, repr_alignment, variants@.len(), env)),
            )
            &&& forall|k: int| 0 <= k < 3 ==> (#[trigger] impls@[k]).families.bounds_complete(flattened(variants@))
        },
        repr != Some(ReprKind::C(None)) ==> {
            &&& impls@.len() == 1
            &&& impls@[0].target == Target::All
            &&& impls@[0].families.implements(
                flattened(variants@).len(),
                |env: Seq<RustSpec>|
                    Some(
                        tagged_enum_classification(
                            repr is Some,
                            repr_alignment,
                            enum_tag(repr, variants@.len()),
                            enum_has_trap_tag_values(repr, variants@.len()),
                            enum_keeps_payload_mutability(repr, variants@.len()),
                            env,
                        ),
                    ),
            )
            &&& impls@[0].families.bounds_complete(flattened(variants@))
        },
{
    if repr == Some(ReprKind::C(None)) {
        return gen_plain_c_enum_impls(repr_alignment, variants);
    }
    let fields = variant_field_types(variants);
    let n = variants.len();
    let has_trap_tag_values = match repr {
        None => rust_tag_has_traps(n),
        Some(ReprKind::C(Some(tag))) => primitive_tag_has_traps(tag, n),
        Some(ReprKind::Primitive(tag)) => primitive_tag_has_traps(tag, n),
        Some(ReprKind::C(None)) => false,
        Some(ReprKind::Transparent) => false,
    };
    let tag = match repr {
        Some(ReprKind::Primitive(tag)) => Some(tag),
        Some(ReprKind::C(Some(tag))) => Some(tag),
        Some(ReprKind::C(None)) => None,
        Some(ReprKind::Transparent) => None,
        None => Some(infer_repr(n)),
    };
    let single_payload = match repr {
        None => n == 1,
        Some(ReprKind::Transparent) => n == 1,
        _ => false,
    };
    let families = gen_tagged_enum_families(repr.is_some(), repr_alignment, tag, has_trap_tag_values, single_payload, &fields);
    let mut impls: Vec<GeneratedImpl> = Vec::new();
    impls.push(GeneratedImpl { target: Target::All, families });
    impls
}

/// Classification of an enum whose variants are all unit variants.
pub open spec fn fieldless_enum_classification(repr: Option<ReprKind>, align: Option<usize>, num_variants: nat) -> RustSpec {
    let has_tag = num_variants > 0 && match repr {
        Some(ReprKind::C(_)) => true,
        Some(ReprKind::Primitive(_)) => true,
        _ => num_variants > 1,
    };
    let traps = has_tag && enum_has_trap_tag_values(repr, num_variants);
    let tag = match repr {
        Some(ReprKind::Primitive(tag)) => tag,
        Some(ReprKind::C(Some(tag))) => tag,
        _ => spec_infer_repr(num_variants),
    };
    RustSpec {
        layout: if repr is None {
            Stability::Unstable
        } else {
            Stability::Stable
        },
        trap: if traps {
            Trap::NonRobust
        } else {
            Trap::Robust
        },
        size: Size::Sized(
            if has_tag {
                Sizedness::NonZero
            } else {
                Sizedness::Zero
            },
        ),
        alignment: item_alignment(
            Seq::empty(),
            if has_tag {
                Some(tag)
            } else {
                None
            },
            align,
        ),
        niche: if traps {
            Niche::WithNiche(Stability::Unstable)
        } else {
            Niche::WithoutNiche
        },
        mutability: Mutability::Exclusive,
        indirect_trap: Trap::Robust,
    }
}

/// Impls of an enum whose variants are all unit variants.
pub fn gen_fieldless_enum_impl(repr: Option<ReprKind>, repr_alignment: Option<usize>, variants: &Vec<Variant>) -> (impls: Vec<GeneratedImpl>)
    ensures
        repr == Some(ReprKind::C(None)) ==> {
            &&& impls@.len() == 3
            &&& impls@[0].target == Target::EightBitCEnum
            &&& impls@[1].target == Target::SixteenBitCEnum
            &&& impls@[2].target == Target::ThirtyTwoBitCEnum
            &&& forall|k: int| 0 <= k < 3 ==> (#[trigger] impls@[k]).families.implements(
                flattened(variants@).len(),
                |env: Seq<RustSpec>| Some(plain_c_enum_classification(impls@[k].target, repr_alignment, variants@.len(), env)),
            )
            &&& forall|k: int| 0 <= k < 3 ==> (#[trigger] impls@[k]).families.bounds_complete(flattened(variants@))
        },
        repr != Some(ReprKind::C(None)) ==> {
            &&& impls@.len() == 1
            &&& impls@[0].target == Target::All
            &&& impls@[0].families.implements(
                0,
                |env: Seq<RustSpec>| Some(fieldless_enum_classification(repr, repr_alignment, variants@.len())),
            )
            &&& impls@[0].families.bounds_complete(Seq::empty())
        },
{
    if repr == Some(ReprKind::C(None)) {
        return gen_plain_c_enum_impls(repr_alignment, variants);
    }
    let n = variants.len();
    let no_fields: Vec<Field> = Vec::new();
    let layout = match repr {
        None => AggregateFamily::fixed(Kind::Fixed(Marker::Unstable)),
        _ => AggregateFamily::fixed(Kind::Fixed(Marker::Stable)),
    };
    let has_tag = n > 0 && match repr {
        Some(ReprKind::C(_)) => true,
        Some(ReprKind::Primitive(_)) => true,
        _ => n > 1,
    };
    let size = if has_tag {
        AggregateFamily::fixed(Kind::Fixed(Marker::SizedNonZero))
    } else {
        AggregateFamily::fixed(Kind::Fixed(Marker::SizedZero))
    };
    let tag_traps = match repr {
        None => rust_tag_has_traps(n),
        Some(ReprKind::C(Some(tag))) => primitive_tag_has_traps(tag, n),
        Some(ReprKind::Primitive(tag)) => primitive_tag_has_traps(tag, n),
        Some(ReprKind::C(None)) => false,
        Some(ReprKind::Transparent) => false,
    };
    let niche = if has_tag {
        gen_enum_niche_family(tag_traps)
    } else {
        AggregateFamily::fixed(Kind::Fixed(Marker::WithoutNiche))
    };
    let has_trap_tag_values = has_tag && tag_traps;
    let aligned = if has_tag {
        let tag = match repr {
            Some(ReprKind::Primitive(tag)) => tag,
            Some(ReprKind::C(Some(tag))) => tag,
            _ => infer_repr(n),
        };
        gen_alignment_family(&no_fields, Some(tag))
    } else {
        gen_alignment_family(&no_fields, None)
    };
    let alignment = apply_repr_alignment(aligned, repr_alignment);
    let trap = AggregateFamily::fixed(
        Kind::Fixed(
            if has_trap_tag_values {
                Marker::NonRobust
            } else {
                Marker::Robust
            },
        ),
    );
    let mutability = gen_exclusive_mutability_family();
    let indirect_trap = AggregateFamily::fixed(Kind::Fixed(Marker::Robust));
    let families = TypeSpecFamilies { layout, size, alignment, trap, niche, mutability, indirect_trap };
    proof {
        let expected = fieldless_enum_classification(repr, repr_alignment, n as nat);
        assert forall|env: Seq<RustSpec>| env.len() == 0 implies #[trigger] families.classify(env) == Some(expected)
            && families.bounds_hold(env) by {
            assert(!any_over_aligned(env));
            assert(aligned.bounds_hold(env));
        };
        let none = Seq::<Field>::empty();
        assert(no_fields@ =~= none);
        lemma_fixed_complete(families.layout, none);
        lemma_fixed_complete(families.size, none);
        lemma_fixed_complete(families.trap, none);
        lemma_fixed_complete(families.niche, none);
        lemma_fixed_complete(families.mutability, none);
        lemma_fixed_complete(families.indirect_trap, none);
        assert(aligned.bounds_complete(none));
    }
    let mut impls: Vec<GeneratedImpl> = Vec::new();
    impls.push(GeneratedImpl { target: Target::All, families });
    impls
}

/// Classification of a union that is not `#[repr(transparent)]`: robust only
/// with a `repr`, never with a niche, always exclusive.
pub open spec fn union_classification(repr: Option<ReprKind>, align: Option<usize>, env: Seq<RustSpec>) -> Option<RustSpec> {
    match combined_size(env, env.len()) {
        None => None,
        Some(size) => Some(
            RustSpec {
                layout: if repr is Some && all_stable(env) {
                    Stability::Stable
                } else {
                    Stability::Unstable
                },
                trap: if repr is Some {
                    Trap::Robust
                } else {
                    Trap::NonRobust
                },
                size,
                alignment: item_alignment(env, None, align),
                niche: Niche::WithoutNiche,
                mutability: Mutability::Exclusive,
                indirect_trap: Trap::Robust,
            },
        ),
    }
}

/// Families of a union that is not `#[repr(transparent)]`: it has no niche; it
/// is robust with a `repr`, and is taken to have trap values without one,
/// since Rust guarantees nothing of its representation.
pub fn gen_union_impl(repr: Option<ReprKind>, repr_alignment: Option<usize>, fields: &Vec<Field>) -> (families: TypeSpecFamilies)
    ensures
        families.implements(fields@.len(), |env: Seq<RustSpec>| union_classification(repr, repr_alignment, env)),
        families.bounds_complete(fields@),
{
    let layout = if repr.is_some() {
        gen_stable_layout_family(fields)
    } else {
        gen_unstable_layout_family()
    };
    let size = gen_size_family(fields);
    let aligned = gen_alignment_family(fields, None);
    let alignment = apply_repr_alignment(aligned, repr_alignment);
    let trap_marker = if repr.is_some() {
        Marker::Robust
    } else {
        Marker::NonRobust
    };
    let trap = AggregateFamily::fixed(Kind::Fixed(trap_marker));
    let niche = AggregateFamily::fixed(Kind::Fixed(Marker::WithoutNiche));
    let mutability = gen_exclusive_mutability_family();
    let indirect_trap = AggregateFamily::fixed(Kind::Fixed(Marker::Robust));
    let families = TypeSpecFamilies { layout, size, alignment, trap, niche, mutability, indirect_trap };
    proof {
        let n = fields@.len();
        assert forall|env: Seq<RustSpec>| env.len() == n implies #[trigger] families.classify(env)
            == union_classification(repr, repr_alignment, env) && (union_classification(repr, repr_alignment, env) is Some
            ==> families.bounds_hold(env)) by {
            assert(eval(aligned.kind, env) == Some(
                Class::Alignment(if any_over_aligned(env) { Alignment::GtOne } else { Alignment::One }),
            ));
            assert(aligned.bounds_hold(env));
            assert(eval(families.layout.kind, env) == Some(
                Class::Layout(
                    if repr is Some && all_stable(env) {
                        Stability::Stable
                    } else {
                        Stability::Unstable
                    },
                ),
            ));
        };
        if repr is None {
            lemma_fixed_complete(families.layout, fields@);
        }
        lemma_fixed_complete(families.trap, fields@);
        lemma_fixed_complete(families.niche, fields@);
        lemma_fixed_complete(families.mutability, fields@);
        lemma_fixed_complete(families.indirect_trap, fields@);
        assert(aligned.bounds_complete(fields@));
    }
    families
}

} // verus!
