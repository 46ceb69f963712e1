//! Families: expressions that name one axis of a generated classification in
//! terms of the fields' own classifications.
use vstd::prelude::*;

use crate::derive::repr::Tag;
use crate::layout::Trap;
use crate::mutability::Mutability;
use crate::niche::Niche;
use crate::size::{Size, Sizedness};
use crate::{Alignment, RustSpec, Stability};

verus! {

/// One axis of a classification.
#[derive(Clone, Copy, Debug, PartialEq, Eq, Structural)]
pub enum Axis {
    Layout,
    Size,
    Alignment,
    Trap,
    Niche,
    Mutability,
    IndirectTrap,
}

/// Type-level operator that combines two families: `core::ops::Add` for every
/// axis but alignment, which is combined with `Max`.
#[derive(Clone, Copy, Debug, PartialEq, Eq, Structural)]
pub enum Operator {
    Add,
    Max,
}

/// Marker type that a family can name directly.
#[derive(Clone, Copy, Debug, PartialEq, Eq, Structural)]
pub enum Marker {
    Stable,
    Unstable,
    Robust,
    NonRobust,
    SizedZero,
    SizedNonZero,
    One,
    GtOne,
    WithoutNiche,
    WithNicheUnstable,
    Exclusive,
}

/// Value of one axis of a classification.
#[derive(Clone, Copy, Debug, PartialEq, Eq, Structural)]
pub enum Class {
    Layout(Stability),
    Size(Size),
    Alignment(Alignment),
    Trap(Trap),
    Niche(Niche),
    Mutability(Mutability),
}

impl Marker {
    /// The axis value that the marker type stands for.
    pub open spec fn class(self) -> Class {
        match self {
            Marker::Stable => Class::Layout(Stability::Stable),
            Marker::Unstable => Class::Layout(Stability::Unstable),
            Marker::Robust => Class::Trap(Trap::Robust),
            Marker::NonRobust => Class::Trap(Trap::NonRobust),
            Marker::SizedZero => Class::Size(Size::Sized(Sizedness::Zero)),
            Marker::SizedNonZero => Class::Size(Size::Sized(Sizedness::NonZero)),
            Marker::One => Class::Alignment(Alignment::One),
            Marker::GtOne => Class::Alignment(Alignment::GtOne),
            Marker::WithoutNiche => Class::Niche(Niche::WithoutNiche),
            Marker::WithNicheUnstable => Class::Niche(Niche::WithNiche(Stability::Unstable)),
            Marker::Exclusive => Class::Mutability(Mutability::Exclusive),
        }
    }
}

/// The value of `axis` in the classification `spec`.
pub open spec fn axis_class(spec: RustSpec, axis: Axis) -> Class {
    match axis {
        Axis::Layout => Class::Layout(spec.layout),
        Axis::Size => Class::Size(spec.size),
        Axis::Alignment => Class::Alignment(spec.alignment),
        Axis::Trap => Class::Trap(spec.trap),
        Axis::Niche => Class::Niche(spec.niche),
        Axis::Mutability => Class::Mutability(spec.mutability),
        Axis::IndirectTrap => Class::Trap(spec.indirect_trap),
    }
}

/// `<a as op<b>>::Output`, or `None` when no such impl exists.
pub open spec fn combine_class(op: Operator, a: Class, b: Class) -> Option<Class> {
    match (op, a, b) {
        (Operator::Add, Class::Layout(x), Class::Layout(y)) => Some(Class::Layout(x.combine(y))),
        (Operator::Add, Class::Size(x), Class::Size(y)) => match x.combine(y) {
            Some(s) => Some(Class::Size(s)),
            None => None,
        },
        (Operator::Add, Class::Trap(x), Class::Trap(y)) => Some(Class::Trap(x.combine(y))),
        (Operator::Add, Class::Niche(x), Class::Niche(y)) => Some(Class::Niche(x.combine(y))),
        (Operator::Add, Class::Mutability(x), Class::Mutability(y)) => Some(
            Class::Mutability(x.combine(y)),
        ),
        (Operator::Max, Class::Alignment(x), Class::Alignment(y)) => Some(
            Class::Alignment(x.combine(y)),
        ),
        _ => None,
    }
}

/// A family: the type expression that one associated type of a generated
/// impl is set to.
pub enum Kind {
    /// A fixed marker type.
    Fixed(Marker),
    /// `<F as RustSpec>::Axis` for the field at the index.
    Field(usize, Axis),
    /// The same axis of the field at the index, reached through the
    /// higher-ranked helper trait that fields with projections need.
    HrtbField(usize, Axis),
    /// `<T as RustSpec>::Alignment` for an enum tag type.
    TagAlignment(Tag),
    /// `<lhs as op<rhs>>::Output`.
    Apply(Operator, Box<Kind>, Box<Kind>),
}

/// The axis value that `kind` denotes once the fields are classified as
/// `fields`, or `None` when the type expression names no type.
pub open spec fn eval(kind: Kind, fields: Seq<RustSpec>) -> Option<Class>
    decreases kind,
{
    match kind {
        Kind::Fixed(marker) => Some(marker.class()),
        Kind::Field(index, axis) => if index < fields.len() {
            Some(axis_class(fields[index as int], axis))
        } else {
            None
        },
        Kind::HrtbField(index, axis) => if index < fields.len() {
            Some(axis_class(fields[index as int], axis))
        } else {
            None
        },
        Kind::TagAlignment(tag) => Some(Class::Alignment(tag.alignment())),
        Kind::Apply(op, lhs, rhs) => match (eval(*lhs, fields), eval(*rhs, fields)) {
            (Some(a), Some(b)) => combine_class(op, a, b),
            _ => None,
        },
    }
}

impl Kind {
    /// A structurally identical copy of the family.
    pub fn copy(&self) -> (out: Kind)
        ensures
            out == *self,
        decreases self,
    {
        match self {
            Kind::Fixed(marker) => Kind::Fixed(*marker),
            Kind::Field(index, axis) => Kind::Field(*index, *axis),
            Kind::HrtbField(index, axis) => Kind::HrtbField(*index, *axis),
            Kind::TagAlignment(tag) => Kind::TagAlignment(*tag),
            Kind::Apply(op, lhs, rhs) => {
                let l = (**lhs).copy();
                let r = (**rhs).copy();
                Kind::Apply(*op, Box::new(l), Box::new(r))
            },
        }
    }
}

/// A where-clause predicate `lhs: op<rhs>` of a generated impl.
pub struct Bound {
    pub lhs: Kind,
    pub op: Operator,
    pub rhs: Kind,
}

impl Bound {
    /// A structurally identical copy of the predicate.
    pub fn copy(&self) -> (out: Bound)
        ensures
            out == *self,
    {
        Bound { lhs: self.lhs.copy(), op: self.op, rhs: self.rhs.copy() }
    }

    /// Whether the predicate is satisfied once the fields are classified as
    /// `fields`.
    pub open spec fn holds(self, fields: Seq<RustSpec>) -> bool {
        match (eval(self.lhs, fields), eval(self.rhs, fields)) {
            (Some(a), Some(b)) => combine_class(self.op, a, b) is Some,
            _ => false,
        }
    }
}

/// One axis of a generated impl: its family, and the where-clause predicates
/// that the family needs.
pub struct AggregateFamily {
    pub kind: Kind,
    pub aggregate_bounds: Vec<Bound>,
}

/// What a field type contributes to the generated impl.
#[derive(Clone, Copy, Debug, PartialEq, Eq, Structural)]
pub struct Field {
    /// The field type mentions a type parameter of the item (outside raw
    /// pointers).
    pub has_type_params: bool,
    /// Number of higher-ranked where-predicates that the field's projections
    /// need.
    pub hrtb_bounds: usize,
}

/// Whether a field's classification is only known under bounds on the
/// item's parameters.
pub open spec fn needs_bounds(field: Field) -> bool {
    field.has_type_params || field.hrtb_bounds > 0
}

/// Result of folding an operator over zero or more axis values.
#[derive(Clone, Copy, Debug, PartialEq, Eq, Structural)]
pub enum Folded {
    /// Nothing was folded.
    Empty,
    /// The combination of the folded values.
    Defined(Class),
    /// Some step of the fold has no impl.
    Undefined,
}

/// Folded view of an evaluated family.
pub open spec fn from_eval(r: Option<Class>) -> Folded {
    match r {
        Some(c) => Folded::Defined(c),
        None => Folded::Undefined,
    }
}

/// Combination of two fold results.
pub open spec fn join(op: Operator, a: Folded, b: Folded) -> Folded {
    match (a, b) {
        (Folded::Empty, _) => b,
        (_, Folded::Empty) => a,
        (Folded::Defined(x), Folded::Defined(y)) => from_eval(combine_class(op, x, y)),
        _ => Folded::Undefined,
    }
}

/// Left fold of `op` over the `axis` values of the fields at `indices`.
pub open spec fn fold(op: Operator, axis: Axis, fields: Seq<RustSpec>, indices: Seq<int>) -> Folded
    decreases indices.len(),
{
    if indices.len() == 0 {
        Folded::Empty
    } else {
        join(
            op,
            fold(op, axis, fields, indices.drop_last()),
            Folded::Defined(axis_class(fields[indices.last()], axis)),
        )
    }
}

/// The indices `0..n` in order.
pub open spec fn all_indices(n: nat) -> Seq<int> {
    Seq::new(n, |i: int| i)
}

/// Indices, in order, of the fields whose `needs_bounds` equals `needs`.
pub open spec fn indices_where(fields: Seq<Field>, needs: bool) -> Seq<int>
    decreases fields.len(),
{
    if fields.len() == 0 {
        Seq::empty()
    } else {
        let prev = indices_where(fields.drop_last(), needs);
        if needs_bounds(fields.last()) == needs {
            prev.push(fields.len() - 1)
        } else {
            prev
        }
    }
}

/// `combine_class` is commutative and associative for either operator.
pub proof fn lemma_combine_class_laws(op: Operator, a: Class, b: Class, c: Class)
    ensures
        combine_class(op, a, b) == combine_class(op, b, a),
        join(op, join(op, Folded::Defined(a), Folded::Defined(b)), Folded::Defined(c)) == join(
            op,
            Folded::Defined(a),
            join(op, Folded::Defined(b), Folded::Defined(c)),
        ),
{
    match (a, b, c) {
        (Class::Size(x), Class::Size(y), Class::Size(z)) => {
            crate::size::lemma_size_laws(x, y, z);
        },
        _ => {},
    }
}

/// `join` is commutative and associative, with `Empty` as its neutral element
/// and `Undefined` absorbing every other value.
pub proof fn lemma_join_laws(op: Operator, a: Folded, b: Folded, c: Folded)
    ensures
        join(op, a, b) == join(op, b, a),
        join(op, join(op, a, b), c) == join(op, a, join(op, b, c)),
        join(op, Folded::Empty, a) == a,
        join(op, a, Folded::Empty) == a,
        a == Folded::Undefined ==> join(op, a, b) == Folded::Undefined,
{
    match (a, b, c) {
        (Folded::Defined(x), Folded::Defined(y), Folded::Defined(z)) => {
            lemma_combine_class_laws(op, x, y, z);
        },
        (Folded::Defined(x), Folded::Defined(y), _) => {
            lemma_combine_class_laws(op, x, y, x);
        },
        _ => {},
    }
}

/// Folding over a concatenation is joining the folds of the two parts.
pub proof fn lemma_fold_append(op: Operator, axis: Axis, fields: Seq<RustSpec>, a: Seq<int>, b: Seq<int>)
    ensures
        fold(op, axis, fields, a + b) == join(op, fold(op, axis, fields, a), fold(op, axis, fields, b)),
    decreases b.len(),
{
    if b.len() == 0 {
        assert(a + b =~= a);
        lemma_join_laws(op, fold(op, axis, fields, a), Folded::Empty, Folded::Empty);
    } else {
        let x = Folded::Defined(axis_class(fields[b.last()], axis));
        assert((a + b).drop_last() =~= a + b.drop_last());
        assert((a + b).last() == b.last());
        lemma_fold_append(op, axis, fields, a, b.drop_last());
        lemma_join_laws(op, fold(op, axis, fields, a), fold(op, axis, fields, b.drop_last()), x);
    }
}

/// Folding over every field equals joining the fold over the fields that
/// need no bounds with the fold over those that do.
pub proof fn lemma_fold_partition(op: Operator, axis: Axis, env: Seq<RustSpec>, fields: Seq<Field>)
    ensures
        fold(op, axis, env, all_indices(fields.len())) == join(
            op,
            fold(op, axis, env, indices_where(fields, false)),
            fold(op, axis, env, indices_where(fields, true)),
        ),
    decreases fields.len(),
{
    let n = fields.len();
    if n == 0 {
        assert(all_indices(0) =~= Seq::<int>::empty());
    } else {
        let prev = fields.drop_last();
        lemma_fold_partition(op, axis, env, prev);
        assert(all_indices(n).drop_last() =~= all_indices((n - 1) as nat));
        assert(all_indices(n).last() == n - 1);
        let x = Folded::Defined(axis_class(env[n - 1], axis));
        let c = fold(op, axis, env, indices_where(prev, false));
        let p = fold(op, axis, env, indices_where(prev, true));
        assert(fold(op, axis, env, all_indices(n)) == join(op, join(op, c, p), x));
        if needs_bounds(fields.last()) {
            let idx = indices_where(fields, true);
            assert(idx == indices_where(prev, true).push(n - 1));
            assert(idx.drop_last() =~= indices_where(prev, true));
            assert(fold(op, axis, env, idx) == join(op, p, x));
            assert(indices_where(fields, false) == indices_where(prev, false));
            lemma_join_laws(op, c, p, x);
        } else {
            let idx = indices_where(fields, false);
            assert(idx == indices_where(prev, false).push(n - 1));
            assert(idx.drop_last() =~= indices_where(prev, false));
            assert(fold(op, axis, env, idx) == join(op, c, x));
            assert(indices_where(fields, true) == indices_where(prev, true));
            lemma_join_laws(op, c, p, x);
            lemma_join_laws(op, c, x, p);
            lemma_join_laws(op, p, x, c);
            lemma_join_laws(op, x, p, c);
            lemma_join_laws(op, c, x, p);
            lemma_join_laws(op, p, x, Folded::Empty);
        }
    }
}

/// `<field as RustSpec>::axis`, through the higher-ranked helper trait when the
/// field needs one.
pub fn field_axis_kind(field: &Field, index: usize, axis: Axis) -> (kind: Kind)
    ensures
        kind == if field.hrtb_bounds > 0 {
            Kind::HrtbField(index, axis)
        } else {
            Kind::Field(index, axis)
        },
        forall|env: Seq<RustSpec>| #[trigger]
            eval(kind, env) == if index < env.len() {
                Some(axis_class(env[index as int], axis))
            } else {
                None
            },
{
    if field.hrtb_bounds > 0 {
        Kind::HrtbField(index, axis)
    } else {
        Kind::Field(index, axis)
    }
}

/// Whether the field's classification needs bounds on the item's parameters.
pub fn field_needs_bounds(field: &Field) -> (needs: bool)
    ensures
        needs == needs_bounds(*field),
{
    field.has_type_params || field.hrtb_bounds > 0
}

/// Whether `kind` folds `op` over the `axis` values of the fields at `indices`
/// (and is absent exactly when there are none), for every classification of
/// `n` fields.
pub open spec fn denotes_fold(kind: Option<Kind>, op: Operator, axis: Axis, n: nat, indices: Seq<int>) -> bool {
    match kind {
        None => indices.len() == 0,
        Some(k) => indices.len() > 0 && forall|env: Seq<RustSpec>|
            env.len() == n ==> #[trigger] from_eval(eval(k, env)) == fold(op, axis, env, indices),
    }
}

/// Whether every bound holds for every classification of `n` fields under
/// which the fold over `indices` is defined.
pub open spec fn bounds_sound(bounds: Seq<Bound>, op: Operator, axis: Axis, n: nat, indices: Seq<int>) -> bool {
    forall|env: Seq<RustSpec>, j: int|
        env.len() == n && 0 <= j < bounds.len() && fold(op, axis, env, indices) != Folded::Undefined
            ==> #[trigger] bounds[j].holds(env)
}

/// Extending a fold family by one more field folds over one more index.
proof fn lemma_extend_fold(
    op: Operator,
    axis: Axis,
    n: nat,
    old_kind: Option<Kind>,
    new_kind: Kind,
    field_kind: Kind,
    old_idx: Seq<int>,
    i: usize,
)
    requires
        i < n,
        denotes_fold(old_kind, op, axis, n, old_idx),
        forall|env: Seq<RustSpec>| #[trigger]
            eval(field_kind, env) == if i < env.len() {
                Some(axis_class(env[i as int], axis))
            } else {
                None
            },
        new_kind == match old_kind {
            None => field_kind,
            Some(k) => Kind::Apply(op, Box::new(k), Box::new(field_kind)),
        },
    ensures
        denotes_fold(Some(new_kind), op, axis, n, old_idx.push(i as int)),
{
    let idx = old_idx.push(i as int);
    assert(idx.drop_last() =~= old_idx);
    assert forall|env: Seq<RustSpec>| env.len() == n implies #[trigger] from_eval(eval(new_kind, env))
        == fold(op, axis, env, idx) by {
        assert(fold(op, axis, env, idx) == join(
            op,
            fold(op, axis, env, old_idx),
            Folded::Defined(axis_class(env[i as int], axis)),
        ));
        assert(eval(field_kind, env) == Some(axis_class(env[i as int], axis)));
        match old_kind {
            None => {
                assert(old_idx =~= Seq::<int>::empty());
            },
            Some(k) => {
                assert(from_eval(eval(k, env)) == fold(op, axis, env, old_idx));
            },
        }
    };
}

/// The where-predicate added when a parameterized field extends the fold
/// holds whenever the extended fold is defined.
proof fn lemma_extend_bounds(
    op: Operator,
    axis: Axis,
    n: nat,
    old_kind: Option<Kind>,
    field_kind: Kind,
    old_idx: Seq<int>,
    i: usize,
    old_bounds: Seq<Bound>,
    new_bounds: Seq<Bound>,
)
    requires
        i < n,
        denotes_fold(old_kind, op, axis, n, old_idx),
        bounds_sound(old_bounds, op, axis, n, old_idx),
        forall|env: Seq<RustSpec>| #[trigger]
            eval(field_kind, env) == if i < env.len() {
                Some(axis_class(env[i as int], axis))
            } else {
                None
            },
        match old_kind {
            None => new_bounds == old_bounds,
            Some(k) => new_bounds == old_bounds.push(Bound { lhs: k, op, rhs: field_kind }),
        },
    ensures
        bounds_sound(new_bounds, op, axis, n, old_idx.push(i as int)),
{
    let idx = old_idx.push(i as int);
    assert(idx.drop_last() =~= old_idx);
    assert forall|env: Seq<RustSpec>, j: int|
        env.len() == n && 0 <= j < new_bounds.len() && fold(op, axis, env, idx)
            != Folded::Undefined implies #[trigger] new_bounds[j].holds(env) by {
        let x = Folded::Defined(axis_class(env[i as int], axis));
        assert(fold(op, axis, env, idx) == join(op, fold(op, axis, env, old_idx), x));
        lemma_join_laws(op, fold(op, axis, env, old_idx), x, Folded::Empty);
        if j < old_bounds.len() {
            assert(new_bounds[j] == old_bounds[j]);
        } else {
            let k = old_kind.unwrap();
            assert(from_eval(eval(k, env)) == fold(op, axis, env, old_idx));
            assert(eval(field_kind, env) == Some(axis_class(env[i as int], axis)));
        }
    };
}

/// The fold that a generated family computes: `seed` (when present) followed
/// by the `axis` of every field.
pub open spec fn aggregate_fold(op: Operator, axis: Axis, seed: Option<Marker>, env: Seq<RustSpec>) -> Folded {
    let start = match seed {
        Some(m) => Folded::Defined(m.class()),
        None => Folded::Empty,
    };
    join(op, start, fold(op, axis, env, all_indices(env.len())))
}

/// A combined family evaluates to the join of its operands.
pub proof fn lemma_eval_apply(op: Operator, a: Kind, b: Kind, env: Seq<RustSpec>)
    ensures
        from_eval(eval(Kind::Apply(op, Box::new(a), Box::new(b)), env)) == join(
            op,
            from_eval(eval(a, env)),
            from_eval(eval(b, env)),
        ),
{
}

/// A where-predicate holds exactly when the combined family is defined.
pub proof fn lemma_bound_holds(bound: Bound, env: Seq<RustSpec>)
    ensures
        bound.holds(env) <==> from_eval(eval(Kind::Apply(bound.op, Box::new(bound.lhs), Box::new(bound.rhs)), env))
            != Folded::Undefined,
{
}

/// Folding an operator that keeps `good` only while every operand is `good`
/// (and otherwise gives `bad`) yields `good` exactly when every field's
/// `axis` is `good`.
pub proof fn lemma_fold_conjunction(op: Operator, axis: Axis, env: Seq<RustSpec>, n: nat, good: Class, bad: Class)
    requires
        n <= env.len(),
        forall|i: int| 0 <= i < n ==> #[trigger] axis_class(env[i], axis) == good || axis_class(env[i], axis) == bad,
        combine_class(op, good, good) == Some(good),
        combine_class(op, good, bad) == Some(bad),
        combine_class(op, bad, good) == Some(bad),
        combine_class(op, bad, bad) == Some(bad),
    ensures
        fold(op, axis, env, all_indices(n)) == if n == 0 {
            Folded::Empty
        } else {
            Folded::Defined(
                if forall|i: int| 0 <= i < n ==> #[trigger] axis_class(env[i], axis) == good {
                    good
                } else {
                    bad
                },
            )
        },
    decreases n,
{
    if n > 0 {
        lemma_fold_conjunction(op, axis, env, (n - 1) as nat, good, bad);
        assert(all_indices(n).drop_last() =~= all_indices((n - 1) as nat));
        assert(all_indices(n).last() == n - 1);
        assert(axis_class(env[n - 1], axis) == good || axis_class(env[n - 1], axis) == bad);
        if forall|i: int| 0 <= i < n ==> #[trigger] axis_class(env[i], axis) == good {
            assert(axis_class(env[n - 1], axis) == good);
        } else {
            let w = choose|i: int| 0 <= i < n && #[trigger] axis_class(env[i], axis) != good;
            if w < n - 1 {
                assert(!(forall|i: int| 0 <= i < n - 1 ==> #[trigger] axis_class(env[i], axis) == good));
            }
        }
    }
}

/// Size of a composite of the first `n` fields, starting from a zero-sized
/// composite, or `None` when two of them are dynamically sized.
pub open spec fn combined_size(env: Seq<RustSpec>, n: nat) -> Option<Size>
    decreases n,
{
    if n == 0 {
        Some(Size::Sized(Sizedness::Zero))
    } else {
        match combined_size(env, (n - 1) as nat) {
            Some(s) => s.combine(env[n - 1].size),
            None => None,
        }
    }
}

/// The size fold over `n > 0` fields is `combined_size`.
pub proof fn lemma_fold_size(env: Seq<RustSpec>, n: nat)
    requires
        n <= env.len(),
    ensures
        fold(Operator::Add, Axis::Size, env, all_indices(n)) == if n == 0 {
            Folded::Empty
        } else {
            match combined_size(env, n) {
                Some(s) => Folded::Defined(Class::Size(s)),
                None => Folded::Undefined,
            }
        },
    decreases n,
{
    if n > 0 {
        lemma_fold_size(env, (n - 1) as nat);
        assert(all_indices(n).drop_last() =~= all_indices((n - 1) as nat));
        assert(all_indices(n).last() == n - 1);
        if n == 1 {
            assert(combined_size(env, 0) == Some(Size::Sized(Sizedness::Zero)));
        }
    }
}

/// Whether none of the first `n` fields has a niche.
pub open spec fn none_has_niche(env: Seq<RustSpec>, n: nat) -> bool {
    forall|i: int| 0 <= i < n ==> #[trigger] env[i].niche == Niche::WithoutNiche
}

/// Folding niches over two or more fields gives no niche when none of them
/// has one, and an unguaranteed niche otherwise; over one field it gives that
/// field's niche.
pub proof fn lemma_fold_niche(env: Seq<RustSpec>, n: nat)
    requires
        n <= env.len(),
    ensures
        fold(Operator::Add, Axis::Niche, env, all_indices(n)) == if n == 0 {
            Folded::Empty
        } else if n == 1 {
            Folded::Defined(Class::Niche(env[0].niche))
        } else if none_has_niche(env, n) {
            Folded::Defined(Class::Niche(Niche::WithoutNiche))
        } else {
            Folded::Defined(Class::Niche(Niche::WithNiche(Stability::Unstable)))
        },
    decreases n,
{
    if n > 0 {
        lemma_fold_niche(env, (n - 1) as nat);
        assert(all_indices(n).drop_last() =~= all_indices((n - 1) as nat));
        assert(all_indices(n).last() == n - 1);
        if n >= 2 {
            if none_has_niche(env, n) {
                assert(env[n - 1].niche == Niche::WithoutNiche);
                assert(none_has_niche(env, (n - 1) as nat));
                assert(env[0].niche == Niche::WithoutNiche);
            } else {
                let w = choose|i: int| 0 <= i < n && #[trigger] env[i].niche != Niche::WithoutNiche;
                if w < n - 1 {
                    assert(!none_has_niche(env, (n - 1) as nat));
                    if n == 2 {
                        assert(w == 0);
                    }
                }
            }
        }
    }
}

/// Every field is either bound-free or not.
pub proof fn lemma_indices_where_len(fields: Seq<Field>)
    ensures
        indices_where(fields, false).len() + indices_where(fields, true).len() == fields.len(),
    decreases fields.len(),
{
    if fields.len() > 0 {
        lemma_indices_where_len(fields.drop_last());
    }
}

/// Whether a family reaches a field whose classification needs bounds on the
/// item's parameters.
pub open spec fn kind_needs_bounds(kind: Kind, fields: Seq<Field>) -> bool
    decreases kind,
{
    match kind {
        Kind::Field(index, _) => index < fields.len() && needs_bounds(fields[index as int]),
        Kind::HrtbField(index, _) => index < fields.len() && needs_bounds(fields[index as int]),
        Kind::Apply(_, lhs, rhs) => kind_needs_bounds(*lhs, fields) || kind_needs_bounds(*rhs, fields),
        _ => false,
    }
}

/// Whether a family reaches each field the way the generated impl can name it:
/// directly as `<F as RustSpec>::Axis` when the field needs no higher-ranked
/// predicate, and through the helper trait `<Self as __HrtbAxes<i>>::Axis`
/// exactly when it does.
pub open spec fn routes_fields(kind: Kind, fields: Seq<Field>) -> bool
    decreases kind,
{
    match kind {
        Kind::Field(index, _) => index < fields.len() && fields[index as int].hrtb_bounds == 0,
        Kind::HrtbField(index, _) => index < fields.len() && fields[index as int].hrtb_bounds > 0,
        Kind::Apply(_, lhs, rhs) => routes_fields(*lhs, fields) && routes_fields(*rhs, fields),
        _ => true,
    }
}

/// Whether `<lhs as op<rhs>>::Output` names a type for every `rhs`, so that no
/// where-predicate is needed: `Max` with a fixed alignment (a marker or a tag
/// type's) on the left, since every fixed alignment implements
/// [`crate::Max`] for every right operand.
pub open spec fn total_operation(op: Operator, lhs: Kind) -> bool {
    op == Operator::Max && (lhs is Fixed || lhs is TagAlignment)
}

/// The where-predicates that a family needs, in post-order: `lhs: op<rhs>` for
/// every combination `<lhs as op<rhs>>::Output` one of whose operands reaches a
/// field that needs bounds, unless the combination names a type for every
/// right operand.
pub open spec fn required_bounds(kind: Kind, fields: Seq<Field>) -> Seq<Bound>
    decreases kind,
{
    match kind {
        Kind::Apply(op, lhs, rhs) => required_bounds(*lhs, fields) + required_bounds(*rhs, fields) + if !total_operation(
            op,
            *lhs,
        ) && (kind_needs_bounds(*lhs, fields) || kind_needs_bounds(*rhs, fields)) {
            seq![Bound { lhs: *lhs, op, rhs: *rhs }]
        } else {
            Seq::empty()
        },
        _ => Seq::empty(),
    }
}

impl AggregateFamily {
    /// Whether the family reaches every field the way the generated impl can
    /// name it, and carries exactly the where-predicates it needs.
    pub open spec fn bounds_complete(self, fields: Seq<Field>) -> bool {
        &&& routes_fields(self.kind, fields)
        &&& self.aggregate_bounds@ == required_bounds(self.kind, fields)
    }

    /// For every classification of `n` fields, the family evaluates to the
    /// aggregate fold, and its where-predicates hold whenever that fold is
    /// defined.
    pub open spec fn denotes(self, op: Operator, axis: Axis, seed: Option<Marker>, n: nat) -> bool {
        forall|env: Seq<RustSpec>|
            env.len() == n ==> #[trigger] from_eval(eval(self.kind, env)) == aggregate_fold(op, axis, seed, env)
                && (aggregate_fold(op, axis, seed, env) != Folded::Undefined ==> forall|j: int|
                0 <= j < self.aggregate_bounds@.len() ==> #[trigger] self.aggregate_bounds@[j].holds(env))
    }
}

impl AggregateFamily {
    /// A family that needs no bounds.
    pub fn fixed(kind: Kind) -> (family: AggregateFamily)
        ensures
            family.kind == kind,
            family.aggregate_bounds@.len() == 0,
    {
        AggregateFamily { kind, aggregate_bounds: Vec::new() }
    }

    /// Folds `op` over the `axis` of the fields, separately over the fields
    /// that need no bounds and over those that do; each step of the second fold
    /// gets a where-predicate.
    pub fn aggregate_parts(op: Operator, axis: Axis, fields: &Vec<Field>) -> (parts: (
        Option<Kind>,
        Option<Kind>,
        Vec<Bound>,
    ))
        ensures
            denotes_fold(parts.0, op, axis, fields@.len(), indices_where(fields@, false)),
            denotes_fold(parts.1, op, axis, fields@.len(), indices_where(fields@, true)),
            bounds_sound(parts.2@, op, axis, fields@.len(), indices_where(fields@, true)),
            parts.0 matches Some(c) ==> !kind_needs_bounds(c, fields@) && required_bounds(c, fields@).len() == 0
                && !(c is Fixed) && !(c is TagAlignment) && routes_fields(c, fields@),
            parts.1 matches Some(p) ==> kind_needs_bounds(p, fields@) && parts.2@ == required_bounds(p, fields@)
                && !(p is Fixed) && !(p is TagAlignment) && routes_fields(p, fields@),
            parts.1 is None ==> parts.2@.len() == 0,
    {
        let n = fields.len();
        let mut concrete: Option<Kind> = None;
        let mut parameterized: Option<Kind> = None;
        let mut bounds: Vec<Bound> = Vec::new();
        let mut i: usize = 0;
        while i < n
            invariant
                n == fields@.len(),
                i <= n,
                denotes_fold(concrete, op, axis, n as nat, indices_where(fields@.take(i as int), false)),
                denotes_fold(parameterized, op, axis, n as nat, indices_where(fields@.take(i as int), true)),
                bounds_sound(bounds@, op, axis, n as nat, indices_where(fields@.take(i as int), true)),
                concrete matches Some(c) ==> !kind_needs_bounds(c, fields@) && required_bounds(c, fields@).len() == 0
                    && !(c is Fixed) && !(c is TagAlignment) && routes_fields(c, fields@),
                parameterized matches Some(p) ==> kind_needs_bounds(p, fields@) && bounds@ == required_bounds(
                    p,
                    fields@,
                ) && !(p is Fixed) && !(p is TagAlignment) && routes_fields(p, fields@),
                parameterized is None ==> bounds@.len() == 0,
            decreases n - i,
        {
            let field = fields[i];
            let field_kind = field_axis_kind(&field, i, axis);
            let ghost prev = fields@.take(i as int);
            let ghost next = fields@.take(i + 1);
            assert(next.drop_last() =~= prev);
            assert(next.last() == field);
            if !field_needs_bounds(&field) {
                let ghost old_idx = indices_where(prev, false);
                let ghost old_kind = concrete;
                concrete = match concrete {
                    None => Some(field_kind),
                    Some(kind) => Some(Kind::Apply(op, Box::new(kind), Box::new(field_kind))),
                };
                assert(indices_where(next, true) == indices_where(prev, true));
                assert(indices_where(next, false) == old_idx.push(i as int));
                proof {
                    lemma_extend_fold(op, axis, n as nat, old_kind, concrete.unwrap(), field_kind, old_idx, i);
                    assert(fields@[i as int] == field);
                    assert(!kind_needs_bounds(field_kind, fields@));
                    assert(routes_fields(field_kind, fields@));
                    assert(required_bounds(field_kind, fields@) =~= Seq::<Bound>::empty());
                    if let Some(k) = old_kind {
                        let c = Kind::Apply(op, Box::new(k), Box::new(field_kind));
                        assert(routes_fields(c, fields@));
                        assert(required_bounds(c, fields@) =~= required_bounds(k, fields@) + required_bounds(
                            field_kind,
                            fields@,
                        ) + Seq::<Bound>::empty());
                    }
                }
            } else {
                let ghost old_idx = indices_where(prev, true);
                let ghost old_kind = parameterized;
                let ghost old_bounds = bounds@;
                parameterized = match parameterized {
                    None => Some(field_kind),
                    Some(kind) => {
                        let lhs = kind.copy();
                        let rhs = field_kind.copy();
                        bounds.push(Bound { lhs, op, rhs });
                        Some(Kind::Apply(op, Box::new(kind), Box::new(field_kind)))
                    },
                };
                assert(indices_where(next, false) == indices_where(prev, false));
                assert(indices_where(next, true) == old_idx.push(i as int));
                proof {
                    lemma_extend_fold(op, axis, n as nat, old_kind, parameterized.unwrap(), field_kind, old_idx, i);
                    lemma_extend_bounds(op, axis, n as nat, old_kind, field_kind, old_idx, i, old_bounds, bounds@);
                    assert(fields@[i as int] == field);
                    assert(kind_needs_bounds(field_kind, fields@));
                    assert(routes_fields(field_kind, fields@));
                    assert(required_bounds(field_kind, fields@) =~= Seq::<Bound>::empty());
                    if let Some(k) = old_kind {
                        let p = Kind::Apply(op, Box::new(k), Box::new(field_kind));
                        assert(routes_fields(p, fields@));
                        assert(!total_operation(op, k));
                        assert(required_bounds(p, fields@) =~= required_bounds(k, fields@) + required_bounds(
                            field_kind,
                            fields@,
                        ) + seq![Bound { lhs: k, op, rhs: field_kind }]);
                        assert(bounds@ =~= old_bounds.push(Bound { lhs: k, op, rhs: field_kind }));
                    }
                }
            }
            i = i + 1;
        }
        assert(fields@.take(n as int) =~= fields@);
        (concrete, parameterized, bounds)
    }

    /// Folds `op` over the `axis` of every field, or `None` when there are no
    /// fields.
    pub fn aggregate(op: Operator, axis: Axis, fields: &Vec<Field>) -> (family: Option<AggregateFamily>)
        ensures
            family is None <==> fields@.len() == 0,
            family matches Some(f) ==> f.denotes(op, axis, None, fields@.len()),
            family matches Some(f) ==> f.bounds_complete(fields@),
    {
        let (concrete, parameterized, bounds) = Self::aggregate_parts(op, axis, fields);
        let ghost n = fields@.len();
        let ghost c_idx = indices_where(fields@, false);
        let ghost p_idx = indices_where(fields@, true);
        proof {
            lemma_indices_where_len(fields@);
        }
        let ghost old_bounds = bounds@;
        let ghost gc = concrete;
        let ghost gp = parameterized;
        let mut bounds = bounds;
        let result = match (concrete, parameterized) {
            (Some(c), Some(p)) => {
                let lhs = c.copy();
                let rhs = p.copy();
                bounds.push(Bound { lhs, op, rhs });
                Some(AggregateFamily { kind: Kind::Apply(op, Box::new(c), Box::new(p)), aggregate_bounds: bounds })
            },
            (Some(c), None) => Some(AggregateFamily { kind: c, aggregate_bounds: bounds }),
            (None, Some(p)) => Some(AggregateFamily { kind: p, aggregate_bounds: bounds }),
            (None, None) => None,
        };
        proof {
            if let (Some(c), Some(p)) = (gc, gp) {
                assert(!total_operation(op, c));
                assert(required_bounds(Kind::Apply(op, Box::new(c), Box::new(p)), fields@) =~= required_bounds(
                    c,
                    fields@,
                ) + required_bounds(p, fields@) + seq![Bound { lhs: c, op, rhs: p }]);
                assert(result.unwrap().aggregate_bounds@ =~= old_bounds.push(Bound { lhs: c, op, rhs: p }));
                assert(result.unwrap().kind == Kind::Apply(op, Box::new(c), Box::new(p)));
                assert(required_bounds(c, fields@) =~= Seq::<Bound>::empty());
                assert(old_bounds == required_bounds(p, fields@));
                assert(required_bounds(result.unwrap().kind, fields@) =~= result.unwrap().aggregate_bounds@);
            }
            if let (Some(c), None) = (gc, gp) {
                assert(result.unwrap().kind == c);
                assert(required_bounds(c, fields@) =~= result.unwrap().aggregate_bounds@);
            }
            if let (None, Some(p)) = (gc, gp) {
                assert(result.unwrap().kind == p);
                assert(required_bounds(p, fields@) =~= result.unwrap().aggregate_bounds@);
            }
            if result is Some {
                let f = result.unwrap();
                assert forall|env: Seq<RustSpec>| env.len() == n implies #[trigger] from_eval(eval(f.kind, env))
                    == aggregate_fold(op, axis, None, env) && (aggregate_fold(op, axis, None, env) != Folded::Undefined
                    ==> forall|j: int| 0 <= j < f.aggregate_bounds@.len() ==> #[trigger] f.aggregate_bounds@[j].holds(env)) by {
                    lemma_fold_partition(op, axis, env, fields@);
                    let cf = fold(op, axis, env, c_idx);
                    let pf = fold(op, axis, env, p_idx);
                    lemma_join_laws(op, cf, pf, Folded::Empty);
                    lemma_join_laws(op, pf, cf, Folded::Empty);
                    lemma_join_laws(op, Folded::Empty, fold(op, axis, env, all_indices(n)), Folded::Empty);
                    if aggregate_fold(op, axis, None, env) != Folded::Undefined {
                        assert forall|j: int| 0 <= j < f.aggregate_bounds@.len() implies #[trigger] f.aggregate_bounds@[j].holds(env) by {
                            if j < old_bounds.len() {
                                assert(f.aggregate_bounds@[j] == old_bounds[j]);
                            }
                        };
                    }
                };
            }
        }
        result
    }

    /// Folds `op` over `seed` followed by the `axis` of every field.
    pub fn aggregate_with_seed(op: Operator, axis: Axis, seed: Marker, fields: &Vec<Field>) -> (family: AggregateFamily)
        ensures
            family.denotes(op, axis, Some(seed), fields@.len()),
            routes_fields(family.kind, fields@),
            op == Operator::Add ==> family.bounds_complete(fields@),
    {
        let (concrete, parameterized, bounds) = Self::aggregate_parts(op, axis, fields);
        let ghost n = fields@.len();
        let ghost c_idx = indices_where(fields@, false);
        let ghost p_idx = indices_where(fields@, true);
        let ghost gc = concrete;
        let ghost gp = parameterized;
        let ghost old_bounds = bounds@;
        let mut bounds = bounds;
        let result = match (concrete, parameterized) {
            (Some(c), Some(p)) => {
                let seeded = Kind::Apply(op, Box::new(Kind::Fixed(seed)), Box::new(c));
                let lhs = seeded.copy();
                let rhs = p.copy();
                bounds.push(Bound { lhs, op, rhs });
                AggregateFamily { kind: Kind::Apply(op, Box::new(seeded), Box::new(p)), aggregate_bounds: bounds }
            },
            (Some(c), None) => AggregateFamily {
                kind: Kind::Apply(op, Box::new(Kind::Fixed(seed)), Box::new(c)),
                aggregate_bounds: bounds,
            },
            (None, Some(p)) => {
                let rhs = p.copy();
                bounds.push(Bound { lhs: Kind::Fixed(seed), op, rhs });
                AggregateFamily { kind: Kind::Apply(op, Box::new(Kind::Fixed(seed)), Box::new(p)), aggregate_bounds: bounds }
            },
            (None, None) => AggregateFamily::fixed(Kind::Fixed(seed)),
        };
        proof {
            let fixed = Kind::Fixed(seed);
            assert(routes_fields(fixed, fields@));
            match (gc, gp) {
                (Some(c), Some(p)) => {
                    let seeded = Kind::Apply(op, Box::new(fixed), Box::new(c));
                    assert(routes_fields(seeded, fields@));
                    assert(result.kind == Kind::Apply(op, Box::new(seeded), Box::new(p)));
                },
                (Some(c), None) => {
                    assert(result.kind == Kind::Apply(op, Box::new(fixed), Box::new(c)));
                },
                (None, Some(p)) => {
                    assert(result.kind == Kind::Apply(op, Box::new(fixed), Box::new(p)));
                },
                (None, None) => {
                    assert(result.kind == fixed);
                },
            }
            assert(routes_fields(result.kind, fields@));
            if op == Operator::Add {
                let fixed = Kind::Fixed(seed);
                assert(!kind_needs_bounds(fixed, fields@));
                assert(required_bounds(fixed, fields@) =~= Seq::<Bound>::empty());
                match (gc, gp) {
                    (Some(c), Some(p)) => {
                        let seeded = Kind::Apply(op, Box::new(fixed), Box::new(c));
                        assert(required_bounds(seeded, fields@) =~= Seq::<Bound>::empty());
                        assert(!kind_needs_bounds(seeded, fields@));
                        assert(required_bounds(Kind::Apply(op, Box::new(seeded), Box::new(p)), fields@)
                            =~= Seq::<Bound>::empty() + required_bounds(p, fields@) + seq![
                            Bound { lhs: seeded, op, rhs: p },
                        ]);
                        assert(result.aggregate_bounds@ =~= old_bounds.push(Bound { lhs: seeded, op, rhs: p }));
                        assert(old_bounds == required_bounds(p, fields@));
                        assert(result.kind == Kind::Apply(op, Box::new(seeded), Box::new(p)));
                        assert(required_bounds(result.kind, fields@) =~= result.aggregate_bounds@);
                    },
                    (Some(c), None) => {
                        assert(required_bounds(Kind::Apply(op, Box::new(fixed), Box::new(c)), fields@)
                            =~= Seq::<Bound>::empty());
                        assert(result.aggregate_bounds@ =~= old_bounds);
                        assert(result.kind == Kind::Apply(op, Box::new(fixed), Box::new(c)));
                        assert(required_bounds(result.kind, fields@) =~= result.aggregate_bounds@);
                    },
                    (None, Some(p)) => {
                        assert(required_bounds(Kind::Apply(op, Box::new(fixed), Box::new(p)), fields@)
                            =~= Seq::<Bound>::empty() + required_bounds(p, fields@) + seq![
                            Bound { lhs: fixed, op, rhs: p },
                        ]);
                        assert(result.aggregate_bounds@ =~= old_bounds.push(Bound { lhs: fixed, op, rhs: p }));
                        assert(old_bounds == required_bounds(p, fields@));
                        assert(result.kind == Kind::Apply(op, Box::new(fixed), Box::new(p)));
                        assert(required_bounds(result.kind, fields@) =~= result.aggregate_bounds@);
                    },
                    (None, None) => {
                        assert(result.kind == fixed);
                        assert(required_bounds(result.kind, fields@) =~= result.aggregate_bounds@);
                    },
                }
            }
            let f = result;
            let s = Folded::Defined(seed.class());
            assert forall|env: Seq<RustSpec>| env.len() == n implies #[trigger] from_eval(eval(f.kind, env))
                == aggregate_fold(op, axis, Some(seed), env) && (aggregate_fold(op, axis, Some(seed), env) != Folded::Undefined
                ==> forall|j: int| 0 <= j < f.aggregate_bounds@.len() ==> #[trigger] f.aggregate_bounds@[j].holds(env)) by {
                lemma_fold_partition(op, axis, env, fields@);
                let cf = fold(op, axis, env, c_idx);
                let pf = fold(op, axis, env, p_idx);
                let total = fold(op, axis, env, all_indices(n));
                assert(total == join(op, cf, pf));
                lemma_join_laws(op, s, cf, pf);
                lemma_join_laws(op, cf, pf, Folded::Empty);
                lemma_join_laws(op, pf, cf, Folded::Empty);
                lemma_join_laws(op, join(op, s, cf), pf, Folded::Empty);
                lemma_join_laws(op, pf, join(op, s, cf), Folded::Empty);
                lemma_join_laws(op, pf, s, Folded::Empty);
                lemma_join_laws(op, s, pf, Folded::Empty);
                match (gc, gp) {
                    (Some(c), Some(p)) => {
                        let seeded = Kind::Apply(op, Box::new(Kind::Fixed(seed)), Box::new(c));
                        assert(from_eval(eval(c, env)) == cf);
                        assert(from_eval(eval(p, env)) == pf);
                        lemma_eval_apply(op, Kind::Fixed(seed), c, env);
                        lemma_eval_apply(op, seeded, p, env);
                        assert(f.kind == Kind::Apply(op, Box::new(seeded), Box::new(p)));
                        if aggregate_fold(op, axis, Some(seed), env) != Folded::Undefined {
                            assert forall|j: int| 0 <= j < f.aggregate_bounds@.len() implies #[trigger] f.aggregate_bounds@[j].holds(env) by {
                                if j < old_bounds.len() {
                                    assert(f.aggregate_bounds@[j] == old_bounds[j]);
                                } else {
                                    lemma_bound_holds(Bound { lhs: seeded, op, rhs: p }, env);
                                }
                            };
                        }
                    },
                    (Some(c), None) => {
                        assert(p_idx.len() == 0);
                        assert(from_eval(eval(c, env)) == cf);
                        lemma_eval_apply(op, Kind::Fixed(seed), c, env);
                        if aggregate_fold(op, axis, Some(seed), env) != Folded::Undefined {
                            assert forall|j: int| 0 <= j < f.aggregate_bounds@.len() implies #[trigger] f.aggregate_bounds@[j].holds(env) by {
                                assert(f.aggregate_bounds@[j] == old_bounds[j]);
                            };
                        }
                    },
                    (None, Some(p)) => {
                        assert(c_idx.len() == 0);
                        assert(from_eval(eval(p, env)) == pf);
                        lemma_eval_apply(op, Kind::Fixed(seed), p, env);
                        if aggregate_fold(op, axis, Some(seed), env) != Folded::Undefined {
                            assert forall|j: int| 0 <= j < f.aggregate_bounds@.len() implies #[trigger] f.aggregate_bounds@[j].holds(env) by {
                                if j < old_bounds.len() {
                                    assert(f.aggregate_bounds@[j] == old_bounds[j]);
                                } else {
                                    lemma_bound_holds(Bound { lhs: Kind::Fixed(seed), op, rhs: p }, env);
                                }
                            };
                        }
                    },
                    (None, None) => {
                        assert(c_idx.len() == 0);
                        assert(p_idx.len() == 0);
                    },
                }
            };
        }
        result
    }
}

impl Marker {
    /// The axis value that the marker type stands for.
    pub fn value(self) -> (class: Class)
        ensures
            class == self.class(),
    {
        match self {
            Marker::Stable => Class::Layout(Stability::Stable),
            Marker::Unstable => Class::Layout(Stability::Unstable),
            Marker::Robust => Class::Trap(Trap::Robust),
            Marker::NonRobust => Class::Trap(Trap::NonRobust),
            Marker::SizedZero => Class::Size(Size::Sized(Sizedness::Zero)),
            Marker::SizedNonZero => Class::Size(Size::Sized(Sizedness::NonZero)),
            Marker::One => Class::Alignment(Alignment::One),
            Marker::GtOne => Class::Alignment(Alignment::GtOne),
            Marker::WithoutNiche => Class::Niche(Niche::WithoutNiche),
            Marker::WithNicheUnstable => Class::Niche(Niche::WithNiche(Stability::Unstable)),
            Marker::Exclusive => Class::Mutability(Mutability::Exclusive),
        }
    }
}

/// The value of `axis` in the classification `spec`.
pub fn axis_value(spec: &RustSpec, axis: Axis) -> (class: Class)
    ensures
        class == axis_class(*spec, axis),
{
    match axis {
        Axis::Layout => Class::Layout(spec.layout),
        Axis::Size => Class::Size(spec.size),
        Axis::Alignment => Class::Alignment(spec.alignment),
        Axis::Trap => Class::Trap(spec.trap),
        Axis::Niche => Class::Niche(spec.niche),
        Axis::Mutability => Class::Mutability(spec.mutability),
        Axis::IndirectTrap => Class::Trap(spec.indirect_trap),
    }
}

/// `<a as op<b>>::Output`, or `None` when no such impl exists.
pub fn combine(op: Operator, a: Class, b: Class) -> (out: Option<Class>)
    ensures
        out == combine_class(op, a, b),
{
    match (op, a, b) {
        (Operator::Add, Class::Layout(x), Class::Layout(y)) => Some(Class::Layout(x.add(y))),
        (Operator::Add, Class::Size(x), Class::Size(y)) => match x.add(y) {
            Some(s) => Some(Class::Size(s)),
            None => None,
        },
        (Operator::Add, Class::Trap(x), Class::Trap(y)) => Some(Class::Trap(x.add(y))),
        (Operator::Add, Class::Niche(x), Class::Niche(y)) => Some(Class::Niche(x.add(y))),
        (Operator::Add, Class::Mutability(x), Class::Mutability(y)) => Some(Class::Mutability(x.add(y))),
        (Operator::Max, Class::Alignment(x), Class::Alignment(y)) => Some(Class::Alignment(x.max(y))),
        _ => None,
    }
}

impl Kind {
    /// The axis value that the family denotes once the fields are classified
    /// as `fields`, or `None` when the type expression names no type.
    pub fn evaluate(&self, fields: &Vec<RustSpec>) -> (class: Option<Class>)
        ensures
            class == eval(*self, fields@),
        decreases self,
    {
        match self {
            Kind::Fixed(marker) => Some(marker.value()),
            Kind::Field(index, axis) => if *index < fields.len() {
                Some(axis_value(&fields[*index], *axis))
            } else {
                None
            },
            Kind::HrtbField(index, axis) => if *index < fields.len() {
                Some(axis_value(&fields[*index], *axis))
            } else {
                None
            },
            Kind::TagAlignment(tag) => Some(Class::Alignment(tag.alignment_value())),
            Kind::Apply(op, lhs, rhs) => {
                let l = lhs.evaluate(fields);
                let r = rhs.evaluate(fields);
                match (l, r) {
                    (Some(a), Some(b)) => combine(*op, a, b),
                    _ => None,
                }
            },
        }
    }
}

impl Bound {
    /// Whether the predicate is satisfied once the fields are classified as
    /// `fields`.
    pub fn is_satisfied(&self, fields: &Vec<RustSpec>) -> (holds: bool)
        ensures
            holds == self.holds(fields@),
    {
        match (self.lhs.evaluate(fields), self.rhs.evaluate(fields)) {
            (Some(a), Some(b)) => combine(self.op, a, b).is_some(),
            _ => false,
        }
    }
}

} // verus!
