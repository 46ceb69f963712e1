//! Fields whose types contain projections such as `<T as Trait>::Assoc`, where
//! the item's where-clause bounds `T: Trait` under a `for<..>` binder. Such a
//! field's classification is reached through a higher-ranked helper trait.
//!
//! Types and paths are compared by their token text; the caller hands them in
//! interned, so that equal text means equal identifiers.
use vstd::prelude::*;

use crate::derive::family::{Bound, Field, Kind};

verus! {

/// A qualified-self projection `<qself_ty as trait_path>::associated` found in
/// a field type.
#[derive(Clone, Copy, Debug, PartialEq, Eq, Structural)]
pub struct Projection {
    pub qself_ty: u64,
    pub trait_path: u64,
    /// The path segment that follows the trait path, if any.
    pub associated: Option<u64>,
}

/// A type predicate of the item's where-clause.
pub struct TypePredicate {
    /// Whether the predicate has a `for<..>` binder.
    pub has_lifetimes: bool,
    pub bounded_ty: u64,
    /// Each bound: the path of a trait bound, `None` for any other bound.
    pub bounds: Vec<Option<u64>>,
}

/// A predicate of the item's where-clause.
pub enum WherePredicate {
    Type(TypePredicate),
    Other,
}

/// A higher-ranked predicate `predicate` (with its bound `bound` rewritten to
/// bound the projection's associated type by `RustSpec`) that the
/// projection `projection` needs.
#[derive(Clone, Copy, Debug, PartialEq, Eq, Structural)]
pub struct HrtbMatch {
    pub projection: usize,
    pub predicate: usize,
    pub bound: usize,
}

/// Index of the first bound that is the trait `path`.
pub open spec fn first_bound(bounds: Seq<Option<u64>>, path: u64) -> Option<int>
    decreases bounds.len(),
{
    if bounds.len() == 0 {
        None
    } else {
        match first_bound(bounds.drop_last(), path) {
            Some(i) => Some(i),
            None => if bounds.last() == Some(path) {
                Some(bounds.len() - 1)
            } else {
                None
            },
        }
    }
}

/// The bound of `predicate` that the projection needs rewritten, if the
/// predicate is a higher-ranked bound of the projection's self type by its
/// trait.
pub open spec fn predicate_match(projection: Projection, predicate: WherePredicate) -> Option<int> {
    match predicate {
        WherePredicate::Other => None,
        WherePredicate::Type(p) => if !p.has_lifetimes || p.bounded_ty != projection.qself_ty {
            None
        } else if projection.associated is None {
            None
        } else {
            first_bound(p.bounds@, projection.trait_path)
        },
    }
}

/// The matches of one projection, in predicate order.
pub open spec fn projection_matches(projection: Projection, index: int, predicates: Seq<WherePredicate>) -> Seq<HrtbMatch>
    decreases predicates.len(),
{
    if predicates.len() == 0 {
        Seq::empty()
    } else {
        let prev = projection_matches(projection, index, predicates.drop_last());
        match predicate_match(projection, predicates.last()) {
            Some(b) => prev.push(
                HrtbMatch { projection: index as usize, predicate: (predicates.len() - 1) as usize, bound: b as usize },
            ),
            None => prev,
        }
    }
}

/// The matches of all projections, projection by projection.
pub open spec fn hrtb_matches(projections: Seq<Projection>, predicates: Seq<WherePredicate>) -> Seq<HrtbMatch>
    decreases projections.len(),
{
    if projections.len() == 0 {
        Seq::empty()
    } else {
        hrtb_matches(projections.drop_last(), predicates) + projection_matches(
            projections.last(),
            projections.len() - 1,
            predicates,
        )
    }
}

/// Index of the first bound of `bounds` that is the trait `path`.
fn find_bound(bounds: &Vec<Option<u64>>, path: u64) -> (found: Option<usize>)
    ensures
        found matches Some(i) ==> first_bound(bounds@, path) == Some(i as int),
        found is None ==> first_bound(bounds@, path) is None,
{
    let mut i: usize = 0;
    while i < bounds.len()
        invariant
            i <= bounds@.len(),
            first_bound(bounds@.take(i as int), path) is None,
        decreases bounds@.len() - i,
    {
        assert(bounds@.take(i + 1).drop_last() =~= bounds@.take(i as int));
        if bounds[i] == Some(path) {
            proof {
                lemma_first_bound_prefix(bounds@, (i + 1) as int, path);
            }
            return Some(i);
        }
        i = i + 1;
    }
    assert(bounds@.take(bounds@.len() as int) =~= bounds@);
    None
}

/// A match in a prefix is the first match of the whole sequence.
proof fn lemma_first_bound_prefix(bounds: Seq<Option<u64>>, k: int, path: u64)
    requires
        0 <= k <= bounds.len(),
        first_bound(bounds.take(k), path) is Some,
    ensures
        first_bound(bounds, path) == first_bound(bounds.take(k), path),
    decreases bounds.len() - k,
{
    if k < bounds.len() {
        assert(bounds.take(k + 1).drop_last() =~= bounds.take(k));
        lemma_first_bound_prefix(bounds, k + 1, path);
    } else {
        assert(bounds.take(k) =~= bounds);
    }
}

/// The higher-ranked where-predicates that the projections of one field need.
pub fn hrtb_projection_bound(projections: &Vec<Projection>, predicates: &Vec<WherePredicate>) -> (matches: Vec<HrtbMatch>)
    ensures
        matches@ == hrtb_matches(projections@, predicates@),
{
    let mut matches: Vec<HrtbMatch> = Vec::new();
    let mut p: usize = 0;
    while p < projections.len()
        invariant
            p <= projections@.len(),
            matches@ == hrtb_matches(projections@.take(p as int), predicates@),
        decreases projections@.len() - p,
    {
        let projection = projections[p];
        let ghost before = matches@;
        let mut k: usize = 0;
        while k < predicates.len()
            invariant
                p < projections@.len(),
                projection == projections@[p as int],
                k <= predicates@.len(),
                matches@ == before + projection_matches(projection, p as int, predicates@.take(k as int)),
            decreases predicates@.len() - k,
        {
            assert(predicates@.take(k + 1).drop_last() =~= predicates@.take(k as int));
            assert(predicates@.take(k + 1).last() == predicates@[k as int]);
            match &predicates[k] {
                WherePredicate::Other => {},
                WherePredicate::Type(predicate) => {
                    if predicate.has_lifetimes && predicate.bounded_ty == projection.qself_ty
                        && projection.associated.is_some() {
                        match find_bound(&predicate.bounds, projection.trait_path) {
                            Some(b) => {
                                matches.push(HrtbMatch { projection: p, predicate: k, bound: b });
                            },
                            None => {},
                        }
                    }
                },
            }
            k = k + 1;
            assert(matches@ =~= before + projection_matches(projection, p as int, predicates@.take(k as int)));
        }
        assert(predicates@.take(predicates@.len() as int) =~= predicates@);
        assert(projections@.take(p + 1).drop_last() =~= projections@.take(p as int));
        assert(projections@.take(p + 1).last() == projection);
        p = p + 1;
    }
    assert(projections@.take(projections@.len() as int) =~= projections@);
    matches
}

/// The shape of a field type, as far as type parameters are concerned. Path
/// heads are interned first identifiers.
pub enum TypeShape {
    /// A path without a qualified self type, such as `Vec<T>` or `T`: its
    /// first identifier and the types among its generic arguments.
    Path { head: u64, args: Vec<TypeShape> },
    /// A qualified path `<Q as Trait>::Assoc`: its self type and the types
    /// among the generic arguments of its segments.
    Qualified { qself: Box<TypeShape>, args: Vec<TypeShape> },
    /// `*const P` or `*mut P`.
    RawPointer(Box<TypeShape>),
    /// Any other type (reference, slice, array, tuple, ...) with its component
    /// types.
    Other(Vec<TypeShape>),
}

/// Whether a type mentions one of the type parameters `params`: a path whose
/// first identifier is one, anywhere in the type but behind a raw pointer,
/// which does not follow its pointee.
pub open spec fn mentions_param(t: TypeShape, params: Seq<u64>) -> bool
    decreases t,
{
    match t {
        TypeShape::Path { head, args } => params.contains(head) || any_mentions_param(args@, params),
        TypeShape::Qualified { qself, args } => mentions_param(*qself, params) || any_mentions_param(args@, params),
        TypeShape::RawPointer(_) => false,
        TypeShape::Other(args) => any_mentions_param(args@, params),
    }
}

/// Whether one of the types mentions one of the type parameters `params`.
pub open spec fn any_mentions_param(ts: Seq<TypeShape>, params: Seq<u64>) -> bool
    decreases ts,
{
    if ts.len() == 0 {
        false
    } else {
        any_mentions_param(ts.subrange(0, ts.len() - 1), params) || mentions_param(ts[ts.len() - 1], params)
    }
}

/// Whether `head` is one of the type parameters.
fn is_param(head: u64, type_params: &Vec<u64>) -> (found: bool)
    ensures
        found == type_params@.contains(head),
{
    let mut j: usize = 0;
    while j < type_params.len()
        invariant
            j <= type_params@.len(),
            forall|b: int| 0 <= b < j ==> type_params@[b] != head,
        decreases type_params@.len() - j,
    {
        if type_params[j] == head {
            return true;
        }
        j = j + 1;
    }
    false
}

/// Whether one of the types mentions a type parameter.
fn any_has_type_params(args: &Vec<TypeShape>, type_params: &Vec<u64>) -> (found: bool)
    ensures
        found == any_mentions_param(args@, type_params@),
    decreases args,
{
    let mut i: usize = 0;
    while i < args.len()
        invariant
            i <= args@.len(),
            !any_mentions_param(args@.subrange(0, i as int), type_params@),
        decreases args@.len() - i,
    {
        proof {
            assert(decreases_to!(args => args@[i as int]));
        }
        let found = field_has_type_params(&args[i], type_params);
        assert(args@.subrange(0, i + 1).subrange(0, i as int) =~= args@.subrange(0, i as int));
        if found {
            proof {
                assert(any_mentions_param(args@.subrange(0, i + 1), type_params@));
                lemma_any_mentions_prefix(args@, type_params@, i + 1);
            }
            return true;
        }
        i = i + 1;
    }
    assert(args@.subrange(0, args@.len() as int) =~= args@);
    false
}

/// A type list mentions a parameter when one of its prefixes does.
proof fn lemma_any_mentions_prefix(ts: Seq<TypeShape>, params: Seq<u64>, k: int)
    requires
        0 <= k <= ts.len(),
        any_mentions_param(ts.subrange(0, k), params),
    ensures
        any_mentions_param(ts, params),
    decreases ts.len() - k,
{
    if k < ts.len() {
        assert(ts.subrange(0, k + 1).subrange(0, k) =~= ts.subrange(0, k));
        lemma_any_mentions_prefix(ts, params, k + 1);
    } else {
        assert(ts.subrange(0, k) =~= ts);
    }
}

/// Whether a field type mentions a type parameter of the item, so that the
/// generated impl needs `Field: RustSpec`. A parameter reached only through a
/// raw pointer does not count.
pub fn field_has_type_params(ty: &TypeShape, type_params: &Vec<u64>) -> (found: bool)
    ensures
        found == mentions_param(*ty, type_params@),
    decreases ty,
{
    match ty {
        TypeShape::Path { head, args } => is_param(*head, type_params) || any_has_type_params(args, type_params),
        TypeShape::Qualified { qself, args } => field_has_type_params(qself, type_params) || any_has_type_params(
            args,
            type_params,
        ),
        TypeShape::RawPointer(_) => false,
        TypeShape::Other(args) => any_has_type_params(args, type_params),
    }
}

/// What one field contributes to the generated impl.
pub fn field_info(
    ty: &TypeShape,
    type_params: &Vec<u64>,
    projections: &Vec<Projection>,
    predicates: &Vec<WherePredicate>,
) -> (field: Field)
    ensures
        field.has_type_params == mentions_param(*ty, type_params@),
        field.hrtb_bounds == hrtb_matches(projections@, predicates@).len(),
{
    let has_type_params = field_has_type_params(ty, type_params);
    let matches = hrtb_projection_bound(projections, predicates);
    Field { has_type_params, hrtb_bounds: matches.len() }
}

/// A predicate that the generated impl puts on one field.
#[derive(Clone, Copy, Debug, PartialEq, Eq, Structural)]
pub enum FieldBound {
    /// `Field: RustSpec`.
    RustSpec { field: usize },
    /// `for<..> Self: __HrtbAxes<field>`, with the binder of the field's
    /// `predicate`-th higher-ranked predicate.
    HrtbAxes { field: usize, predicate: usize },
}

/// The predicates of one field: `RustSpec` for a field that mentions a type
/// parameter, the helper trait under each of its binders otherwise.
pub open spec fn field_bound_list(index: int, field: Field) -> Seq<FieldBound> {
    if field.has_type_params {
        seq![FieldBound::RustSpec { field: index as usize }]
    } else {
        Seq::new(
            field.hrtb_bounds as nat,
            |k: int| FieldBound::HrtbAxes { field: index as usize, predicate: k as usize },
        )
    }
}

/// The predicates of all fields, field by field.
pub open spec fn all_field_bounds(fields: Seq<Field>) -> Seq<FieldBound>
    decreases fields.len(),
{
    if fields.len() == 0 {
        Seq::empty()
    } else {
        all_field_bounds(fields.drop_last()) + field_bound_list(fields.len() - 1, fields.last())
    }
}

/// The per-field predicates of a generated impl.
pub fn field_bounds(fields: &Vec<Field>) -> (bounds: Vec<FieldBound>)
    ensures
        bounds@ == all_field_bounds(fields@),
{
    let mut bounds: Vec<FieldBound> = Vec::new();
    let mut i: usize = 0;
    while i < fields.len()
        invariant
            i <= fields@.len(),
            bounds@ == all_field_bounds(fields@.take(i as int)),
        decreases fields@.len() - i,
    {
        let field = fields[i];
        let ghost before = bounds@;
        assert(fields@.take(i + 1).drop_last() =~= fields@.take(i as int));
        assert(fields@.take(i + 1).last() == field);
        if field.has_type_params {
            bounds.push(FieldBound::RustSpec { field: i });
        } else {
            let mut k: usize = 0;
            while k < field.hrtb_bounds
                invariant
                    k <= field.hrtb_bounds,
                    bounds@ == before + Seq::new(
                        k as nat,
                        |m: int| FieldBound::HrtbAxes { field: i, predicate: m as usize },
                    ),
                decreases field.hrtb_bounds - k,
            {
                bounds.push(FieldBound::HrtbAxes { field: i, predicate: k });
                k = k + 1;
                assert(bounds@ =~= before + Seq::new(
                    k as nat,
                    |m: int| FieldBound::HrtbAxes { field: i, predicate: m as usize },
                ));
            }
        }
        assert(bounds@ =~= all_field_bounds(fields@.take(i + 1)));
        i = i + 1;
    }
    assert(fields@.take(fields@.len() as int) =~= fields@);
    bounds
}

/// Whether a family reaches a field through the higher-ranked helper trait.
pub open spec fn kind_mentions_hrtb(kind: Kind) -> bool
    decreases kind,
{
    match kind {
        Kind::HrtbField(_, _) => true,
        Kind::Apply(_, lhs, rhs) => kind_mentions_hrtb(*lhs) || kind_mentions_hrtb(*rhs),
        _ => false,
    }
}

/// Whether a family reaches a field through the higher-ranked helper trait.
pub fn mentions_hrtb(kind: &Kind) -> (mentions: bool)
    ensures
        mentions == kind_mentions_hrtb(*kind),
    decreases kind,
{
    match kind {
        Kind::HrtbField(_, _) => true,
        Kind::Apply(_, lhs, rhs) => mentions_hrtb(lhs) || mentions_hrtb(rhs),
        _ => false,
    }
}

/// Whether a where-predicate has to be repeated under every higher-ranked
/// binder of the item.
pub fn bound_needs_binders(bound: &Bound) -> (needs: bool)
    ensures
        needs == (kind_mentions_hrtb(bound.lhs) || kind_mentions_hrtb(bound.rhs)),
{
    mentions_hrtb(&bound.lhs) || mentions_hrtb(&bound.rhs)
}


/// `first_bound` finds the earliest bound that is the trait, and finds none
/// exactly when no bound is.
pub proof fn lemma_first_bound_is_first(bounds: Seq<Option<u64>>, path: u64, i: int)
    ensures
        first_bound(bounds, path) == Some(i) <==> (0 <= i < bounds.len() && bounds[i] == Some(path) && forall|j: int|
            0 <= j < i ==> #[trigger] bounds[j] != Some(path)),
        first_bound(bounds, path) is None <==> forall|j: int| 0 <= j < bounds.len() ==> #[trigger] bounds[j] != Some(path),
    decreases bounds.len(),
{
    if bounds.len() > 0 {
        let prefix = bounds.drop_last();
        lemma_first_bound_is_first(prefix, path, i);
        let n = bounds.len() - 1;
        lemma_first_bound_is_first(prefix, path, n);
        if first_bound(prefix, path) is Some {
            let k = first_bound(prefix, path).unwrap();
            lemma_first_bound_is_first(prefix, path, k);
            assert(bounds[k] == prefix[k]);
            assert forall|j: int| 0 <= j < k implies #[trigger] bounds[j] != Some(path) by {
                assert(prefix[j] == bounds[j]);
            }
            if i != k && 0 <= i < bounds.len() && bounds[i] == Some(path) && forall|j: int|
                0 <= j < i ==> #[trigger] bounds[j] != Some(path) {
                if i < k {
                    assert(prefix[i] == bounds[i]);
                } else {
                    assert(bounds[k] != Some(path));
                }
            }
        } else {
            assert forall|j: int| 0 <= j < n implies #[trigger] bounds[j] != Some(path) by {
                assert(prefix[j] == bounds[j]);
            }
            if 0 <= i < n && bounds[i] == Some(path) {
                assert(prefix[i] == bounds[i]);
            }
        }
        if forall|j: int| 0 <= j < bounds.len() ==> #[trigger] bounds[j] != Some(path) {
            assert forall|j: int| 0 <= j < n implies #[trigger] prefix[j] != Some(path) by {
                assert(prefix[j] == bounds[j]);
            }
            assert(bounds[n] != Some(path));
        }
    }
}

/// A list of types mentions a type parameter exactly when one of its types
/// does.
pub proof fn lemma_any_mentions_param(ts: Seq<TypeShape>, params: Seq<u64>)
    ensures
        any_mentions_param(ts, params) <==> exists|i: int| 0 <= i < ts.len() && mentions_param(#[trigger] ts[i], params),
    decreases ts.len(),
{
    if ts.len() > 0 {
        let prefix = ts.subrange(0, ts.len() - 1);
        lemma_any_mentions_param(prefix, params);
        if exists|i: int| 0 <= i < ts.len() && mentions_param(#[trigger] ts[i], params) {
            let i = choose|i: int| 0 <= i < ts.len() && mentions_param(#[trigger] ts[i], params);
            if i < ts.len() - 1 {
                assert(prefix[i] == ts[i]);
            }
        }
        if any_mentions_param(prefix, params) {
            let i = choose|i: int| 0 <= i < prefix.len() && mentions_param(#[trigger] prefix[i], params);
            assert(prefix[i] == ts[i]);
        }
    }
}


/// The matches of one projection are exactly the predicates that it matches,
/// each with the bound to rewrite.
pub proof fn lemma_projection_matches(projection: Projection, index: int, predicates: Seq<WherePredicate>, m: HrtbMatch)
    requires
        predicates.len() <= usize::MAX,
    ensures
        projection_matches(projection, index, predicates).contains(m) <==> (m.projection == index as usize
            && m.predicate < predicates.len() && (predicate_match(projection, predicates[m.predicate as int]) matches Some(
            b,
        ) && m.bound == b as usize)),
    decreases predicates.len(),
{
    if predicates.len() > 0 {
        let prefix = predicates.drop_last();
        let prev = projection_matches(projection, index, prefix);
        lemma_projection_matches(projection, index, prefix, m);
        let n = predicates.len() - 1;
        if m.predicate < n {
            assert(prefix[m.predicate as int] == predicates[m.predicate as int]);
        }
        match predicate_match(projection, predicates.last()) {
            Some(b) => {
                let x = HrtbMatch { projection: index as usize, predicate: n as usize, bound: b as usize };
                let all = prev.push(x);
                if all.contains(m) {
                    let k = choose|k: int| 0 <= k < all.len() && all[k] == m;
                    if k < prev.len() {
                        assert(prev[k] == m);
                    }
                }
                if prev.contains(m) {
                    let k = choose|k: int| 0 <= k < prev.len() && prev[k] == m;
                    assert(all[k] == m);
                }
                if m == x {
                    assert(all[prev.len() as int] == m);
                }
            },
            None => {},
        }
    }
}

/// The matches of all projections are exactly the pairs of a projection and
/// a predicate that it matches, each with the bound to rewrite.
pub proof fn lemma_hrtb_matches(projections: Seq<Projection>, predicates: Seq<WherePredicate>, m: HrtbMatch)
    requires
        projections.len() <= usize::MAX,
        predicates.len() <= usize::MAX,
    ensures
        hrtb_matches(projections, predicates).contains(m) <==> (m.projection < projections.len() && m.predicate
            < predicates.len() && (predicate_match(projections[m.projection as int], predicates[m.predicate as int])
            matches Some(b) && m.bound == b as usize)),
    decreases projections.len(),
{
    if projections.len() > 0 {
        let prefix = projections.drop_last();
        let n = projections.len() - 1;
        let prev = hrtb_matches(prefix, predicates);
        let last = projection_matches(projections.last(), n, predicates);
        lemma_hrtb_matches(prefix, predicates, m);
        lemma_projection_matches(projections.last(), n, predicates, m);
        if m.projection < n {
            assert(prefix[m.projection as int] == projections[m.projection as int]);
        }
        let all = prev + last;
        if all.contains(m) {
            let k = choose|k: int| 0 <= k < all.len() && all[k] == m;
            if k < prev.len() {
                assert(prev[k] == m);
            } else {
                assert(last[k - prev.len()] == m);
            }
        }
        if prev.contains(m) {
            let k = choose|k: int| 0 <= k < prev.len() && prev[k] == m;
            assert(all[k] == m);
        }
        if last.contains(m) {
            let k = choose|k: int| 0 <= k < last.len() && last[k] == m;
            assert(all[prev.len() + k] == m);
        }
    }
}

} // verus!
