//! Size-shape classification: statically sized, metadata-sized, or
//! extern-type-like.
use core::ops::Add;
use vstd::prelude::*;

verus! {

/// Type-level zero.
pub enum Zero {
    Zero,
}

/// Type-level "greater than `K`".
pub struct Gt<K>(pub K);

/// Type-level one.
pub type One = Gt<Zero>;

/// Size parameter of a zero-sized type.
pub type Zst = Zero;

/// Size parameter of a non-zero-sized type.
pub type NonZst = Gt<Zero>;

/// Closed family of static-size classifications.
pub trait SizedKind {
    /// Whether this marker stands for a zero or a non-zero size.
    spec fn sizedness(&self) -> Sizedness;
}

/// Closed family of pointer-metadata classifications.
pub trait MetadataKind {
    /// The metadata shape that this marker stands for.
    spec fn metadata(&self) -> Metadata;
}

/// Marker for types with a constant size known at compile time.
///
/// See [`core::marker::Sized`].
pub struct Sized<K: SizedKind>(pub K);

/// Marker for types with a size that can be determined from pointer metadata.
///
/// Type parameter can be set to either [`SliceLike`] or [`DynTraitLike`] only.
pub struct MetaSized<K: MetadataKind>(pub K);

/// Marker for slices or DSTs whose last field is a slice.
pub enum SliceLike {
    SliceLike,
}

/// Marker for trait objects or DSTs whose last field is a trait object.
pub enum DynTraitLike {
    DynTraitLike,
}

/// Marker for extern types and DSTs whose last field is an extern type.
///
/// Pointers to extern types are thin.
pub enum ExternTypeLike {
    ExternTypeLike,
}

impl SizedKind for Zero {
    open spec fn sizedness(&self) -> Sizedness {
        Sizedness::Zero
    }
}

impl SizedKind for Gt<Zero> {
    open spec fn sizedness(&self) -> Sizedness {
        Sizedness::NonZero
    }
}

impl MetadataKind for SliceLike {
    open spec fn metadata(&self) -> Metadata {
        Metadata::SliceLike
    }
}

impl MetadataKind for DynTraitLike {
    open spec fn metadata(&self) -> Metadata {
        Metadata::DynTraitLike
    }
}

/// Whether a statically sized type is zero-sized.
#[derive(Clone, Copy, Debug, PartialEq, Eq, Structural)]
pub enum Sizedness {
    /// Zero-sized.
    Zero,
    /// Non-zero-sized.
    NonZero,
}

/// Shape of the pointer metadata of a dynamically sized type.
#[derive(Clone, Copy, Debug, PartialEq, Eq, Structural)]
pub enum Metadata {
    /// Slice length metadata.
    SliceLike,
    /// Vtable metadata.
    DynTraitLike,
}

/// Value-level size classification.
#[derive(Clone, Copy, Debug, PartialEq, Eq, Structural)]
pub enum Size {
    /// Statically sized.
    Sized(Sizedness),
    /// Dynamically sized, with size known from pointer metadata.
    MetaSized(Metadata),
    /// Dynamically sized, with thin pointers.
    ExternTypeLike,
}

impl Size {
    /// Whether pointers to such a type are thin.
    pub open spec fn is_thin(self) -> bool {
        !(self is MetaSized)
    }

    /// Whether the size is known statically.
    pub open spec fn is_sized(self) -> bool {
        self is Sized
    }

    /// Size of a composite of two parts. Sized parts are non-zero-sized when
    /// either part is; a dynamically sized part makes the composite take its
    /// shape; two dynamically sized parts cannot be combined.
    pub open spec fn combine(self, rhs: Size) -> Option<Size> {
        match (self, rhs) {
            (Size::Sized(a), Size::Sized(b)) => Some(
                Size::Sized(
                    if a == Sizedness::NonZero || b == Sizedness::NonZero {
                        Sizedness::NonZero
                    } else {
                        Sizedness::Zero
                    },
                ),
            ),
            (Size::Sized(_), _) => Some(rhs),
            (_, Size::Sized(_)) => Some(self),
            _ => None,
        }
    }

    /// Combines the sizes of two parts of a composite type, or `None` when
    /// both parts are dynamically sized.
    pub fn add(self, rhs: Size) -> (out: Option<Size>)
        ensures
            out == self.combine(rhs),
    {
        match (self, rhs) {
            (Size::Sized(Sizedness::Zero), Size::Sized(b)) => Some(Size::Sized(b)),
            (Size::Sized(Sizedness::NonZero), Size::Sized(_)) => Some(Size::Sized(Sizedness::NonZero)),
            (Size::Sized(_), _) => Some(rhs),
            (_, Size::Sized(_)) => Some(self),
            _ => None,
        }
    }
}

/// Marker types of the size axis.
pub trait SizeKind {
    /// The size classification that this marker stands for.
    spec fn size(&self) -> Size;
}

impl<K: SizedKind> SizeKind for Sized<K> {
    open spec fn size(&self) -> Size {
        Size::Sized(self.0.sizedness())
    }
}

impl<K: MetadataKind> SizeKind for MetaSized<K> {
    open spec fn size(&self) -> Size {
        Size::MetaSized(self.0.metadata())
    }
}

impl SizeKind for ExternTypeLike {
    open spec fn size(&self) -> Size {
        Size::ExternTypeLike
    }
}

/// Size markers of dynamically sized types.
pub(crate) trait Dst: SizeKind {
    /// Every marker of this family stands for a dynamically sized type.
    proof fn lemma_unsized(&self)
        ensures
            !self.size().is_sized(),
    ;
}

impl Dst for ExternTypeLike {
    proof fn lemma_unsized(&self) {
    }
}

impl<K: MetadataKind> Dst for MetaSized<K> {
    proof fn lemma_unsized(&self) {
    }
}

impl<K: SizedKind> Add<Sized<K>> for Sized<Zero> {
    type Output = Sized<K>;

    fn add(self, rhs: Sized<K>) -> (out: Self::Output)
        ensures
            self.size().combine(rhs.size()) == Some(out.size()),
    {
        rhs
    }
}

impl<K: SizedKind> vstd::std_specs::ops::AddSpecImpl<Sized<K>> for Sized<Zero> {
    open spec fn obeys_add_spec() -> bool {
        true
    }

    open spec fn add_req(self, rhs: Sized<K>) -> bool {
        true
    }

    open spec fn add_spec(self, rhs: Sized<K>) -> Sized<K> {
        rhs
    }
}

impl<K: SizedKind> Add<Sized<K>> for Sized<Gt<Zero>> {
    type Output = Self;

    fn add(self, rhs: Sized<K>) -> (out: Self::Output)
        ensures
            self.size().combine(rhs.size()) == Some(out.size()),
    {
        self
    }
}

impl<K: SizedKind> vstd::std_specs::ops::AddSpecImpl<Sized<K>> for Sized<Gt<Zero>> {
    open spec fn obeys_add_spec() -> bool {
        true
    }

    open spec fn add_req(self, rhs: Sized<K>) -> bool {
        true
    }

    open spec fn add_spec(self, rhs: Sized<K>) -> Self {
        self
    }
}

impl<K: Dst, U: SizedKind> Add<K> for Sized<U> {
    type Output = K;

    fn add(self, rhs: K) -> (out: Self::Output)
        ensures
            self.size().combine(rhs.size()) == Some(out.size()),
    {
        proof {
            rhs.lemma_unsized();
        }
        rhs
    }
}

impl<K: Dst, U: SizedKind> vstd::std_specs::ops::AddSpecImpl<K> for Sized<U> {
    open spec fn obeys_add_spec() -> bool {
        true
    }

    open spec fn add_req(self, rhs: K) -> bool {
        true
    }

    open spec fn add_spec(self, rhs: K) -> K {
        rhs
    }
}

impl<K: MetadataKind, U: SizedKind> Add<Sized<U>> for MetaSized<K> {
    type Output = Self;

    fn add(self, rhs: Sized<U>) -> (out: Self::Output)
        ensures
            self.size().combine(rhs.size()) == Some(out.size()),
    {
        self
    }
}

impl<K: MetadataKind, U: SizedKind> vstd::std_specs::ops::AddSpecImpl<Sized<U>> for MetaSized<K> {
    open spec fn obeys_add_spec() -> bool {
        true
    }

    open spec fn add_req(self, rhs: Sized<U>) -> bool {
        true
    }

    open spec fn add_spec(self, rhs: Sized<U>) -> Self {
        self
    }
}

impl<U: SizedKind> Add<Sized<U>> for ExternTypeLike {
    type Output = Self;

    fn add(self, rhs: Sized<U>) -> (out: Self::Output)
        ensures
            self.size().combine(rhs.size()) == Some(out.size()),
    {
        self
    }
}

impl<U: SizedKind> vstd::std_specs::ops::AddSpecImpl<Sized<U>> for ExternTypeLike {
    open spec fn obeys_add_spec() -> bool {
        true
    }

    open spec fn add_req(self, rhs: Sized<U>) -> bool {
        true
    }

    open spec fn add_spec(self, rhs: Sized<U>) -> Self {
        self
    }
}

/// Combining sizes is commutative and associative wherever it is defined,
/// `Sized<Zero>` is its neutral element, a non-zero-sized part makes a sized
/// composite non-zero-sized, a single dynamically sized part gives the
/// composite its shape, and it is undefined exactly when both parts are
/// dynamically sized.
pub proof fn lemma_size_laws(a: Size, b: Size, c: Size)
    ensures
        a.combine(b) == b.combine(a),
        (match a.combine(b) {
            Some(ab) => ab.combine(c),
            None => None,
        }) == (match b.combine(c) {
            Some(bc) => a.combine(bc),
            None => None,
        }),
        Size::Sized(Sizedness::Zero).combine(a) == Some(a),
        a.combine(b) is None <==> (!a.is_sized() && !b.is_sized()),
        Size::Sized(Sizedness::NonZero).combine(a) == if a is Sized {
            Some(Size::Sized(Sizedness::NonZero))
        } else {
            Some(a)
        },
        !(a is Sized) && b is Sized ==> a.combine(b) == Some(a),
{
}

} // verus!
