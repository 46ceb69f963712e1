//! `#[repr(..)]` attributes and enum tag types.
use vstd::prelude::*;

use crate::Alignment;

verus! {

/// Representation kind named by a `#[repr(..)]` attribute.
#[derive(Clone, Copy, Debug, PartialEq, Eq, Structural)]
pub enum ReprKind {
    /// `#[repr(transparent)]`.
    Transparent,
    /// `#[repr(C)]`, possibly combined with a primitive tag type.
    C(Option<Tag>),
    /// `#[repr(u8)]` and the other primitive tag types.
    Primitive(Tag),
}

/// Everything the derive reads from an item's `#[repr(..)]` attribute.
#[derive(Clone, Copy, Debug, PartialEq, Eq, Structural)]
pub struct Repr {
    pub kind: Option<ReprKind>,
    pub align: Option<usize>,
}

/// Primitive integer type accepted as an enum tag in `#[repr(..)]`.
#[derive(Clone, Copy, Debug, PartialEq, Eq, Structural)]
pub enum Tag {
    U8,
    I8,
    U16,
    I16,
    U32,
    I32,
    U64,
    I64,
    Usize,
}

impl Tag {
    /// ABI alignment of the tag type.
    pub open spec fn alignment(self) -> Alignment {
        match self {
            Tag::U8 | Tag::I8 => Alignment::One,
            _ => Alignment::GtOne,
        }
    }

    /// ABI alignment of the tag type.
    pub fn alignment_value(self) -> (alignment: Alignment)
        ensures
            alignment == self.alignment(),
    {
        match self {
            Tag::U8 | Tag::I8 => Alignment::One,
            _ => Alignment::GtOne,
        }
    }

    /// Number of distinct values of the tag type, for the tag types whose
    /// width does not depend on the target.
    pub open spec fn capacity(self) -> Option<nat> {
        match self {
            Tag::U8 | Tag::I8 => Some(0x100),
            Tag::U16 | Tag::I16 => Some(0x1_0000),
            Tag::U32 | Tag::I32 => Some(0x1_0000_0000),
            _ => None,
        }
    }
}

/// Tag type the compiler picks for a Rust-representation enum with
/// `num_variants` variants: the smallest unsigned type that can number them.
pub open spec fn spec_infer_repr(num_variants: nat) -> Tag {
    if num_variants <= 0x100 {
        Tag::U8
    } else if num_variants <= 0x1_0000 {
        Tag::U16
    } else if num_variants <= 0x1_0000_0000 {
        Tag::U32
    } else {
        Tag::U64
    }
}

/// Chooses the tag type for a Rust-representation enum.
pub fn infer_repr(num_variants: usize) -> (tag: Tag)
    ensures
        tag == spec_infer_repr(num_variants as nat),
{
    let n = num_variants as u64;
    if n <= 0x100 {
        Tag::U8
    } else if n <= 0x1_0000 {
        Tag::U16
    } else if n <= 0x1_0000_0000 {
        Tag::U32
    } else {
        Tag::U64
    }
}

/// Whether `num_variants` variants use up every value of the tag type `repr`,
/// so that no tag value is invalid. Never the case for 64-bit and
/// target-dependent tags.
pub fn is_exhaustive_enum(num_variants: usize, repr: Tag) -> (exhaustive: bool)
    ensures
        exhaustive == (repr.capacity() == Some(num_variants as nat)),
{
    let n = num_variants as u64;
    match repr {
        Tag::U8 | Tag::I8 => n == 0x100,
        Tag::U16 | Tag::I16 => n == 0x1_0000,
        Tag::U32 | Tag::I32 => n == 0x1_0000_0000,
        _ => false,
    }
}

/// Whether an enum with tag type `tag` and `variant_count` variants has tag
/// values that name no variant.
pub fn primitive_tag_has_traps(tag: Tag, variant_count: usize) -> (traps: bool)
    ensures
        traps == (tag.capacity() != Some(variant_count as nat)),
{
    !is_exhaustive_enum(variant_count, tag)
}

/// Whether a Rust-representation enum with `variant_count` variants has tag
/// values that name no variant: always, unless the variants fill the whole
/// value range of the inferred tag type.
pub fn rust_tag_has_traps(variant_count: usize) -> (traps: bool)
    ensures
        traps == !(variant_count == 0x100 || variant_count == 0x1_0000 || variant_count
            == 0x1_0000_0000),
{
    let tag = infer_repr(variant_count);
    primitive_tag_has_traps(tag, variant_count)
}

/// Tag type of a `#[repr(C)]` enum on targets whose C `enum` is `c_enum_bits`
/// wide.
pub fn c_tag_type(c_enum_bits: u32) -> (tag: Tag)
    requires
        c_enum_bits == 8 || c_enum_bits == 16 || c_enum_bits == 32,
    ensures
        c_enum_bits == 8 ==> tag == Tag::U8,
        c_enum_bits == 16 ==> tag == Tag::U16,
        c_enum_bits == 32 ==> tag == Tag::U32,
{
    if c_enum_bits == 8 {
        Tag::U8
    } else if c_enum_bits == 16 {
        Tag::U16
    } else {
        Tag::U32
    }
}

/// One comma-separated element of a `#[repr(..)]` list, as written.
pub enum RawReprToken {
    /// An identifier. `group` is present when a parenthesized group directly
    /// follows it, holding the group's content read as a `usize` literal
    /// (`None` when it is not one); `trailing` is set when further tokens
    /// follow before the next comma.
    Ident { word: String, group: Option<Option<usize>>, trailing: bool },
    /// Anything that does not start with an identifier.
    NotIdent,
}

/// A parsed element of a `#[repr(..)]` list.
#[derive(Clone, Copy, Debug, PartialEq, Eq, Structural)]
pub enum ReprToken {
    Kind(ReprKind),
    Align(usize),
}

/// Why a `#[repr(..)]` attribute is rejected.
#[derive(Clone, Copy, Debug, PartialEq, Eq, Structural)]
pub enum ReprError {
    /// An element does not start with an identifier.
    ExpectedReprKind,
    /// Tokens follow an element where a comma is expected.
    ExpectedComma,
    /// `packed` is not supported.
    PackedUnsupported,
    /// `align` is not followed by a parenthesized alignment.
    ExpectedAlignment,
    /// The alignment in `align(..)` is not an integer literal that fits a `usize`.
    InvalidAlignment,
    /// The identifier names no supported representation.
    UnrecognizedReprKind,
    /// Two representation kinds that cannot be combined.
    DuplicateReprKind,
    /// More than one `#[repr]` attribute.
    MultipleReprAttributes,
}

/// Tag type named by a `#[repr]` word, if any.
pub open spec fn word_tag(word: Seq<char>) -> Option<Tag> {
    if word == "u8"@ {
        Some(Tag::U8)
    } else if word == "i8"@ {
        Some(Tag::I8)
    } else if word == "u16"@ {
        Some(Tag::U16)
    } else if word == "i16"@ {
        Some(Tag::I16)
    } else if word == "u32"@ {
        Some(Tag::U32)
    } else if word == "i32"@ {
        Some(Tag::I32)
    } else if word == "u64"@ {
        Some(Tag::U64)
    } else if word == "i64"@ {
        Some(Tag::I64)
    } else if word == "usize"@ {
        Some(Tag::Usize)
    } else {
        None
    }
}

/// What one element of a `#[repr(..)]` list parses to.
pub open spec fn spec_parse_repr_token(token: RawReprToken) -> Result<ReprToken, ReprError> {
    match token {
        RawReprToken::NotIdent => Err(ReprError::ExpectedReprKind),
        RawReprToken::Ident { word, group, trailing } => {
            let w = word@;
            if w == "packed"@ {
                Err(ReprError::PackedUnsupported)
            } else if w == "align"@ {
                match group {
                    None => Err(ReprError::ExpectedAlignment),
                    Some(None) => Err(ReprError::InvalidAlignment),
                    Some(Some(value)) => if trailing {
                        Err(ReprError::ExpectedComma)
                    } else {
                        Ok(ReprToken::Align(value))
                    },
                }
            } else {
                let kind = if w == "transparent"@ {
                    Some(ReprKind::Transparent)
                } else if w == "C"@ {
                    Some(ReprKind::C(None))
                } else {
                    match word_tag(w) {
                        Some(tag) => Some(ReprKind::Primitive(tag)),
                        None => None,
                    }
                };
                match kind {
                    None => Err(ReprError::UnrecognizedReprKind),
                    Some(k) => if group is Some || trailing {
                        Err(ReprError::ExpectedComma)
                    } else {
                        Ok(ReprToken::Kind(k))
                    },
                }
            }
        },
    }
}

/// Whether `word` spells `expected`.
fn word_is(word: &String, expected: &str) -> (same: bool)
    ensures
        same == (word@ == expected@),
{
    let expected = expected.to_owned();
    *word == expected
}

/// Tag type named by a `#[repr]` word, if any.
fn parse_tag(word: &String) -> (tag: Option<Tag>)
    ensures
        tag == word_tag(word@),
{
    if word_is(word, "u8") {
        Some(Tag::U8)
    } else if word_is(word, "i8") {
        Some(Tag::I8)
    } else if word_is(word, "u16") {
        Some(Tag::U16)
    } else if word_is(word, "i16") {
        Some(Tag::I16)
    } else if word_is(word, "u32") {
        Some(Tag::U32)
    } else if word_is(word, "i32") {
        Some(Tag::I32)
    } else if word_is(word, "u64") {
        Some(Tag::U64)
    } else if word_is(word, "i64") {
        Some(Tag::I64)
    } else if word_is(word, "usize") {
        Some(Tag::Usize)
    } else {
        None
    }
}

/// Parses one element of a `#[repr(..)]` list.
pub fn parse_repr_token(token: &RawReprToken) -> (parsed: Result<ReprToken, ReprError>)
    ensures
        parsed == spec_parse_repr_token(*token),
{
    match token {
        RawReprToken::NotIdent => Err(ReprError::ExpectedReprKind),
        RawReprToken::Ident { word, group, trailing } => {
            if word_is(word, "packed") {
                Err(ReprError::PackedUnsupported)
            } else if word_is(word, "align") {
                match group {
                    None => Err(ReprError::ExpectedAlignment),
                    Some(None) => Err(ReprError::InvalidAlignment),
                    Some(Some(value)) => if *trailing {
                        Err(ReprError::ExpectedComma)
                    } else {
                        Ok(ReprToken::Align(*value))
                    },
                }
            } else {
                let kind = if word_is(word, "transparent") {
                    Some(ReprKind::Transparent)
                } else if word_is(word, "C") {
                    Some(ReprKind::C(None))
                } else {
                    match parse_tag(word) {
                        Some(tag) => Some(ReprKind::Primitive(tag)),
                        None => None,
                    }
                };
                match kind {
                    None => Err(ReprError::UnrecognizedReprKind),
                    Some(k) => if group.is_some() || *trailing {
                        Err(ReprError::ExpectedComma)
                    } else {
                        Ok(ReprToken::Kind(k))
                    },
                }
            }
        },
    }
}

/// Parses every element of a `#[repr(..)]` list, stopping at the first error.
pub open spec fn spec_parse_repr_tokens(tokens: Seq<RawReprToken>) -> Result<Seq<ReprToken>, ReprError>
    decreases tokens.len(),
{
    if tokens.len() == 0 {
        Ok(Seq::empty())
    } else {
        match spec_parse_repr_tokens(tokens.drop_last()) {
            Err(e) => Err(e),
            Ok(parsed) => match spec_parse_repr_token(tokens.last()) {
                Err(e) => Err(e),
                Ok(t) => Ok(parsed.push(t)),
            },
        }
    }
}

/// Folds one parsed element into the representation read so far: `C` and a
/// primitive tag combine in either order, any other second kind is a
/// duplicate, and the last `align` wins.
pub open spec fn spec_apply_repr_token(repr: Repr, token: ReprToken) -> Result<Repr, ReprError> {
    match token {
        ReprToken::Align(value) => Ok(Repr { kind: repr.kind, align: Some(value) }),
        ReprToken::Kind(new_kind) => match (repr.kind, new_kind) {
            (Some(ReprKind::C(None)), ReprKind::Primitive(prim)) => Ok(
                Repr { kind: Some(ReprKind::C(Some(prim))), align: repr.align },
            ),
            (Some(ReprKind::Primitive(prim)), ReprKind::C(None)) => Ok(
                Repr { kind: Some(ReprKind::C(Some(prim))), align: repr.align },
            ),
            (Some(_), _) => Err(ReprError::DuplicateReprKind),
            (None, k) => Ok(Repr { kind: Some(k), align: repr.align }),
        },
    }
}

/// Representation described by a list of parsed elements.
pub open spec fn spec_combine_repr_tokens(tokens: Seq<ReprToken>) -> Result<Repr, ReprError>
    decreases tokens.len(),
{
    if tokens.len() == 0 {
        Ok(Repr { kind: None, align: None })
    } else {
        match spec_combine_repr_tokens(tokens.drop_last()) {
            Err(e) => Err(e),
            Ok(repr) => spec_apply_repr_token(repr, tokens.last()),
        }
    }
}

/// A `#[repr]` attribute: either a parenthesized list, or any other form.
pub enum ReprAttr {
    List(Vec<RawReprToken>),
    Other,
}

/// Representation described by an item's `#[repr]` attributes.
pub open spec fn spec_parse_repr(attrs: Seq<ReprAttr>) -> Result<Repr, ReprError> {
    if attrs.len() > 1 {
        Err(ReprError::MultipleReprAttributes)
    } else if attrs.len() == 0 {
        Ok(Repr { kind: None, align: None })
    } else {
        match attrs[0] {
            ReprAttr::Other => Ok(Repr { kind: None, align: None }),
            ReprAttr::List(tokens) => match spec_parse_repr_tokens(tokens@) {
                Err(e) => Err(e),
                Ok(parsed) => spec_combine_repr_tokens(parsed),
            },
        }
    }
}

/// Reads an item's representation from its `#[repr]` attributes.
pub fn parse_repr(attrs: &Vec<ReprAttr>) -> (repr: Result<Repr, ReprError>)
    ensures
        repr == spec_parse_repr(attrs@),
{
    if attrs.len() > 1 {
        return Err(ReprError::MultipleReprAttributes);
    }
    if attrs.len() == 0 {
        return Ok(Repr { kind: None, align: None });
    }
    let raw = match &attrs[0] {
        ReprAttr::Other => {
            return Ok(Repr { kind: None, align: None });
        },
        ReprAttr::List(tokens) => tokens,
    };
    assert(attrs@[0] == ReprAttr::List(*raw));
    let mut parsed: Vec<ReprToken> = Vec::new();
    let mut i: usize = 0;
    while i < raw.len()
        invariant
            attrs@.len() == 1,
            attrs@[0] == ReprAttr::List(*raw),
            i <= raw@.len(),
            spec_parse_repr_tokens(raw@.take(i as int)) == Ok::<Seq<ReprToken>, ReprError>(parsed@),
        decreases raw@.len() - i,
    {
        let token = parse_repr_token(&raw[i]);
        assert(raw@.take(i + 1).drop_last() =~= raw@.take(i as int));
        assert(raw@.take(i + 1).last() == raw@[i as int]);
        match token {
            Err(e) => {
                proof {
                    lemma_parse_tokens_error_persists(raw@, (i + 1) as int, e);
                }
                return Err(e);
            },
            Ok(t) => {
                parsed.push(t);
            },
        }
        i = i + 1;
    }
    assert(raw@.take(raw@.len() as int) =~= raw@);
    let mut kind: Option<ReprKind> = None;
    let mut align: Option<usize> = None;
    let mut j: usize = 0;
    while j < parsed.len()
        invariant
            attrs@.len() == 1,
            attrs@[0] == ReprAttr::List(*raw),
            spec_parse_repr_tokens(raw@) == Ok::<Seq<ReprToken>, ReprError>(parsed@),
            j <= parsed@.len(),
            spec_combine_repr_tokens(parsed@.take(j as int)) == Ok::<Repr, ReprError>(Repr { kind, align }),
        decreases parsed@.len() - j,
    {
        assert(parsed@.take(j + 1).drop_last() =~= parsed@.take(j as int));
        assert(parsed@.take(j + 1).last() == parsed@[j as int]);
        match parsed[j] {
            ReprToken::Align(value) => {
                align = Some(value);
            },
            ReprToken::Kind(new_kind) => {
                match (kind, new_kind) {
                    (Some(ReprKind::C(None)), ReprKind::Primitive(prim)) => {
                        kind = Some(ReprKind::C(Some(prim)));
                    },
                    (Some(ReprKind::Primitive(prim)), ReprKind::C(None)) => {
                        kind = Some(ReprKind::C(Some(prim)));
                    },
                    (Some(_), _) => {
                        proof {
                            lemma_combine_error_persists(parsed@, (j + 1) as int, ReprError::DuplicateReprKind);
                        }
                        return Err(ReprError::DuplicateReprKind);
                    },
                    (None, k) => {
                        kind = Some(k);
                    },
                }
            },
        }
        j = j + 1;
    }
    assert(parsed@.take(parsed@.len() as int) =~= parsed@);
    Ok(Repr { kind, align })
}

/// Once a prefix of the list fails to parse, the whole list fails the same way.
proof fn lemma_parse_tokens_error_persists(tokens: Seq<RawReprToken>, k: int, e: ReprError)
    requires
        0 <= k <= tokens.len(),
        spec_parse_repr_tokens(tokens.take(k)) == Err::<Seq<ReprToken>, ReprError>(e),
    ensures
        spec_parse_repr_tokens(tokens) == Err::<Seq<ReprToken>, ReprError>(e),
    decreases tokens.len() - k,
{
    if k < tokens.len() {
        assert(tokens.take(k + 1).drop_last() =~= tokens.take(k));
        lemma_parse_tokens_error_persists(tokens, k + 1, e);
    } else {
        assert(tokens.take(k) =~= tokens);
    }
}

/// Once a prefix of the elements fails to combine, the whole list fails the
/// same way.
proof fn lemma_combine_error_persists(tokens: Seq<ReprToken>, k: int, e: ReprError)
    requires
        0 <= k <= tokens.len(),
        spec_combine_repr_tokens(tokens.take(k)) == Err::<Repr, ReprError>(e),
    ensures
        spec_combine_repr_tokens(tokens) == Err::<Repr, ReprError>(e),
    decreases tokens.len() - k,
{
    if k < tokens.len() {
        assert(tokens.take(k + 1).drop_last() =~= tokens.take(k));
        lemma_combine_error_persists(tokens, k + 1, e);
    } else {
        assert(tokens.take(k) =~= tokens);
    }
}


/// The word that names each tag type in a `#[repr(..)]` list.
pub open spec fn tag_word(tag: Tag) -> Seq<char> {
    match tag {
        Tag::U8 => seq!['u', '8'],
        Tag::I8 => seq!['i', '8'],
        Tag::U16 => seq!['u', '1', '6'],
        Tag::I16 => seq!['i', '1', '6'],
        Tag::U32 => seq!['u', '3', '2'],
        Tag::I32 => seq!['i', '3', '2'],
        Tag::U64 => seq!['u', '6', '4'],
        Tag::I64 => seq!['i', '6', '4'],
        Tag::Usize => seq!['u', 's', 'i', 'z', 'e'],
    }
}

/// A `#[repr(..)]` word names a tag type exactly when it is that type's own
/// name, so each tag type is read back from its name.
pub proof fn lemma_tag_words(word: Seq<char>, tag: Tag)
    ensures
        word_tag(word) == Some(tag) <==> word == tag_word(tag),
{
    reveal_strlit("u8");
    reveal_strlit("i8");
    reveal_strlit("u16");
    reveal_strlit("i16");
    reveal_strlit("u32");
    reveal_strlit("i32");
    reveal_strlit("u64");
    reveal_strlit("i64");
    reveal_strlit("usize");
    assert("u8"@ =~= seq!['u', '8']);
    assert("i8"@ =~= seq!['i', '8']);
    assert("u16"@ =~= seq!['u', '1', '6']);
    assert("i16"@ =~= seq!['i', '1', '6']);
    assert("u32"@ =~= seq!['u', '3', '2']);
    assert("i32"@ =~= seq!['i', '3', '2']);
    assert("u64"@ =~= seq!['u', '6', '4']);
    assert("i64"@ =~= seq!['i', '6', '4']);
    assert("usize"@ =~= seq!['u', 's', 'i', 'z', 'e']);
}


/// How the elements of a `#[repr(..)]` list combine: a single kind is read as
/// itself; `C` and a primitive tag give a `C` enum with that tag in either
/// order; any other two kinds are a duplicate; an `align` keeps the kind read
/// so far and replaces any earlier alignment; and once the list fails, it
/// fails the same way whatever follows.
pub proof fn lemma_repr_combination(
    tokens: Seq<ReprToken>,
    tag: Tag,
    first: ReprKind,
    second: ReprKind,
    value: usize,
    next: ReprToken,
)
    ensures
        spec_combine_repr_tokens(seq![ReprToken::Kind(first)]) == Ok::<Repr, ReprError>(
            Repr { kind: Some(first), align: None },
        ),
        spec_combine_repr_tokens(seq![ReprToken::Kind(ReprKind::C(None)), ReprToken::Kind(ReprKind::Primitive(tag))])
            == Ok::<Repr, ReprError>(Repr { kind: Some(ReprKind::C(Some(tag))), align: None }),
        spec_combine_repr_tokens(seq![ReprToken::Kind(ReprKind::Primitive(tag)), ReprToken::Kind(ReprKind::C(None))])
            == Ok::<Repr, ReprError>(Repr { kind: Some(ReprKind::C(Some(tag))), align: None }),
        !((first == ReprKind::C(None) && second is Primitive) || (first is Primitive && second == ReprKind::C(None)))
            ==> spec_combine_repr_tokens(seq![ReprToken::Kind(first), ReprToken::Kind(second)]) == Err::<
            Repr,
            ReprError,
        >(ReprError::DuplicateReprKind),
        spec_combine_repr_tokens(tokens) matches Ok(r) ==> spec_combine_repr_tokens(tokens.push(ReprToken::Align(value)))
            == Ok::<Repr, ReprError>(Repr { kind: r.kind, align: Some(value) }),
        spec_combine_repr_tokens(tokens) is Err ==> spec_combine_repr_tokens(tokens.push(next))
            == spec_combine_repr_tokens(tokens),
{
    reveal_with_fuel(spec_combine_repr_tokens, 3);
    let one = seq![ReprToken::Kind(first)];
    assert(one.drop_last() =~= Seq::<ReprToken>::empty());
    let a = seq![ReprToken::Kind(ReprKind::C(None)), ReprToken::Kind(ReprKind::Primitive(tag))];
    assert(a.drop_last() =~= seq![ReprToken::Kind(ReprKind::C(None))]);
    assert(seq![ReprToken::Kind(ReprKind::C(None))].drop_last() =~= Seq::<ReprToken>::empty());
    let b = seq![ReprToken::Kind(ReprKind::Primitive(tag)), ReprToken::Kind(ReprKind::C(None))];
    assert(b.drop_last() =~= seq![ReprToken::Kind(ReprKind::Primitive(tag))]);
    assert(seq![ReprToken::Kind(ReprKind::Primitive(tag))].drop_last() =~= Seq::<ReprToken>::empty());
    let c = seq![ReprToken::Kind(first), ReprToken::Kind(second)];
    assert(c.drop_last() =~= one);
    assert(tokens.push(ReprToken::Align(value)).drop_last() =~= tokens);
    assert(tokens.push(next).drop_last() =~= tokens);
}

/// More than one `#[repr]` attribute is refused; no attribute, or one that is
/// not a list, leaves the default representation; a single list is read as
/// its elements combine.
pub proof fn lemma_repr_attributes(attrs: Seq<ReprAttr>)
    ensures
        attrs.len() > 1 ==> spec_parse_repr(attrs) == Err::<Repr, ReprError>(ReprError::MultipleReprAttributes),
        (attrs.len() == 0 || (attrs.len() == 1 && attrs[0] is Other)) ==> spec_parse_repr(attrs) == Ok::<
            Repr,
            ReprError,
        >(Repr { kind: None, align: None }),
{
}


/// One element of a `#[repr(..)]` list: a tag type's name reads as that tag
/// when it stands alone and asks for a comma when more follows; an element
/// that does not start with a word is refused; a kind is read only from a
/// bare word, and an alignment only from `align` with its parenthesized value
/// and nothing after it.
pub proof fn lemma_repr_token(token: RawReprToken, tag: Tag)
    ensures
        match token {
            RawReprToken::Ident { word, group, trailing } => word@ == tag_word(tag) ==> spec_parse_repr_token(token)
                == if group is Some || trailing {
                Err::<ReprToken, ReprError>(ReprError::ExpectedComma)
            } else {
                Ok::<ReprToken, ReprError>(ReprToken::Kind(ReprKind::Primitive(tag)))
            },
            RawReprToken::NotIdent => spec_parse_repr_token(token) == Err::<ReprToken, ReprError>(
                ReprError::ExpectedReprKind,
            ),
        },
        spec_parse_repr_token(token) matches Ok(ReprToken::Kind(_)) ==> (token matches RawReprToken::Ident {
            group,
            trailing,
            ..
        } && group is None && !trailing),
        spec_parse_repr_token(token) matches Ok(ReprToken::Align(value)) ==> (token matches RawReprToken::Ident {
            word,
            group,
            trailing,
        } && word@ == seq!['a', 'l', 'i', 'g', 'n'] && group == Some(Some(value)) && !trailing),
{
    reveal_strlit("packed");
    reveal_strlit("align");
    reveal_strlit("transparent");
    reveal_strlit("C");
    lemma_tag_words(tag_word(tag), tag);
    assert("align"@ =~= seq!['a', 'l', 'i', 'g', 'n']);
    if let RawReprToken::Ident { word, group, trailing } = token {
        if word@ == tag_word(tag) {
            assert(word@ != "packed"@ && word@ != "align"@ && word@ != "transparent"@ && word@ != "C"@) by {
                assert("packed"@.len() == 6);
                assert("align"@.len() == 5);
                assert("transparent"@.len() == 11);
                assert("C"@.len() == 1);
                if tag == Tag::Usize {
                    assert("align"@[0] != tag_word(tag)[0]);
                }
            }
        }
    }
}

} // verus!
