//! The derive's own `#[rust_spec(..)]` attribute.
use vstd::prelude::*;

verus! {

/// One nested meta item of a `#[rust_spec(..)]` attribute: its path, when
/// the path is a single identifier, and whether more tokens (a value or a
/// parenthesized list) follow the path before the next comma.
pub struct NestedMeta {
    pub ident: Option<String>,
    pub trailing: bool,
}

/// Why a `#[rust_spec(..)]` attribute is rejected.
#[derive(Clone, Copy, Debug, PartialEq, Eq, Structural)]
pub enum NicheAttrError {
    /// A nested item other than `with_custom_niche`.
    UnknownAttribute,
    /// `with_custom_niche` given more than once.
    DuplicateCustomNiche,
    /// `with_custom_niche` followed by a value or a list where a comma is
    /// expected.
    ExpectedComma,
}

/// Whether a nested item is `with_custom_niche`.
pub open spec fn is_custom_niche(meta: NestedMeta) -> bool {
    meta.ident matches Some(ident) && ident@ == "with_custom_niche"@
}

/// The nested items of all attributes, in order.
pub open spec fn all_metas(attrs: Seq<Vec<NestedMeta>>) -> Seq<NestedMeta>
    decreases attrs.len(),
{
    if attrs.len() == 0 {
        Seq::empty()
    } else {
        all_metas(attrs.drop_last()) + attrs.last()@
    }
}

/// Reads the nested items in order: every item must be a bare
/// `with_custom_niche`, and it may appear only once.
pub open spec fn spec_custom_niche(metas: Seq<NestedMeta>) -> Result<bool, NicheAttrError>
    decreases metas.len(),
{
    if metas.len() == 0 {
        Ok(false)
    } else {
        match spec_custom_niche(metas.drop_last()) {
            Err(e) => Err(e),
            Ok(seen) => if !is_custom_niche(metas.last()) {
                Err(NicheAttrError::UnknownAttribute)
            } else if seen {
                Err(NicheAttrError::DuplicateCustomNiche)
            } else if metas.last().trailing {
                Err(NicheAttrError::ExpectedComma)
            } else {
                Ok(true)
            },
        }
    }
}

/// Once a prefix of the items is rejected, the whole list is rejected the same
/// way.
proof fn lemma_custom_niche_error_persists(metas: Seq<NestedMeta>, extra: Seq<NestedMeta>, e: NicheAttrError)
    requires
        spec_custom_niche(metas) == Err::<bool, NicheAttrError>(e),
    ensures
        spec_custom_niche(metas + extra) == Err::<bool, NicheAttrError>(e),
    decreases extra.len(),
{
    if extra.len() == 0 {
        assert(metas + extra =~= metas);
    } else {
        lemma_custom_niche_error_persists(metas, extra.drop_last(), e);
        assert((metas + extra).drop_last() =~= metas + extra.drop_last());
    }
}

/// Whether the item asks for a custom niche through
/// `#[rust_spec(with_custom_niche)]`.
pub fn parse_custom_niche_attr(attrs: &Vec<Vec<NestedMeta>>) -> (has_niche: Result<bool, NicheAttrError>)
    ensures
        has_niche == spec_custom_niche(all_metas(attrs@)),
{
    let mut has_niche = false;
    let mut i: usize = 0;
    while i < attrs.len()
        invariant
            i <= attrs@.len(),
            spec_custom_niche(all_metas(attrs@.take(i as int))) == Ok::<bool, NicheAttrError>(has_niche),
        decreases attrs@.len() - i,
    {
        let metas = &attrs[i];
        let ghost before = all_metas(attrs@.take(i as int));
        assert(attrs@.take(i + 1).drop_last() =~= attrs@.take(i as int));
        assert(all_metas(attrs@.take(i + 1)) == before + metas@);
        let mut j: usize = 0;
        while j < metas.len()
            invariant
                i < attrs@.len(),
                j <= metas@.len(),
                *metas == attrs@[i as int],
                before == all_metas(attrs@.take(i as int)),
                spec_custom_niche(before + metas@.take(j as int)) == Ok::<bool, NicheAttrError>(has_niche),
            decreases metas@.len() - j,
        {
            let meta = &metas[j];
            assert((before + metas@.take(j + 1)).drop_last() =~= before + metas@.take(j as int));
            assert((before + metas@.take(j + 1)).last() == metas@[j as int]);
            let known = match &meta.ident {
                Some(ident) => {
                    let expected = "with_custom_niche".to_owned();
                    *ident == expected
                },
                None => false,
            };
            if !known {
                proof {
                    lemma_error_reaches_all(attrs@, i as int, j as int, NicheAttrError::UnknownAttribute);
                }
                return Err(NicheAttrError::UnknownAttribute);
            }
            if has_niche {
                proof {
                    lemma_error_reaches_all(attrs@, i as int, j as int, NicheAttrError::DuplicateCustomNiche);
                }
                return Err(NicheAttrError::DuplicateCustomNiche);
            }
            if meta.trailing {
                proof {
                    lemma_error_reaches_all(attrs@, i as int, j as int, NicheAttrError::ExpectedComma);
                }
                return Err(NicheAttrError::ExpectedComma);
            }
            has_niche = true;
            j = j + 1;
        }
        assert(metas@.take(metas@.len() as int) =~= metas@);
        i = i + 1;
    }
    assert(attrs@.take(attrs@.len() as int) =~= attrs@);
    Ok(has_niche)
}

/// An error within the items of attribute `i` (up to its item `j`) is the
/// error of the whole attribute list.
proof fn lemma_error_reaches_all(attrs: Seq<Vec<NestedMeta>>, i: int, j: int, e: NicheAttrError)
    requires
        0 <= i < attrs.len(),
        0 <= j < attrs[i]@.len(),
        spec_custom_niche(all_metas(attrs.take(i)) + attrs[i]@.take(j + 1)) == Err::<bool, NicheAttrError>(e),
    ensures
        spec_custom_niche(all_metas(attrs)) == Err::<bool, NicheAttrError>(e),
{
    let before = all_metas(attrs.take(i));
    let metas = attrs[i]@;
    lemma_all_metas_prefix(attrs, i + 1);
    assert(attrs.take(i + 1).drop_last() =~= attrs.take(i));
    assert(attrs.take(i + 1).last() == attrs[i]);
    assert(all_metas(attrs.take(i + 1)) == before + metas);
    let whole = all_metas(attrs);
    let rest = whole.skip((before + metas).len() as int);
    assert(whole == (before + metas) + rest);
    assert(whole =~= (before + metas.take(j + 1)) + (metas.skip(j + 1) + rest));
    lemma_custom_niche_error_persists(before + metas.take(j + 1), metas.skip(j + 1) + rest, e);
}

/// The items of the first `k` attributes are a prefix of all items.
proof fn lemma_all_metas_prefix(attrs: Seq<Vec<NestedMeta>>, k: int)
    requires
        0 <= k <= attrs.len(),
    ensures
        all_metas(attrs) == all_metas(attrs.take(k)) + all_metas(attrs).skip(all_metas(attrs.take(k)).len() as int),
        all_metas(attrs.take(k)).len() <= all_metas(attrs).len(),
    decreases attrs.len() - k,
{
    if k == attrs.len() {
        assert(attrs.take(k) =~= attrs);
        assert(all_metas(attrs).skip(all_metas(attrs).len() as int) =~= Seq::<NestedMeta>::empty());
        assert(all_metas(attrs) =~= all_metas(attrs) + Seq::<NestedMeta>::empty());
    } else {
        lemma_all_metas_prefix(attrs, k + 1);
        assert(attrs.take(k + 1).drop_last() =~= attrs.take(k));
        let a = all_metas(attrs.take(k));
        let b = attrs[k]@;
        let whole = all_metas(attrs);
        assert(all_metas(attrs.take(k + 1)) == a + b);
        assert(whole == (a + b) + whole.skip((a + b).len() as int));
        assert(whole.skip(a.len() as int) =~= b + whole.skip((a + b).len() as int));
        assert(whole =~= a + whole.skip(a.len() as int));
    }
}


/// The nested items ask for a custom niche exactly when there is one item, a
/// bare `with_custom_niche`, and for none exactly when there are no items; a
/// first item of any other name is unknown, and a second
/// `with_custom_niche` is a duplicate unless the first one is already
/// followed by more tokens.
pub proof fn lemma_custom_niche_outcomes(metas: Seq<NestedMeta>)
    ensures
        spec_custom_niche(metas) == Ok::<bool, NicheAttrError>(false) <==> metas.len() == 0,
        spec_custom_niche(metas) == Ok::<bool, NicheAttrError>(true) <==> (metas.len() == 1 && (metas[0].ident matches Some(
            id,
        ) && id@ == "with_custom_niche"@) && !metas[0].trailing),
        metas.len() > 0 && !(metas[0].ident matches Some(id) && id@ == "with_custom_niche"@) ==> spec_custom_niche(metas)
            == Err::<bool, NicheAttrError>(NicheAttrError::UnknownAttribute),
        metas.len() > 1 && (metas[0].ident matches Some(id) && id@ == "with_custom_niche"@) && (metas[1].ident matches Some(
            id,
        ) && id@ == "with_custom_niche"@) ==> spec_custom_niche(metas) == Err::<bool, NicheAttrError>(
            if metas[0].trailing {
                NicheAttrError::ExpectedComma
            } else {
                NicheAttrError::DuplicateCustomNiche
            },
        ),
{
    reveal_with_fuel(spec_custom_niche, 3);
    if metas.len() > 0 {
        let p1 = metas.take(1);
        assert(p1.drop_last() =~= Seq::<NestedMeta>::empty());
        assert(p1.last() == metas[0]);
        if metas.len() == 1 {
            assert(p1 =~= metas);
        } else {
            let p2 = metas.take(2);
            assert(p2.drop_last() =~= p1);
            assert(p2.last() == metas[1]);
            assert(spec_custom_niche(p2) is Err);
            let e = spec_custom_niche(p2)->Err_0;
            assert(metas =~= p2 + metas.skip(2));
            lemma_custom_niche_error_persists(p2, metas.skip(2), e);
            if spec_custom_niche(p1) is Err {
                let e1 = spec_custom_niche(p1)->Err_0;
                assert(metas =~= p1 + metas.skip(1));
                lemma_custom_niche_error_persists(p1, metas.skip(1), e1);
            }
        }
    }
}

} // verus!
