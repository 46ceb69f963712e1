//! Classification of tuples.
use vstd::prelude::*;

use crate::layout::Trap;
use crate::mutability::Mutability;
use crate::niche::Niche;
use crate::size::{Size, Sizedness};
use crate::{
    all_indirectly_robust, all_interior, all_robust, all_sized, any_non_zero_sized, any_over_aligned,
    lemma_push_predicates, none_with_niche, Alignment, RustSpec, Stability,
};

verus! {

/// Largest number of elements of a classified tuple.
pub const MAX_TUPLE_LEN: usize = 12;

/// Classification of a tuple of one to [`MAX_TUPLE_LEN`] sized elements: an
/// unstable aggregate whose every other axis combines the elements' with `+`
/// (and alignment with `Max`).
pub open spec fn spec_tuple(elements: Seq<RustSpec>) -> Option<RustSpec> {
    if elements.len() == 0 || elements.len() > MAX_TUPLE_LEN || !all_sized(elements) {
        None
    } else {
        Some(
            RustSpec {
                layout: Stability::Unstable,
                trap: if all_robust(elements) {
                    Trap::Robust
                } else {
                    Trap::NonRobust
                },
                size: Size::Sized(
                    if any_non_zero_sized(elements) {
                        Sizedness::NonZero
                    } else {
                        Sizedness::Zero
                    },
                ),
                alignment: if any_over_aligned(elements) {
                    Alignment::GtOne
                } else {
                    Alignment::One
                },
                niche: if elements.len() == 1 {
                    elements[0].niche
                } else if none_with_niche(elements) {
                    Niche::WithoutNiche
                } else {
                    Niche::WithNiche(Stability::Unstable)
                },
                mutability: if all_interior(elements) {
                    Mutability::Interior
                } else {
                    Mutability::Exclusive
                },
                indirect_trap: if all_indirectly_robust(elements) {
                    Trap::Robust
                } else {
                    Trap::NonRobust
                },
            },
        )
    }
}

/// Classifies a tuple from the classifications of its elements.
pub fn tuple(elements: &Vec<RustSpec>) -> (spec: Option<RustSpec>)
    ensures
        spec == spec_tuple(elements@),
{
    let n = elements.len();
    if n == 0 || n > MAX_TUPLE_LEN {
        return None;
    }
    let first = elements[0];
    let mut trap = Trap::Robust;
    let mut size = Sizedness::Zero;
    let mut alignment = Alignment::One;
    let mut niche = Niche::WithoutNiche;
    let mut mutability = Mutability::Interior;
    let mut indirect_trap = Trap::Robust;
    let mut i: usize = 0;
    assert(elements@.take(0) =~= Seq::<RustSpec>::empty());
    while i < n
        invariant
            n == elements@.len(),
            0 < n <= MAX_TUPLE_LEN,
            i <= n,
            all_sized(elements@.take(i as int)),
            trap == if all_robust(elements@.take(i as int)) { Trap::Robust } else { Trap::NonRobust },
            size == if any_non_zero_sized(elements@.take(i as int)) { Sizedness::NonZero } else { Sizedness::Zero },
            alignment == if any_over_aligned(elements@.take(i as int)) { Alignment::GtOne } else { Alignment::One },
            niche == if none_with_niche(elements@.take(i as int)) {
                Niche::WithoutNiche
            } else {
                Niche::WithNiche(Stability::Unstable)
            },
            mutability == if all_interior(elements@.take(i as int)) {
                Mutability::Interior
            } else {
                Mutability::Exclusive
            },
            indirect_trap == if all_indirectly_robust(elements@.take(i as int)) {
                Trap::Robust
            } else {
                Trap::NonRobust
            },
        decreases n - i,
    {
        let element = elements[i];
        let ghost prev = elements@.take(i as int);
        match element.size {
            Size::Sized(s) => {
                if s == Sizedness::NonZero {
                    size = Sizedness::NonZero;
                }
            },
            _ => {
                proof {
                    lemma_push_predicates(prev, element);
                    assert(elements@.take(i + 1) =~= prev.push(element));
                    assert(!all_sized(elements@.take(i + 1)));
                    assert(elements@ =~= elements@.take(i + 1) + elements@.skip(i + 1));
                    assert(elements@[i as int] == element);
                }
                return None;
            },
        }
        trap = trap.add(element.trap);
        alignment = alignment.max(element.alignment);
        niche = niche.add(element.niche);
        mutability = mutability.add(element.mutability);
        indirect_trap = indirect_trap.add(element.indirect_trap);
        proof {
            lemma_push_predicates(prev, element);
            assert(elements@.take(i + 1) =~= prev.push(element));
        }
        i = i + 1;
    }
    assert(elements@.take(n as int) =~= elements@);
    Some(RustSpec {
        layout: Stability::Unstable,
        trap,
        size: Size::Sized(size),
        alignment,
        niche: if n == 1 {
            first.niche
        } else {
            niche
        },
        mutability,
        indirect_trap,
    })
}

} // verus!
