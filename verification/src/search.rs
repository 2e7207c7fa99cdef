//! First matches, counts, and membership in plain lists.
use vstd::prelude::*;

verus! {

/// Smallest index at or after `start` whose element satisfies a predicate.
pub open spec fn first_from<T>(list: Seq<T>, test: spec_fn(T) -> bool, start: int) -> Option<int>
    decreases list.len() - start,
{
    if start < 0 || start >= list.len() {
        None
    } else if test(list[start]) {
        Some(start)
    } else {
        first_from(list, test, start + 1)
    }
}

/// Smallest index whose element satisfies a predicate.
pub open spec fn first_index<T>(list: Seq<T>, test: spec_fn(T) -> bool) -> Option<int> {
    first_from(list, test, 0)
}

/// A first match is pinned by a matching element with no match before it.
pub proof fn lemma_first_from_found<T>(
    list: Seq<T>,
    test: spec_fn(T) -> bool,
    start: int,
    found: int,
)
    requires
        0 <= start <= found < list.len(),
        test(list[found]),
        forall|j: int| start <= j < found ==> !test(#[trigger] list[j]),
    ensures
        first_from(list, test, start) == Some(found),
    decreases found - start,
{
    if start < found {
        lemma_first_from_found(list, test, start + 1, found);
    }
}

/// No match is found when no element satisfies the predicate.
pub proof fn lemma_first_from_none<T>(list: Seq<T>, test: spec_fn(T) -> bool, start: int)
    requires
        0 <= start,
        forall|j: int| start <= j < list.len() ==> !test(#[trigger] list[j]),
    ensures
        first_from(list, test, start) is None,
    decreases list.len() - start,
{
    if start < list.len() {
        lemma_first_from_none(list, test, start + 1);
    }
}

/// What a first match says about the list.
pub proof fn lemma_first_from_means<T>(list: Seq<T>, test: spec_fn(T) -> bool, start: int)
    requires
        0 <= start,
    ensures
        match first_from(list, test, start) {
            Some(found) => {
                &&& start <= found < list.len()
                &&& test(list[found])
                &&& forall|j: int| start <= j < found ==> !test(#[trigger] list[j])
            },
            None => forall|j: int| start <= j < list.len() ==> !test(#[trigger] list[j]),
        },
    decreases list.len() - start,
{
    if start < list.len() && !test(list[start]) {
        lemma_first_from_means(list, test, start + 1);
    }
}

/// Largest index whose element satisfies a predicate.
pub open spec fn last_match<T>(list: Seq<T>, test: spec_fn(T) -> bool) -> Option<int>
    decreases list.len(),
{
    if list.len() == 0 {
        None
    } else if test(list.last()) {
        Some(list.len() - 1)
    } else {
        last_match(list.drop_last(), test)
    }
}

/// Whether a mask has a set entry.
pub open spec fn any_set(mask: Seq<bool>) -> bool {
    exists|i: int| 0 <= i < mask.len() && #[trigger] mask[i]
}

/// Whether a mask has a set entry.
pub fn any_true(mask: &[bool]) -> (r: bool)
    ensures
        r == any_set(mask@),
{
    let mut index: usize = 0;
    while index < mask.len()
        invariant
            index <= mask@.len(),
            forall|j: int| 0 <= j < index ==> !(#[trigger] mask@[j]),
        decreases mask@.len() - index,
    {
        if mask[index] {
            return true;
        }
        index += 1;
    }
    false
}

/// Mask entry at an index, false outside the mask.
pub open spec fn entry(mask: Seq<bool>, index: int) -> bool {
    0 <= index < mask.len() && mask[index]
}

/// Mask entry at an index, false outside the mask.
pub fn mask_at(mask: &[bool], index: usize) -> (r: bool)
    ensures
        r == entry(mask@, index as int),
{
    index < mask.len() && mask[index]
}

/// Number of absent entries.
pub open spec fn free_count<T>(slots: Seq<Option<T>>) -> nat
    decreases slots.len(),
{
    if slots.len() == 0 {
        0
    } else {
        free_count(slots.drop_last()) + (if slots.last() is None {
            1nat
        } else {
            0nat
        })
    }
}

pub proof fn lemma_free_count<T>(slots: Seq<Option<T>>)
    ensures
        free_count(slots) <= slots.len(),
        free_count(slots) > 0 <==> exists|i: int|
            0 <= i < slots.len() && (#[trigger] slots[i]) is None,
    decreases slots.len(),
{
    if slots.len() > 0 {
        lemma_free_count(slots.drop_last());
        let last = slots.len() - 1;
        if free_count(slots) > 0 {
            if slots.last() is None {
                assert(slots[last] is None);
            } else {
                let i = choose|i: int|
                    0 <= i < slots.drop_last().len() && (#[trigger] slots.drop_last()[i]) is None;
                assert(slots[i] is None);
            }
        }
        if exists|i: int| 0 <= i < slots.len() && (#[trigger] slots[i]) is None {
            let i = choose|i: int| 0 <= i < slots.len() && (#[trigger] slots[i]) is None;
            if i < last {
                assert(slots.drop_last()[i] is None);
            }
        }
    }
}

/// Counts the absent entries of an item list.
pub fn count_free<T: Copy>(slots: &Vec<Option<T>>) -> (r: usize)
    ensures
        r == free_count(slots@),
        r <= slots@.len(),
{
    let mut count: usize = 0;
    let mut index: usize = 0;
    while index < slots.len()
        invariant
            index <= slots@.len(),
            count == free_count(slots@.subrange(0, index as int)),
            count <= index,
        decreases slots@.len() - index,
    {
        assert(slots@.subrange(0, index + 1).drop_last() =~= slots@.subrange(0, index as int));
        if slots[index].is_none() {
            count += 1;
        }
        index += 1;
    }
    assert(slots@.subrange(0, slots@.len() as int) =~= slots@);
    count
}

/// Number of elements that satisfy a predicate.
pub open spec fn tally<T>(list: Seq<T>, test: spec_fn(T) -> bool) -> nat
    decreases list.len(),
{
    if list.len() == 0 {
        0
    } else {
        tally(list.drop_last(), test) + if test(list.last()) {
            1nat
        } else {
            0nat
        }
    }
}

/// One more element adds itself to the tally when it matches.
pub proof fn lemma_tally_step<T>(list: Seq<T>, test: spec_fn(T) -> bool, index: int)
    requires
        0 <= index < list.len(),
    ensures
        tally(list.take(index + 1), test) == tally(list.take(index), test) + if test(list[index]) {
            1nat
        } else {
            0nat
        },
        tally(list.take(index), test) <= index,
    decreases index,
{
    assert(list.take(index + 1).drop_last() =~= list.take(index));
    assert(list.take(index + 1).last() == list[index]);
    if index > 0 {
        lemma_tally_step(list, test, index - 1);
    }
}

} // verus!
