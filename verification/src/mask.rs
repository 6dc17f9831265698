//! Masks: one flag for each entity that a system looked at, in the order of the query.

use vstd::prelude::*;

verus! {

/// Whether `index` is the first place at which `mask` is set.
pub open spec fn is_first_set(mask: Seq<bool>, index: int) -> bool {
    &&& 0 <= index < mask.len()
    &&& mask[index]
    &&& forall|earlier: int| 0 <= earlier < index ==> !mask[earlier]
}

/// Whether `mask` is set anywhere.
pub open spec fn any_set(mask: Seq<bool>) -> bool {
    exists|index: int| 0 <= index < mask.len() && mask[index]
}

/// The first place at which `mask` is set, if it is set anywhere.
pub open spec fn first_set(mask: Seq<bool>) -> Option<int> {
    if exists|index: int| is_first_set(mask, index) {
        Some(choose|index: int| is_first_set(mask, index))
    } else {
        None
    }
}

/// A mask has one first set place at most, and `first_set` names it.
pub proof fn lemma_first_set_is(mask: Seq<bool>, index: int)
    requires
        is_first_set(mask, index),
    ensures
        first_set(mask) == Some(index),
{
    let chosen = choose|index: int| is_first_set(mask, index);
    assert(is_first_set(mask, chosen));
    if chosen < index {
        assert(!mask[chosen]);
    } else if index < chosen {
        assert(!mask[index]);
    }
}

/// A mask that is set nowhere has no first set place.
pub proof fn lemma_first_set_none(mask: Seq<bool>)
    requires
        forall|index: int| 0 <= index < mask.len() ==> !mask[index],
    ensures
        first_set(mask) is None,
        !any_set(mask),
{
}

/// `first_set` finds a place exactly when the mask is set somewhere.
pub proof fn lemma_first_set_some(mask: Seq<bool>)
    ensures
        first_set(mask) is Some <==> any_set(mask),
        first_set(mask) matches Some(index) ==> is_first_set(mask, index),
    decreases mask.len(),
{
    if any_set(mask) {
        let witness = choose|index: int| 0 <= index < mask.len() && mask[index];
        lemma_least_set(mask, witness);
    } else if first_set(mask) is Some {
        let chosen = choose|index: int| is_first_set(mask, index);
        assert(0 <= chosen < mask.len() && mask[chosen]);
    }
}

/// Below every set place lies a first set place.
proof fn lemma_least_set(mask: Seq<bool>, index: int)
    requires
        0 <= index < mask.len(),
        mask[index],
    ensures
        exists|first: int| is_first_set(mask, first),
    decreases index,
{
    if exists|earlier: int| 0 <= earlier < index && mask[earlier] {
        let earlier = choose|earlier: int| 0 <= earlier < index && mask[earlier];
        lemma_least_set(mask, earlier);
    } else {
        assert(is_first_set(mask, index));
    }
}

/// Finds the first place at which `mask` is set.
pub fn find_first_set(mask: &Vec<bool>) -> (found: Option<usize>)
    ensures
        found matches Some(index) ==> first_set(mask@) == Some(index as int),
        found is None ==> first_set(mask@) is None,
        found is Some <==> any_set(mask@),
{
    proof {
        lemma_first_set_some(mask@);
    }
    let mut index: usize = 0;
    while index < mask.len()
        invariant
            index <= mask.len(),
            forall|earlier: int| 0 <= earlier < index ==> !mask@[earlier],
        decreases mask.len() - index,
    {
        if mask[index] {
            proof {
                lemma_first_set_is(mask@, index as int);
            }
            return Some(index);
        }
        index += 1;
    }
    proof {
        lemma_first_set_none(mask@);
    }
    None
}

/// Of the items from place `from` on, those whose flag is not set, in order.
pub open spec fn kept_from<T>(items: Seq<T>, mask: Seq<bool>, from: int) -> Seq<T>
    decreases items.len() - from,
{
    if from < 0 || from >= items.len() {
        Seq::empty()
    } else if mask[from] {
        kept_from(items, mask, from + 1)
    } else {
        seq![items[from]] + kept_from(items, mask, from + 1)
    }
}

/// The items that stay when those with a set flag leave.
pub open spec fn kept<T>(items: Seq<T>, mask: Seq<bool>) -> Seq<T> {
    kept_from(items, mask, 0)
}

/// Every item that stays is one whose flag was not set.
pub proof fn lemma_kept_are_unset<T>(items: Seq<T>, mask: Seq<bool>, from: int)
    requires
        items.len() == mask.len(),
        0 <= from,
    ensures
        forall|place: int|
            0 <= place < kept_from(items, mask, from).len() ==> exists|index: int|
                from <= index < items.len() && !mask[index] && items[index] == #[trigger] kept_from(
                    items,
                    mask,
                    from,
                )[place],
    decreases items.len() - from,
{
    if from < items.len() {
        lemma_kept_are_unset(items, mask, from + 1);
        let rest = kept_from(items, mask, from + 1);
        let all = kept_from(items, mask, from);
        assert forall|place: int| 0 <= place < all.len() implies exists|index: int|
            from <= index < items.len() && !mask[index] && items[index] == #[trigger] all[place] by {
            if mask[from] {
                let index = choose|index: int|
                    from + 1 <= index < items.len() && !mask[index] && items[index] == rest[place];
                assert(from <= index < items.len() && !mask[index] && items[index] == all[place]);
            } else if place == 0 {
                assert(from <= from < items.len() && !mask[from] && items[from] == all[place]);
            } else {
                let index = choose|index: int|
                    from + 1 <= index < items.len() && !mask[index] && items[index] == rest[place
                        - 1];
                assert(from <= index < items.len() && !mask[index] && items[index] == all[place]);
            }
        }
    }
}

/// Takes the entities with a set flag out of `entities` and keeps the others in order.
pub fn sweep<T>(entities: &mut Vec<T>, despawned: &Vec<bool>)
    requires
        old(entities).len() == despawned.len(),
    ensures
        final(entities)@ == kept(old(entities)@, despawned@),
{
    let mut index: usize = entities.len();
    while index > 0
        invariant
            index <= old(entities).len(),
            old(entities).len() == despawned.len(),
            entities@ == old(entities)@.take(index as int) + kept_from(
                old(entities)@,
                despawned@,
                index as int,
            ),
        decreases index,
    {
        index -= 1;
        let ghost rest = kept_from(old(entities)@, despawned@, index + 1);
        if despawned[index] {
            entities.remove(index);
            assert(entities@ == old(entities)@.take(index as int) + rest);
        } else {
            assert(old(entities)@.take(index + 1) == old(entities)@.take(index as int)
                + seq![old(entities)@[index as int]]);
            assert(entities@ == old(entities)@.take(index as int) + (seq![
                old(entities)@[index as int],
            ] + rest));
        }
    }
    assert(old(entities)@.take(0) + kept_from(old(entities)@, despawned@, 0) == kept(
        old(entities)@,
        despawned@,
    ));
}

} // verus!
