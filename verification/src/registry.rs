//! Slot tables that map small integer handles to entries, reusing the lowest
//! empty slot before they grow.
use vstd::prelude::*;

verus! {

/// The lowest empty slot at or after `from`, or the length where every slot
/// from there on is taken.
pub open spec fn first_free_from<T>(slots: Seq<Option<T>>, from: int) -> int
    decreases slots.len() - from,
{
    if from < 0 || from >= slots.len() {
        slots.len() as int
    } else if slots[from].is_none() {
        from
    } else {
        first_free_from(slots, from + 1)
    }
}

/// The slot that the next entry takes: the lowest empty one, or a new one at
/// the end where none is empty.
pub open spec fn first_free<T>(slots: Seq<Option<T>>) -> int {
    first_free_from(slots, 0)
}

/// `slots` with `item` in slot `id`, which is a slot of the table or the one
/// right after its end.
pub open spec fn with_slot<T>(slots: Seq<Option<T>>, id: int, item: T) -> Seq<Option<T>> {
    if id < slots.len() {
        slots.update(id, Some(item))
    } else {
        slots.push(Some(item))
    }
}

/// `id` names a slot that holds an entry.
pub open spec fn is_live<T>(slots: Seq<Option<T>>, id: int) -> bool {
    0 <= id < slots.len() && slots[id].is_some()
}

/// Every slot below `first_free` is taken, and `first_free` itself, where it
/// is a slot of the table, is empty.
pub proof fn lemma_first_free<T>(slots: Seq<Option<T>>)
    ensures
        0 <= first_free(slots) <= slots.len(),
        forall|i: int| 0 <= i < first_free(slots) ==> (#[trigger] slots[i]).is_some(),
        first_free(slots) < slots.len() ==> slots[first_free(slots)].is_none(),
{
    lemma_first_free_from(slots, 0);
}

proof fn lemma_first_free_from<T>(slots: Seq<Option<T>>, from: int)
    requires
        0 <= from <= slots.len(),
    ensures
        from <= first_free_from(slots, from) <= slots.len(),
        forall|i: int| from <= i < first_free_from(slots, from) ==> (#[trigger] slots[i]).is_some(),
        first_free_from(slots, from) < slots.len() ==> slots[first_free_from(slots, from)].is_none(),
    decreases slots.len() - from,
{
    if from < slots.len() && slots[from].is_some() {
        lemma_first_free_from(slots, from + 1);
    }
}

/// Taken slots may be skipped in the search.
proof fn lemma_skip_taken<T>(slots: Seq<Option<T>>, from: int, to: int)
    requires
        0 <= from <= to <= slots.len(),
        forall|i: int| from <= i < to ==> (#[trigger] slots[i]).is_some(),
    ensures
        first_free_from(slots, from) == first_free_from(slots, to),
    decreases to - from,
{
    if from < to {
        lemma_skip_taken(slots, from + 1, to);
    }
}

/// Puts `item` into the lowest empty slot, or into a new slot at the end where
/// none is empty, and returns the slot.
pub fn claim_slot<T>(slots: &mut Vec<Option<T>>, item: T) -> (id: usize)
    ensures
        id == first_free(old(slots)@),
        final(slots)@ == with_slot(old(slots)@, id as int, item),
{
    let mut i: usize = 0;
    while i < slots.len()
        invariant
            slots@ == old(slots)@,
            i <= slots@.len(),
            forall|j: int| 0 <= j < i ==> (#[trigger] slots@[j]).is_some(),
        decreases slots@.len() - i,
    {
        if slots[i].is_none() {
            proof {
                lemma_skip_taken(slots@, 0, i as int);
            }
            slots[i] = Some(item);
            return i;
        }
        i += 1;
    }
    proof {
        lemma_skip_taken(slots@, 0, i as int);
    }
    slots.push(Some(item));
    i
}

/// Empties slot `id` and hands out what it held. The table keeps its length,
/// so the slot is there for the next entry.
pub fn vacate_slot<T>(slots: &mut Vec<Option<T>>, id: usize) -> (entry: Option<T>)
    ensures
        is_live(old(slots)@, id as int) ==> entry == old(slots)@[id as int] && final(slots)@ == old(slots)@.update(
            id as int,
            None,
        ),
        !is_live(old(slots)@, id as int) ==> entry.is_none() && final(slots)@ == old(slots)@,
{
    if id < slots.len() {
        let entry = slots[id].take();
        assert(slots@ =~= old(slots)@.update(id as int, None));
        entry
    } else {
        None
    }
}

/// Whether `id` names a slot that holds an entry.
pub fn slot_is_live<T>(slots: &Vec<Option<T>>, id: usize) -> (live: bool)
    ensures
        live == is_live(slots@, id as int),
{
    id < slots.len() && slots[id].is_some()
}

} // verus!
