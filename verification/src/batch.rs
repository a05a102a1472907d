//! Loading a bounded set of slots as a unit: either every slot resolves, or
//! the whole batch fails.
use crate::error::LoaderError;
use crate::ledger::{Block, Slot};
use std::collections::BTreeMap;
use vstd::prelude::*;

verus! {

/// The end of the batch that starts at `from`: `batch_size` slots further, or
/// the tip where that is nearer.
pub open spec fn batch_end_of(from: Slot, tip: Slot, batch_size: u64) -> int {
    if tip - from <= batch_size {
        tip as int
    } else {
        from + batch_size
    }
}

/// Computes where the next batch ends. The batch is the range `[from, to)`;
/// it never reaches past the tip and never holds more than `batch_size`
/// slots.
pub fn batch_end(from: Slot, tip: Slot, batch_size: u64) -> (to: Slot)
    requires
        from <= tip,
    ensures
        to == batch_end_of(from, tip, batch_size),
        from <= to <= tip,
        to - from <= batch_size,
{
    let span = tip - from;
    if span <= batch_size {
        tip
    } else {
        from + batch_size
    }
}

/// The slots of the range `[from, to)`, in rising order; none where `to`
/// does not lie above `from`.
pub open spec fn slot_range(from: Slot, to: Slot) -> Seq<Slot> {
    if from < to {
        Seq::new((to - from) as nat, |i: int| (from + i) as Slot)
    } else {
        Seq::empty()
    }
}

/// Lists the slots of one batch: every slot of `[from, to)`, none twice, none
/// left out.
pub fn batch_slots(from: Slot, to: Slot) -> (slots: Vec<Slot>)
    ensures
        slots@ == slot_range(from, to),
{
    let mut slots: Vec<Slot> = Vec::new();
    if to <= from {
        return slots;
    }
    let mut next: Slot = from;
    while next < to
        invariant
            from <= next <= to,
            slots@ == slot_range(from, next),
        decreases to - next,
    {
        slots.push(next);
        next = next + 1;
    }
    slots
}

/// The slots rise strictly: the list stands for a set of slots, each named
/// once, in the order of the ledger.
pub open spec fn ascending(slots: Seq<Slot>) -> bool {
    forall|i: int, j: int| 0 <= i < j < slots.len() ==> slots[i] < slots[j]
}

/// The slots of a range rise strictly.
pub proof fn lemma_slot_range_ascends(from: Slot, to: Slot)
    ensures
        ascending(slot_range(from, to)),
{
}

/// The request at place `i` of a batch did not resolve: it has no answer, or
/// its fetch failed.
pub open spec fn failed_at<E>(outcomes: Seq<Result<Option<Block>, E>>, i: int) -> bool {
    i >= outcomes.len() || outcomes[i] is Err
}

/// The request at place `i` of a batch resolved to a block.
pub open spec fn block_at<E>(outcomes: Seq<Result<Option<Block>, E>>, i: int) -> bool {
    0 <= i < outcomes.len() && outcomes[i] matches Ok(Some(_))
}

/// The slots of a batch that did not resolve, in the order of the batch.
/// Answers are matched to slots by place.
pub open spec fn unresolved<E>(slots: Seq<Slot>, outcomes: Seq<Result<Option<Block>, E>>) -> Seq<
    Slot,
>
    decreases slots.len(),
{
    if slots.len() == 0 {
        Seq::empty()
    } else {
        let rest = unresolved(slots.drop_last(), outcomes);
        if failed_at(outcomes, slots.len() - 1) {
            rest.push(slots.last())
        } else {
            rest
        }
    }
}

/// The blocks that a batch resolved to, by slot. A skipped slot has no entry.
pub open spec fn loaded<E>(slots: Seq<Slot>, outcomes: Seq<Result<Option<Block>, E>>) -> Map<
    Slot,
    Block,
>
    decreases slots.len(),
{
    if slots.len() == 0 {
        Map::empty()
    } else {
        let rest = loaded(slots.drop_last(), outcomes);
        let i = slots.len() - 1;
        if block_at(outcomes, i) {
            rest.insert(slots.last(), outcomes[i]->Ok_0->Some_0)
        } else {
            rest
        }
    }
}

/// A slot is named as unresolved exactly if one of its requests did not
/// resolve.
pub proof fn lemma_unresolved_names<E>(
    slots: Seq<Slot>,
    outcomes: Seq<Result<Option<Block>, E>>,
    slot: Slot,
)
    ensures
        unresolved(slots, outcomes).contains(slot) <==> exists|i: int|
            0 <= i < slots.len() && slots[i] == slot && failed_at(outcomes, i),
    decreases slots.len(),
{
    if slots.len() > 0 {
        let front = slots.drop_last();
        let last = slots.len() - 1;
        lemma_unresolved_names(front, outcomes, slot);
        let rest = unresolved(front, outcomes);
        if unresolved(slots, outcomes).contains(slot) {
            if rest.contains(slot) {
                let i = choose|i: int| 0 <= i < front.len() && front[i] == slot && failed_at(outcomes, i);
                assert(slots[i] == slot);
            } else {
                let k = choose|k: int|
                    0 <= k < unresolved(slots, outcomes).len() && unresolved(slots, outcomes)[k]
                        == slot;
                if k < rest.len() {
                    assert(rest[k] == slot);
                }
                assert(slots[last] == slot && failed_at(outcomes, last));
            }
        }
        if exists|i: int| 0 <= i < slots.len() && slots[i] == slot && failed_at(outcomes, i) {
            let i = choose|i: int| 0 <= i < slots.len() && slots[i] == slot && failed_at(outcomes, i);
            if i < last {
                assert(front[i] == slot);
                assert(rest.contains(slot));
                let k = choose|k: int| 0 <= k < rest.len() && rest[k] == slot;
                assert(unresolved(slots, outcomes)[k] == slot);
            } else {
                assert(unresolved(slots, outcomes)[rest.len() as int] == slot);
            }
        }
    }
}

/// The key set of what a batch loaded is exactly the slots that resolved to a
/// block: the slots asked for, less the skipped and the unresolved ones.
pub proof fn lemma_loaded_keys<E>(
    slots: Seq<Slot>,
    outcomes: Seq<Result<Option<Block>, E>>,
    slot: Slot,
)
    ensures
        loaded(slots, outcomes).dom().contains(slot) <==> exists|i: int|
            0 <= i < slots.len() && slots[i] == slot && block_at(outcomes, i),
    decreases slots.len(),
{
    if slots.len() > 0 {
        let front = slots.drop_last();
        let last = slots.len() - 1;
        lemma_loaded_keys(front, outcomes, slot);
        if loaded(slots, outcomes).dom().contains(slot) {
            if loaded(front, outcomes).dom().contains(slot) {
                let i = choose|i: int| 0 <= i < front.len() && front[i] == slot && block_at(outcomes, i);
                assert(slots[i] == slot);
            } else {
                assert(slots[last] == slot && block_at(outcomes, last));
            }
        }
        if exists|i: int| 0 <= i < slots.len() && slots[i] == slot && block_at(outcomes, i) {
            let i = choose|i: int| 0 <= i < slots.len() && slots[i] == slot && block_at(outcomes, i);
            if i < last {
                assert(front[i] == slot);
            }
        }
    }
}

/// Where no slot is asked for twice, every slot that resolved to a block is
/// loaded with that very block.
pub proof fn lemma_loaded_blocks<E>(
    slots: Seq<Slot>,
    outcomes: Seq<Result<Option<Block>, E>>,
    i: int,
)
    requires
        slots.no_duplicates(),
        0 <= i < slots.len(),
        block_at(outcomes, i),
    ensures
        loaded(slots, outcomes).dom().contains(slots[i]),
        loaded(slots, outcomes)[slots[i]] == outcomes[i]->Ok_0->Some_0,
    decreases slots.len(),
{
    let front = slots.drop_last();
    let last = slots.len() - 1;
    if i < last {
        lemma_loaded_blocks(front, outcomes, i);
        assert(front[i] == slots[i]);
        assert(slots[last] != slots[i]);
    }
}

/// Settles one batch. `slots` is the set of slots asked for, in rising
/// order; `outcomes` answers it place by place: a block, a skipped slot
/// (`None`), or a failed fetch.
///
/// The batch succeeds exactly if every slot has an answer that is no failure;
/// it then returns the blocks by slot, with no entry for a skipped slot. It
/// fails otherwise, naming every unresolved slot, and returns no block.
pub fn load_blocks<E>(slots: &Vec<Slot>, outcomes: Vec<Result<Option<Block>, E>>) -> (r: Result<
    BTreeMap<Slot, Block>,
    LoaderError<E>,
>)
    requires
        ascending(slots@),
    ensures
        r is Ok <==> unresolved(slots@, outcomes@).len() == 0,
        match r {
            Ok(blocks) => blocks@ == loaded(slots@, outcomes@),
            Err(LoaderError::BatchFailed { slots: named }) => named@ == unresolved(
                slots@,
                outcomes@,
            ),
            Err(_) => false,
        },
{
    let ghost answers = outcomes@;
    let mut blocks: BTreeMap<Slot, Block> = BTreeMap::new();
    let mut named: Vec<Slot> = Vec::new();
    let mut place: usize = 0;
    for outcome in it: outcomes
        invariant
            it.seq() == answers,
            place <= slots.len(),
            place <= it.index(),
            place < slots.len() ==> place == it.index(),
            blocks@ == loaded(slots@.take(place as int), answers),
            named@ == unresolved(slots@.take(place as int), answers),
    {
        if place < slots.len() {
            proof {
                assert(slots@.take(place + 1).drop_last() == slots@.take(place as int));
                assert(slots@.take(place + 1).last() == slots@[place as int]);
            }
            let slot = slots[place];
            match outcome {
                Ok(Some(block)) => {
                    blocks.insert(slot, block);
                },
                Ok(None) => {},
                Err(_) => {
                    named.push(slot);
                },
            }
            place = place + 1;
        }
    }
    while place < slots.len()
        invariant
            place <= slots.len(),
            answers.len() <= place || place == slots.len(),
            blocks@ == loaded(slots@.take(place as int), answers),
            named@ == unresolved(slots@.take(place as int), answers),
        decreases slots.len() - place,
    {
        proof {
            assert(slots@.take(place + 1).drop_last() == slots@.take(place as int));
            assert(slots@.take(place + 1).last() == slots@[place as int]);
        }
        named.push(slots[place]);
        place = place + 1;
    }
    proof {
        assert(slots@.take(slots@.len() as int) == slots@);
    }
    if named.len() == 0 {
        Ok(blocks)
    } else {
        Err(LoaderError::BatchFailed { slots: named })
    }
}

} // verus!
