//! The failures that the engine reports.
use crate::ledger::Slot;
use vstd::prelude::*;

verus! {

/// Why a task of the engine failed. `E` is the error type of the ledger
/// client and the store; the engine hands their errors on and never inspects
/// them.
#[derive(Clone, Debug, PartialEq, Eq)]
pub enum LoaderError<E> {
    /// A collaborator failed after its own retries; its error, unchanged.
    Upstream(E),
    /// Slots of one batch could not be resolved. Every such slot is named, in
    /// the order in which the batch asked for them.
    BatchFailed { slots: Vec<Slot> },
    /// At least one of the two tips could not be read.
    LatestSlots,
    /// Neither the store nor the caller gave a slot to start from.
    MissingStartSlot,
    /// The store could not say which slot it holds last.
    LastSlot(E),
    /// A slot of the backward scan is neither stored nor on the ledger.
    BlockNotFound { slot: Slot },
    /// The header of a block under verification could not be fetched.
    Recheck { slot: Slot, cause: E },
    /// A state machine was advanced with an event that does not answer the
    /// action it had handed out.
    UnexpectedEvent,
}

/// `i` is the place of the first failure among `results`.
pub open spec fn first_failure_at<T, E>(results: Seq<Result<T, E>>, i: int) -> bool {
    &&& 0 <= i < results.len()
    &&& results[i] is Err
    &&& forall|j: int| 0 <= j < i ==> (#[trigger] results[j]) is Ok
}

/// None of `results` is a failure.
pub open spec fn all_ok<T, E>(results: Seq<Result<T, E>>) -> bool {
    forall|j: int| 0 <= j < results.len() ==> (#[trigger] results[j]) is Ok
}

} // verus!
