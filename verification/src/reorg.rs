//! Reorg reconciliation: re-verifying stored blocks against the finalized
//! ledger, and repairing the ones whose content hash has diverged.
use crate::batch::{ascending, loaded};
use crate::error::{all_ok, first_failure_at, LoaderError};
use crate::fetcher::RetryPolicy;
use crate::ledger::{Block, BlockHeader, Commitment, Slot};
use std::collections::BTreeMap;
use vstd::prelude::*;

verus! {

/// The stored copy of a block has diverged: the ledger holds a block at the
/// slot, and its content hash is another. A slot that the ledger no longer
/// resolves counts as unchanged.
pub open spec fn diverged(stored: Block, header: Option<BlockHeader>) -> bool {
    match header {
        Some(h) => h.content_hash@ != stored.content_hash@,
        None => false,
    }
}

/// Compares the stored copy of a block with the header that the ledger now
/// reports for its slot at finalized commitment.
pub fn recheck_finalized_block(stored: &Block, header: &Option<BlockHeader>) -> (r: bool)
    ensures
        r == diverged(*stored, *header),
{
    match header {
        Some(h) => h.content_hash != stored.content_hash,
        None => false,
    }
}

/// The place of the first failure among `results`; their number where none
/// failed.
pub open spec fn first_failure<T, E>(results: Seq<Result<T, E>>) -> int {
    if all_ok(results) {
        results.len() as int
    } else {
        choose|k: int| first_failure_at(results, k)
    }
}

/// `first_failure` is the one place that has a failure and none before it.
pub proof fn lemma_first_failure<T, E>(results: Seq<Result<T, E>>, k: int)
    requires
        first_failure_at(results, k) || (k == results.len() && all_ok(results)),
    ensures
        first_failure(results) == k,
{
    if !all_ok(results) {
        let c = choose|c: int| first_failure_at(results, c);
        assert(first_failure_at(results, c));
        if c < k {
            assert(results[c] is Ok);
        }
        if k < c {
            assert(results[k] is Ok);
        }
    } else if k < results.len() {
        assert(results[k] is Ok);
    }
}

/// Among the first `k` blocks, the slots whose stored copy has diverged from
/// the header at the same place, in order.
pub open spec fn diverged_slots<E>(
    blocks: Seq<(Slot, Block)>,
    headers: Seq<Result<Option<BlockHeader>, E>>,
    k: int,
) -> Seq<Slot>
    decreases k,
{
    if k <= 0 {
        Seq::empty()
    } else {
        let rest = diverged_slots(blocks, headers, k - 1);
        if headers[k - 1] matches Ok(h) && diverged(blocks[k - 1].1, h) {
            rest.push(blocks[k - 1].0)
        } else {
            rest
        }
    }
}

/// `slot` is in `slots` and no slot of `slots` lies below it.
pub open spec fn is_least(slot: Slot, slots: Set<Slot>) -> bool {
    &&& slots.contains(slot)
    &&& forall|s: Slot| slots.contains(s) ==> slot <= s
}

/// Where one verification pass stands.
#[derive(Debug, PartialEq)]
pub enum VerifyStage<E> {
    /// The finalized headers of these stored blocks have been asked for.
    Headers { blocks: Vec<(Slot, Block)> },
    /// Full reloads of the diverged slots have been asked for. `pending` is
    /// the first header failure, which fails the pass once the reloads that
    /// come before it are in.
    Reloads { slots: Vec<Slot>, pending: Option<(Slot, E)> },
    /// The store has been asked to overwrite the reloaded blocks, of which
    /// `reset_from` is the lowest.
    Overwrite { reset_from: Slot },
    /// The reorg event has been handed out.
    Emit,
    /// The pass has ended.
    Finished,
}

impl<E> VerifyStage<E> {
    /// How many answers a pass may still take, at most.
    pub open spec fn rank(self) -> nat {
        match self {
            VerifyStage::Headers { .. } => 4,
            VerifyStage::Reloads { .. } => 3,
            VerifyStage::Overwrite { .. } => 2,
            VerifyStage::Emit => 1,
            VerifyStage::Finished => 0,
        }
    }
}

/// One pass of hash comparison and repair over a set of stored blocks.
#[derive(Debug, PartialEq)]
pub struct Verification<E> {
    pub stage: VerifyStage<E>,
}

/// What a verification pass asks for next, or how it ended.
#[derive(Debug, PartialEq)]
pub enum VerifyAction<E> {
    /// Fetch the header of each slot, all at once, each request with this
    /// many retries, this many milliseconds apart. The commitment is always
    /// `Finalized`.
    FetchHeaders { slots: Vec<Slot>, commitment: Commitment, retries: usize, delay_ms: u64 },
    /// Load each slot in full, all at once. The commitment is always
    /// `Finalized`.
    ReloadBlocks { slots: Vec<Slot>, commitment: Commitment },
    /// Overwrite these blocks in the store, atomically.
    Overwrite { blocks: BTreeMap<Slot, Block> },
    /// Tell the consumers to drop what they derived from `slot` on.
    Emit { slot: Slot },
    /// The pass is over.
    Done(Result<(), LoaderError<E>>),
}

/// What the collaborators answered.
#[derive(Debug, PartialEq)]
pub enum VerifyEvent<E> {
    /// The answers to `FetchHeaders`, one for each slot, in order.
    Headers(Vec<Result<Option<BlockHeader>, E>>),
    /// The answers to `ReloadBlocks`, one for each slot, in order.
    Reloaded(Vec<Result<Option<Block>, E>>),
    /// The store's answer to `Overwrite`.
    Overwritten(Result<(), E>),
    /// The event was handed to the channel, delivered or not.
    Emitted,
}

/// A pass ends after at most four answers: every step either ends it or
/// lowers its rank, and only a pass that has not ended can end well.
pub proof fn lemma_pass_rank<E>(
    pass: Verification<E>,
    event: VerifyEvent<E>,
    next: Verification<E>,
    action: VerifyAction<E>,
)
    requires
        pass.step(event, next, action),
    ensures
        action is Done || next.stage.rank() < pass.stage.rank(),
        action matches VerifyAction::Done(Ok(_)) ==> pass.stage.rank() > 0,
{
}

proof fn lemma_some_failure_is_first<T, E>(results: Seq<Result<T, E>>, j: int)
    requires
        0 <= j < results.len(),
        results[j] is Err,
    ensures
        exists|k: int| 0 <= k <= j && first_failure_at(results, k),
    decreases j,
{
    if forall|i: int| 0 <= i < j ==> (#[trigger] results[i]) is Ok {
        assert(first_failure_at(results, j));
    } else {
        let i = choose|i: int| 0 <= i < j && !((#[trigger] results[i]) is Ok);
        lemma_some_failure_is_first(results, i);
    }
}

/// As the slots rise, the header failure that fails a pass is that of the
/// lowest slot whose header could not be fetched.
pub proof fn lemma_first_failure_is_lowest<E>(
    blocks: Seq<(Slot, Block)>,
    headers: Seq<Result<Option<BlockHeader>, E>>,
    j: int,
)
    requires
        ascending(slots_of(blocks)),
        blocks.len() == headers.len(),
        0 <= j < headers.len(),
        headers[j] is Err,
    ensures
        0 <= first_failure(headers) <= j,
        headers[first_failure(headers)] is Err,
        blocks[first_failure(headers)].0 <= blocks[j].0,
{
    lemma_some_failure_is_first(headers, j);
    let k = choose|k: int| 0 <= k <= j && first_failure_at(headers, k);
    lemma_first_failure(headers, k);
    if k < j {
        assert(slots_of(blocks)[k] < slots_of(blocks)[j]);
    }
}

/// Where none of the first `k` stored copies has diverged, no slot is up
/// for repair.
pub proof fn lemma_none_diverged<E>(
    blocks: Seq<(Slot, Block)>,
    headers: Seq<Result<Option<BlockHeader>, E>>,
    k: int,
)
    requires
        forall|i: int|
            0 <= i < k ==> !((#[trigger] headers[i]) matches Ok(h) && diverged(blocks[i].1, h)),
    ensures
        diverged_slots(blocks, headers, k) == Seq::<Slot>::empty(),
    decreases k,
{
    if k > 0 {
        lemma_none_diverged(blocks, headers, k - 1);
        assert(!(headers[k - 1] matches Ok(h) && diverged(blocks[k - 1].1, h)));
    }
}

/// Verification of unchanged blocks is silent: where every header came in and
/// none differs from the stored copy, the pass ends at once, with no store
/// write and no event. As the store is left as it was, so does every pass
/// after it.
pub proof fn lemma_unchanged_pass_is_silent<E>(
    pass: Verification<E>,
    headers: Vec<Result<Option<BlockHeader>, E>>,
    next: Verification<E>,
    action: VerifyAction<E>,
)
    requires
        pass.stage matches VerifyStage::Headers { blocks } && {
            &&& blocks@.len() == headers@.len()
            &&& forall|i: int|
                0 <= i < headers@.len() ==> (#[trigger] headers@[i]) is Ok && !diverged(
                    blocks@[i].1,
                    headers@[i]->Ok_0,
                )
        },
        pass.step(VerifyEvent::Headers(headers), next, action),
    ensures
        next.stage is Finished,
        action == VerifyAction::<E>::Done(Ok(())),
{
    let blocks = pass.stage->Headers_blocks;
    assert(all_ok(headers@));
    lemma_first_failure(headers@, headers@.len() as int);
    lemma_none_diverged(blocks@, headers@, headers@.len() as int);
}

/// Repair is idempotent: once every diverged block has been replaced by a
/// copy that carries the hash the ledger reports, a second pass against the
/// same headers is silent.
pub proof fn lemma_repair_is_idempotent<E>(
    stored: Vec<(Slot, Block)>,
    repaired: Vec<(Slot, Block)>,
    headers: Vec<Result<Option<BlockHeader>, E>>,
    next: Verification<E>,
    action: VerifyAction<E>,
)
    requires
        stored@.len() == headers@.len(),
        repaired@.len() == headers@.len(),
        forall|i: int|
            0 <= i < headers@.len() ==> (#[trigger] headers@[i]) is Ok && if diverged(
                stored@[i].1,
                headers@[i]->Ok_0,
            ) {
                repaired@[i].1.content_hash@ == headers@[i]->Ok_0->Some_0.content_hash@
            } else {
                repaired@[i] == stored@[i]
            },
        (Verification { stage: VerifyStage::<E>::Headers { blocks: repaired } }).step(
            VerifyEvent::Headers(headers),
            next,
            action,
        ),
    ensures
        next.stage is Finished,
        action == VerifyAction::<E>::Done(Ok(())),
{
    assert forall|i: int| 0 <= i < headers@.len() implies (#[trigger] headers@[i]) is Ok
        && !diverged(repaired@[i].1, headers@[i]->Ok_0) by {
        assert(headers@[i] is Ok);
    }
    lemma_unchanged_pass_is_silent(
        Verification { stage: VerifyStage::<E>::Headers { blocks: repaired } },
        headers,
        next,
        action,
    );
}

/// Reorg signal minimality: a pass that overwrites stored blocks hands out one
/// event, and it carries the lowest slot that was overwritten.
pub proof fn lemma_event_is_least<E>(
    pass: Verification<E>,
    reloaded: VerifyEvent<E>,
    writing: Verification<E>,
    write: VerifyAction<E>,
    written: VerifyEvent<E>,
    emitting: Verification<E>,
    emit: VerifyAction<E>,
    emitted: VerifyEvent<E>,
    last: Verification<E>,
    end: VerifyAction<E>,
)
    requires
        pass.step(reloaded, writing, write),
        write is Overwrite,
        writing.step(written, emitting, emit),
        emitting.step(emitted, last, end),
    ensures
        emit matches VerifyAction::Emit { slot } ==> is_least(slot, write->Overwrite_blocks@.dom()),
        emit is Emit || emit is Done,
        end is Done,
{
}

/// The slots of a list of stored blocks, in order.
pub open spec fn slots_of(blocks: Seq<(Slot, Block)>) -> Seq<Slot> {
    blocks.map_values(|b: (Slot, Block)| b.0)
}

/// Tells whether the slots of a list of blocks rise strictly.
pub fn slots_ascend(blocks: &Vec<(Slot, Block)>) -> (r: bool)
    ensures
        r == ascending(slots_of(blocks@)),
{
    if blocks.len() == 0 {
        return true;
    }
    let mut i: usize = 1;
    while i < blocks.len()
        invariant
            1 <= i <= blocks.len(),
            forall|a: int, b: int| 0 <= a < b < i ==> blocks@[a].0 < blocks@[b].0,
        decreases blocks.len() - i,
    {
        if blocks[i - 1].0 >= blocks[i].0 {
            assert(!(slots_of(blocks@)[i - 1] < slots_of(blocks@)[i as int]));
            return false;
        }
        assert forall|a: int, b: int| 0 <= a < b < i + 1 implies blocks@[a].0 < blocks@[b].0 by {
            if b == i && a < i - 1 {
                assert(blocks@[a].0 < blocks@[i - 1].0);
            }
        }
        i = i + 1;
    }
    true
}

fn copy_slots(slots: &Vec<Slot>) -> (copy: Vec<Slot>)
    ensures
        copy@ == slots@,
{
    let mut copy: Vec<Slot> = Vec::new();
    let mut i: usize = 0;
    while i < slots.len()
        invariant
            i <= slots.len(),
            copy@ == slots@.take(i as int),
        decreases slots.len() - i,
    {
        copy.push(slots[i]);
        i = i + 1;
    }
    assert(slots@.take(slots@.len() as int) == slots@);
    copy
}

impl<E> Verification<E> {
    /// The pass has ended with `outcome`.
    pub open spec fn ends(
        next: Verification<E>,
        action: VerifyAction<E>,
        outcome: Result<(), LoaderError<E>>,
    ) -> bool {
        next.stage is Finished && action == VerifyAction::Done(outcome)
    }

    /// How one event takes a pass from `self` to `next` and which action
    /// comes out.
    pub open spec fn step(
        self,
        event: VerifyEvent<E>,
        next: Verification<E>,
        action: VerifyAction<E>,
    ) -> bool {
        match (self.stage, event) {
            (VerifyStage::Headers { blocks }, VerifyEvent::Headers(headers)) => {
                let k = first_failure(headers@);
                let targets = diverged_slots(blocks@, headers@, k);
                if headers@.len() != blocks@.len() {
                    Self::ends(next, action, Err(LoaderError::UnexpectedEvent))
                } else if targets.len() == 0 {
                    if k < headers@.len() {
                        Self::ends(
                            next,
                            action,
                            Err(
                                LoaderError::Recheck {
                                    slot: blocks@[k].0,
                                    cause: headers@[k]->Err_0,
                                },
                            ),
                        )
                    } else {
                        Self::ends(next, action, Ok(()))
                    }
                } else {
                    &&& next.stage matches VerifyStage::Reloads { slots, pending }
                    &&& slots@ == targets
                    &&& pending == if k < headers@.len() {
                        Some((blocks@[k].0, headers@[k]->Err_0))
                    } else {
                        None
                    }
                    &&& action matches VerifyAction::ReloadBlocks { slots: asked, commitment }
                    &&& asked@ == targets
                    &&& commitment == Commitment::Finalized
                }
            },
            (VerifyStage::Reloads { slots, pending }, VerifyEvent::Reloaded(results)) => {
                let k = first_failure(results@);
                let updated = loaded(slots@, results@);
                if results@.len() != slots@.len() {
                    Self::ends(next, action, Err(LoaderError::UnexpectedEvent))
                } else if k < results@.len() {
                    Self::ends(next, action, Err(LoaderError::Upstream(results@[k]->Err_0)))
                } else {
                    match pending {
                        Some((slot, cause)) => Self::ends(
                            next,
                            action,
                            Err(LoaderError::Recheck { slot, cause }),
                        ),
                        None => if updated.dom() == Set::<Slot>::empty() {
                            Self::ends(next, action, Ok(()))
                        } else {
                            &&& next.stage matches VerifyStage::Overwrite { reset_from }
                            &&& is_least(reset_from, updated.dom())
                            &&& action matches VerifyAction::Overwrite { blocks }
                            &&& blocks@ == updated
                        },
                    }
                }
            },
            (VerifyStage::Overwrite { reset_from }, VerifyEvent::Overwritten(Ok(()))) => {
                &&& next.stage is Emit
                &&& action == VerifyAction::<E>::Emit { slot: reset_from }
            },
            (VerifyStage::Overwrite { .. }, VerifyEvent::Overwritten(Err(e))) => Self::ends(
                next,
                action,
                Err(LoaderError::Upstream(e)),
            ),
            (VerifyStage::Emit, VerifyEvent::Emitted) => Self::ends(next, action, Ok(())),
            _ => Self::ends(next, action, Err(LoaderError::UnexpectedEvent)),
        }
    }

    /// How a pass over `blocks` starts: with no block it is over at once;
    /// else the header of every block's slot is asked for.
    pub open spec fn begins(
        blocks: Vec<(Slot, Block)>,
        retry: RetryPolicy,
        pass: Verification<E>,
        action: VerifyAction<E>,
    ) -> bool {
        if blocks@.len() == 0 {
            Self::ends(pass, action, Ok(()))
        } else {
            &&& pass.stage == VerifyStage::<E>::Headers { blocks }
            &&& action matches VerifyAction::FetchHeaders { slots, commitment, retries, delay_ms }
            &&& slots@ == slots_of(blocks@)
            &&& commitment == Commitment::Finalized
            &&& retries == retry.block_retries
            &&& delay_ms == retry.delay_ms
        }
    }

    /// Starts a pass over `blocks`, the stored copies to verify, each with
    /// its slot. The blocks stand for a map by slot: their slots rise
    /// strictly. The header requests take their retries from `retry`.
    pub fn begin(blocks: Vec<(Slot, Block)>, retry: RetryPolicy) -> (r: (
        Verification<E>,
        VerifyAction<E>,
    ))
        requires
            ascending(slots_of(blocks@)),
        ensures
            Self::begins(blocks, retry, r.0, r.1),
    {
        if blocks.len() == 0 {
            return (Verification { stage: VerifyStage::Finished }, VerifyAction::Done(Ok(())));
        }
        let mut slots: Vec<Slot> = Vec::new();
        let mut i: usize = 0;
        while i < blocks.len()
            invariant
                i <= blocks.len(),
                slots@ == slots_of(blocks@.take(i as int)),
            decreases blocks.len() - i,
        {
            slots.push(blocks[i].0);
            assert(slots_of(blocks@.take(i + 1)) == slots_of(blocks@.take(i as int)).push(
                blocks@[i as int].0,
            ));
            i = i + 1;
        }
        assert(blocks@.take(blocks@.len() as int) == blocks@);
        (
            Verification { stage: VerifyStage::Headers { blocks } },
            VerifyAction::FetchHeaders {
                slots,
                commitment: Commitment::Finalized,
                retries: retry.block_retries,
                delay_ms: retry.delay_ms,
            },
        )
    }

    fn on_headers(blocks: Vec<(Slot, Block)>, headers: Vec<Result<Option<BlockHeader>, E>>) -> (r: (
        Verification<E>,
        VerifyAction<E>,
    ))
        ensures
            (Verification { stage: VerifyStage::<E>::Headers { blocks } }).step(
                VerifyEvent::Headers(headers),
                r.0,
                r.1,
            ),
    {
        let ended = Verification { stage: VerifyStage::Finished };
        if headers.len() != blocks.len() {
            return (ended, VerifyAction::Done(Err(LoaderError::UnexpectedEvent)));
        }
        let ghost all = headers@;
        let mut targets: Vec<Slot> = Vec::new();
        let mut pending: Option<(Slot, E)> = None;
        let mut place: usize = 0;
        for header in it: headers
            invariant
                it.seq() == all,
                all.len() == blocks@.len(),
                place == it.index(),
                match pending {
                    None => {
                        &&& forall|j: int| 0 <= j < place ==> (#[trigger] all[j]) is Ok
                        &&& targets@ == diverged_slots(blocks@, all, place as int)
                    },
                    Some((slot, cause)) => exists|k: int|
                        {
                            &&& first_failure_at(all, k)
                            &&& k < place
                            &&& slot == blocks@[k].0
                            &&& cause == all[k]->Err_0
                            &&& targets@ == diverged_slots(blocks@, all, k)
                        },
                },
        {
            if pending.is_none() {
                match header {
                    Ok(h) => {
                        if recheck_finalized_block(&blocks[place].1, &h) {
                            targets.push(blocks[place].0);
                        }
                    },
                    Err(cause) => {
                        assert(first_failure_at(all, place as int));
                        pending = Some((blocks[place].0, cause));
                    },
                }
            }
            place = place + 1;
        }
        let ghost found = pending;
        proof {
            match found {
                None => {
                    lemma_first_failure(all, all.len() as int);
                },
                Some((slot, cause)) => {
                    let k = choose|k: int|
                        {
                            &&& first_failure_at(all, k)
                            &&& k < place
                            &&& slot == blocks@[k].0
                            &&& cause == all[k]->Err_0
                            &&& targets@ == diverged_slots(blocks@, all, k)
                        };
                    lemma_first_failure(all, k);
                },
            }
        }
        if targets.len() == 0 {
            match pending {
                Some((slot, cause)) => (
                    ended,
                    VerifyAction::Done(Err(LoaderError::Recheck { slot, cause })),
                ),
                None => (ended, VerifyAction::Done(Ok(()))),
            }
        } else {
            let slots = copy_slots(&targets);
            (
                Verification { stage: VerifyStage::Reloads { slots, pending } },
                VerifyAction::ReloadBlocks { slots: targets, commitment: Commitment::Finalized },
            )
        }
    }

    fn on_reloaded(
        slots: Vec<Slot>,
        pending: Option<(Slot, E)>,
        results: Vec<Result<Option<Block>, E>>,
    ) -> (r: (Verification<E>, VerifyAction<E>))
        ensures
            (Verification { stage: VerifyStage::Reloads { slots, pending } }).step(
                VerifyEvent::Reloaded(results),
                r.0,
                r.1,
            ),
    {
        let ended = Verification { stage: VerifyStage::Finished };
        if results.len() != slots.len() {
            return (ended, VerifyAction::Done(Err(LoaderError::UnexpectedEvent)));
        }
        let ghost all = results@;
        let mut blocks: BTreeMap<Slot, Block> = BTreeMap::new();
        let mut least: Option<Slot> = None;
        let mut place: usize = 0;
        for result in it: results
            invariant
                it.seq() == all,
                all.len() == slots.len(),
                place == it.index(),
                forall|j: int| 0 <= j < place ==> (#[trigger] all[j]) is Ok,
                blocks@ == loaded(slots@.take(place as int), all),
                match least {
                    None => blocks@.dom() == Set::<Slot>::empty(),
                    Some(slot) => is_least(slot, blocks@.dom()),
                },
        {
            proof {
                assert(slots@.take(place + 1).drop_last() == slots@.take(place as int));
                assert(slots@.take(place + 1).last() == slots@[place as int]);
            }
            match result {
                Ok(Some(block)) => {
                    let slot = slots[place];
                    blocks.insert(slot, block);
                    least = match least {
                        Some(l) => if l <= slot {
                            Some(l)
                        } else {
                            Some(slot)
                        },
                        None => Some(slot),
                    };
                },
                Ok(None) => {},
                Err(e) => {
                    proof {
                        assert(first_failure_at(all, place as int));
                        lemma_first_failure(all, place as int);
                    }
                    return (
                        Verification { stage: VerifyStage::Finished },
                        VerifyAction::Done(Err(LoaderError::Upstream(e))),
                    );
                },
            }
            place = place + 1;
        }
        proof {
            lemma_first_failure(all, all.len() as int);
            assert(slots@.take(slots@.len() as int) == slots@);
        }
        match pending {
            Some((slot, cause)) => (
                ended,
                VerifyAction::Done(Err(LoaderError::Recheck { slot, cause })),
            ),
            None => match least {
                Some(reset_from) => {
                    assert(blocks@.dom().contains(reset_from));
                    (
                        Verification { stage: VerifyStage::Overwrite { reset_from } },
                        VerifyAction::Overwrite { blocks },
                    )
                },
                None => (ended, VerifyAction::Done(Ok(()))),
            },
        }
    }

    /// Takes the answer to the action that is out and decides what comes
    /// next.
    pub fn advance(self, event: VerifyEvent<E>) -> (r: (Verification<E>, VerifyAction<E>))
        ensures
            self.step(event, r.0, r.1),
    {
        let ended = Verification { stage: VerifyStage::Finished };
        match (self.stage, event) {
            (VerifyStage::Headers { blocks }, VerifyEvent::Headers(headers)) => Self::on_headers(
                blocks,
                headers,
            ),
            (VerifyStage::Reloads { slots, pending }, VerifyEvent::Reloaded(results)) => {
                Self::on_reloaded(slots, pending, results)
            },
            (VerifyStage::Overwrite { reset_from }, VerifyEvent::Overwritten(Ok(()))) => (
                Verification { stage: VerifyStage::Emit },
                VerifyAction::Emit { slot: reset_from },
            ),
            (VerifyStage::Overwrite { .. }, VerifyEvent::Overwritten(Err(e))) => (
                ended,
                VerifyAction::Done(Err(LoaderError::Upstream(e))),
            ),
            (VerifyStage::Emit, VerifyEvent::Emitted) => (ended, VerifyAction::Done(Ok(()))),
            _ => (ended, VerifyAction::Done(Err(LoaderError::UnexpectedEvent))),
        }
    }
}

} // verus!
