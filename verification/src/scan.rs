//! The backward scan: an exhaustive sweep over stored history that walks the
//! parent links from the newest block down, batch by batch, and has every
//! batch verified against the finalized ledger.
use crate::batch::ascending;
use crate::error::LoaderError;
use crate::fetcher::RetryPolicy;
use crate::ledger::{Block, Commitment, Slot};
use crate::reorg::{lemma_pass_rank, slots_of, Verification, VerifyAction, VerifyEvent};
use crate::transmit_tx::reversed;
use vstd::prelude::*;

verus! {

/// Where the scan stands.
#[derive(Debug, PartialEq)]
pub enum ScanStage<E> {
    /// No end was given: the store has been asked for its last slot.
    LastSlot,
    /// The store has been asked whether it holds the start slot.
    StartCheck { end: Slot },
    /// The store has been asked for the block at `current`. `blocks` are the
    /// blocks that the batch under way has visited.
    Stored { current: Slot, blocks: Vec<(Slot, Block)> },
    /// The store does not hold `current`: the ledger has been asked for it.
    Ledger { current: Slot, blocks: Vec<(Slot, Block)> },
    /// A visited batch is under verification. `resume` is the slot at which
    /// the next batch starts; `None` where the walk has ended.
    Verify { pass: Verification<E>, resume: Option<Slot> },
    /// The scan has ended.
    Finished,
}

/// The state of a backward scan.
pub struct ScanState<E> {
    /// The lowest slot of the range.
    pub start: Slot,
    /// The most blocks that one batch visits; a batch visits at least one.
    pub batch_size: u64,
    /// The commitment level under which missing blocks are loaded.
    pub commitment: Commitment,
    /// The retries that go out with the header requests of a verification.
    pub retry: RetryPolicy,
    pub stage: ScanStage<E>,
    /// The upper bound of the range, once it is known.
    pub top: Ghost<Option<Slot>>,
    /// Every visit so far, in order: the slot, and the parent link of the
    /// block that was found there.
    pub trail: Ghost<Seq<(Slot, Slot)>>,
    /// How many of the visits have been handed to a verification pass.
    pub handed: Ghost<nat>,
}

/// What the scan asks for next, or how it ended.
#[derive(Debug, PartialEq)]
pub enum ScanAction<E> {
    /// Ask the store for the last slot it holds.
    GetLastSlot,
    /// Ask the store for the block at `slot`.
    GetStoredBlock { slot: Slot },
    /// Load the block at `slot` from the ledger, in full.
    LoadBlock { slot: Slot, commitment: Commitment },
    /// A step of the verification of a visited batch.
    Verify(VerifyAction<E>),
    /// The scan is over.
    Finish(Result<(), LoaderError<E>>),
}

/// What the collaborators answered.
#[derive(Debug, PartialEq)]
pub enum ScanEvent<E> {
    /// The store's answer to `GetLastSlot`; `None` where it is empty.
    LastSlot(Result<Option<Slot>, E>),
    /// The store's answer to `GetStoredBlock`.
    StoredBlock(Result<Option<Block>, E>),
    /// The ledger's answer to `LoadBlock`.
    LoadedBlock(Result<Option<Block>, E>),
    /// The answer to a step of the verification.
    Verify(VerifyEvent<E>),
}

/// After a visit of `slot`, whose block points to `parent`, the walk goes on:
/// it has not reached `start`, and the parent lies below the block and still
/// within the range. A parent link that does not point below its block ends
/// the walk.
pub open spec fn walk_goes_on(start: Slot, slot: Slot, parent: Slot) -> bool {
    slot > start && start <= parent < slot
}

/// A trail of visits follows the parent links and stays within the range:
/// every visit but the first is at the parent of the visit before it, and
/// after every visit but the last the walk could go on.
pub open spec fn linked(trail: Seq<(Slot, Slot)>, start: Slot) -> bool {
    &&& trail.len() > 0 ==> start <= trail[0].0
    &&& forall|i: int|
        0 <= i < trail.len() - 1 ==> (#[trigger] trail[i + 1]).0 == trail[i].1 && walk_goes_on(
            start,
            trail[i].0,
            trail[i].1,
        )
}

/// The walk stands at `current`: at the upper bound before the first visit,
/// afterwards at the parent of the last visit, which lets the walk go on.
pub open spec fn stands_at(
    trail: Seq<(Slot, Slot)>,
    top: Option<Slot>,
    start: Slot,
    current: Slot,
) -> bool {
    &&& start <= current
    &&& if trail.len() == 0 {
        top == Some(current)
    } else {
        &&& top == Some(trail[0].0)
        &&& current == trail.last().1
        &&& walk_goes_on(start, trail.last().0, trail.last().1)
    }
}

/// A trail covers the range from `end` down to `start`: it starts at `end`,
/// follows the parent links, and stops only where the walk cannot go on.
pub open spec fn covers(trail: Seq<(Slot, Slot)>, start: Slot, end: Slot) -> bool {
    &&& trail.len() > 0
    &&& trail[0].0 == end
    &&& linked(trail, start)
    &&& !walk_goes_on(start, trail.last().0, trail.last().1)
}

/// The slots of a trail, in order.
pub open spec fn trail_slots(trail: Seq<(Slot, Slot)>) -> Seq<Slot> {
    trail.map_values(|visit: (Slot, Slot)| visit.0)
}

/// The blocks of the batch under way are the visits that no verification
/// pass has had yet.
pub open spec fn holds_unverified(
    blocks: Seq<(Slot, Block)>,
    trail: Seq<(Slot, Slot)>,
    handed: nat,
) -> bool {
    &&& handed + blocks.len() == trail.len()
    &&& slots_of(blocks) == trail_slots(trail).skip(handed as int)
}

impl<E> ScanState<E> {
    /// The trail is linked, and the stage fits it.
    pub open spec fn wf(self) -> bool {
        &&& linked(self.trail@, self.start)
        &&& match self.stage {
            ScanStage::LastSlot => self.trail@.len() == 0 && self.handed@ == 0,
            ScanStage::StartCheck { end } => {
                &&& self.trail@.len() == 0
                &&& self.handed@ == 0
                &&& self.start <= end
                &&& self.top@ == Some(end)
            },
            ScanStage::Stored { current, blocks } => {
                &&& stands_at(self.trail@, self.top@, self.start, current)
                &&& holds_unverified(blocks@, self.trail@, self.handed@)
            },
            ScanStage::Ledger { current, blocks } => {
                &&& stands_at(self.trail@, self.top@, self.start, current)
                &&& holds_unverified(blocks@, self.trail@, self.handed@)
            },
            ScanStage::Verify { pass, resume } => {
                &&& self.trail@.len() > 0
                &&& self.handed@ == self.trail@.len()
                &&& self.top@ == Some(self.trail@[0].0)
                &&& match resume {
                    Some(next) => stands_at(self.trail@, self.top@, self.start, next),
                    None => !walk_goes_on(
                        self.start,
                        self.trail@.last().0,
                        self.trail@.last().1,
                    ),
                }
            },
            ScanStage::Finished => true,
        }
    }

    /// The measure that every step of a scan lowers.
    pub open spec fn fuel(self) -> nat {
        match self.stage {
            ScanStage::LastSlot => 0,
            ScanStage::StartCheck { end } => (6 * (end - self.start) + 7) as nat,
            ScanStage::Stored { current, .. } => (6 * (current - self.start) + 6) as nat,
            ScanStage::Ledger { current, .. } => (6 * (current - self.start) + 5) as nat,
            ScanStage::Verify { pass, resume } => pass.stage.rank() + match resume {
                Some(next) => (6 * (next - self.start) + 6) as nat,
                None => 0,
            },
            ScanStage::Finished => 0,
        }
    }

    /// Nothing but the stage changes from `self` to `next`.
    pub open spec fn moves_to(self, next: ScanState<E>, stage: ScanStage<E>) -> bool {
        next == (ScanState { stage, ..self })
    }

    /// The scan ends with `outcome`.
    pub open spec fn ends(
        self,
        next: ScanState<E>,
        action: ScanAction<E>,
        outcome: Result<(), LoaderError<E>>,
    ) -> bool {
        &&& self.moves_to(next, ScanStage::Finished)
        &&& action == ScanAction::Finish(outcome)
    }

    /// The upper bound of the range is `end`: below the start there is
    /// nothing to verify; else the store is asked whether it holds the start
    /// slot.
    pub open spec fn bounded(self, next: ScanState<E>, action: ScanAction<E>, end: Slot) -> bool {
        if end < self.start {
            self.ends(next, action, Ok(()))
        } else {
            &&& next == (ScanState {
                stage: ScanStage::StartCheck { end },
                top: Ghost(Some(end)),
                ..self
            })
            &&& action == ScanAction::<E>::GetStoredBlock { slot: self.start }
        }
    }

    /// A batch starts at `slot`: the store is asked for the block there.
    pub open spec fn opens_batch(self, next: ScanState<E>, action: ScanAction<E>, slot: Slot) -> bool {
        &&& next.start == self.start
        &&& next.batch_size == self.batch_size
        &&& next.commitment == self.commitment
        &&& next.retry == self.retry
        &&& next.top@ == self.top@
        &&& next.trail@ == self.trail@
        &&& next.handed@ == self.handed@
        &&& next.stage matches ScanStage::Stored { current, blocks }
        &&& current == slot
        &&& blocks@.len() == 0
        &&& action == ScanAction::<E>::GetStoredBlock { slot }
    }

    /// The block at `current` has been resolved, from the store or from the
    /// ledger. It joins the batch and the trail. Where the walk goes on and
    /// the batch is not full, the block's parent is next; else the batch goes
    /// to verification, lowest slot first.
    pub open spec fn visits(
        self,
        next: ScanState<E>,
        action: ScanAction<E>,
        current: Slot,
        blocks: Vec<(Slot, Block)>,
        block: Block,
    ) -> bool {
        let batch = blocks@.push((current, block));
        let parent = block.parent_slot;
        let more = walk_goes_on(self.start, current, parent);
        &&& next.start == self.start
        &&& next.batch_size == self.batch_size
        &&& next.commitment == self.commitment
        &&& next.retry == self.retry
        &&& next.top@ == self.top@
        &&& next.trail@ == self.trail@.push((current, parent))
        &&& if more && batch.len() < self.batch_size {
            &&& next.handed@ == self.handed@
            &&& next.stage matches ScanStage::Stored { current: onward, blocks: held }
            &&& onward == parent
            &&& held@ == batch
            &&& action == ScanAction::<E>::GetStoredBlock { slot: parent }
        } else {
            &&& next.handed@ == next.trail@.len()
            &&& next.stage matches ScanStage::Verify { pass, resume }
            &&& resume == if more {
                Some(parent)
            } else {
                None
            }
            &&& action matches ScanAction::Verify(first)
            &&& exists|visited: Vec<(Slot, Block)>|
                #[trigger] visited@ == batch.reverse() && Verification::begins(
                    visited,
                    self.retry,
                    pass,
                    first,
                )
        }
    }

    /// A step of the verification came back with `pass` and `outcome`. When
    /// the pass is over without failure, the next batch starts at `resume`,
    /// or the scan ends where the walk has ended.
    pub open spec fn verifies(
        self,
        next: ScanState<E>,
        action: ScanAction<E>,
        pass: Verification<E>,
        outcome: VerifyAction<E>,
        resume: Option<Slot>,
    ) -> bool {
        match outcome {
            VerifyAction::Done(Ok(())) => match resume {
                Some(slot) => self.opens_batch(next, action, slot),
                None => self.ends(next, action, Ok(())),
            },
            VerifyAction::Done(Err(error)) => self.ends(next, action, Err(error)),
            _ => {
                &&& self.moves_to(next, ScanStage::Verify { pass, resume })
                &&& action == ScanAction::Verify(outcome)
            },
        }
    }

    /// How one event takes the scan from `self` to `next` and which action
    /// comes out.
    pub open spec fn step(self, event: ScanEvent<E>, next: ScanState<E>, action: ScanAction<E>) -> bool {
        match (self.stage, event) {
            (ScanStage::LastSlot, ScanEvent::LastSlot(Ok(Some(end)))) => self.bounded(
                next,
                action,
                end,
            ),
            (ScanStage::LastSlot, ScanEvent::LastSlot(Ok(None))) => self.ends(next, action, Ok(())),
            (ScanStage::LastSlot, ScanEvent::LastSlot(Err(e))) => self.ends(
                next,
                action,
                Err(LoaderError::LastSlot(e)),
            ),
            (ScanStage::StartCheck { end }, ScanEvent::StoredBlock(Ok(Some(_)))) => {
                self.opens_batch(next, action, end)
            },
            (ScanStage::StartCheck { .. }, ScanEvent::StoredBlock(Ok(None))) => self.ends(
                next,
                action,
                Ok(()),
            ),
            (ScanStage::StartCheck { .. }, ScanEvent::StoredBlock(Err(e))) => self.ends(
                next,
                action,
                Err(LoaderError::Upstream(e)),
            ),
            (ScanStage::Stored { current, blocks }, ScanEvent::StoredBlock(Ok(Some(block)))) => {
                self.visits(next, action, current, blocks, block)
            },
            (ScanStage::Stored { current, blocks }, ScanEvent::StoredBlock(Ok(None))) => {
                &&& self.moves_to(next, ScanStage::Ledger { current, blocks })
                &&& action == ScanAction::<E>::LoadBlock { slot: current, commitment: self.commitment }
            },
            (ScanStage::Stored { .. }, ScanEvent::StoredBlock(Err(e))) => self.ends(
                next,
                action,
                Err(LoaderError::Upstream(e)),
            ),
            (ScanStage::Ledger { current, blocks }, ScanEvent::LoadedBlock(Ok(Some(block)))) => {
                self.visits(next, action, current, blocks, block)
            },
            (ScanStage::Ledger { current, .. }, ScanEvent::LoadedBlock(Ok(None))) => self.ends(
                next,
                action,
                Err(LoaderError::BlockNotFound { slot: current }),
            ),
            (ScanStage::Ledger { .. }, ScanEvent::LoadedBlock(Err(e))) => self.ends(
                next,
                action,
                Err(LoaderError::Upstream(e)),
            ),
            (ScanStage::Verify { pass, resume }, ScanEvent::Verify(answer)) => exists|
                after: Verification<E>,
                outcome: VerifyAction<E>,
            |
                {
                    &&& #[trigger] pass.step(answer, after, outcome)
                    &&& self.verifies(next, action, after, outcome, resume)
                },
            _ => self.ends(next, action, Err(LoaderError::UnexpectedEvent)),
        }
    }
}

/// Every step keeps the state well formed.
pub proof fn lemma_scan_step_wf<E>(
    before: ScanState<E>,
    event: ScanEvent<E>,
    after: ScanState<E>,
    action: ScanAction<E>,
)
    requires
        before.wf(),
        before.step(event, after, action),
    ensures
        after.wf(),
{
    match (before.stage, event) {
        (ScanStage::Stored { current, blocks }, ScanEvent::StoredBlock(Ok(Some(block)))) => {
            lemma_visit_links(before.trail@, before.start, current, block.parent_slot);
            lemma_visit_joins(
                blocks@,
                before.trail@,
                before.handed@,
                current,
                block,
                block.parent_slot,
            );
        },
        (ScanStage::Ledger { current, blocks }, ScanEvent::LoadedBlock(Ok(Some(block)))) => {
            lemma_visit_links(before.trail@, before.start, current, block.parent_slot);
            lemma_visit_joins(
                blocks@,
                before.trail@,
                before.handed@,
                current,
                block,
                block.parent_slot,
            );
        },
        _ => {
            lemma_fresh_batch(before.trail@);
            if after.stage is Stored {
                assert(after.stage->Stored_blocks@ =~= Seq::<(Slot, Block)>::empty());
            }
        },
    }
}

proof fn lemma_fresh_batch(trail: Seq<(Slot, Slot)>)
    ensures
        holds_unverified(Seq::<(Slot, Block)>::empty(), trail, trail.len()),
{
    assert(slots_of(Seq::<(Slot, Block)>::empty()) =~= trail_slots(trail).skip(
        trail.len() as int,
    ));
}

proof fn lemma_visit_joins(
    blocks: Seq<(Slot, Block)>,
    trail: Seq<(Slot, Slot)>,
    handed: nat,
    current: Slot,
    block: Block,
    parent: Slot,
)
    requires
        holds_unverified(blocks, trail, handed),
    ensures
        holds_unverified(blocks.push((current, block)), trail.push((current, parent)), handed),
{
    let batch = blocks.push((current, block));
    let walked = trail.push((current, parent));
    assert(slots_of(batch) =~= trail_slots(walked).skip(handed as int)) by {
        assert forall|k: int| 0 <= k < batch.len() implies slots_of(batch)[k] == trail_slots(
            walked,
        ).skip(handed as int)[k] by {
            if k < blocks.len() {
                assert(slots_of(blocks)[k] == trail_slots(trail).skip(handed as int)[k]);
            }
        }
    }
}

proof fn lemma_visit_links(trail: Seq<(Slot, Slot)>, start: Slot, current: Slot, parent: Slot)
    requires
        linked(trail, start),
        start <= current,
        trail.len() > 0 ==> current == trail.last().1 && walk_goes_on(
            start,
            trail.last().0,
            trail.last().1,
        ),
    ensures
        linked(trail.push((current, parent)), start),
{
    let walked = trail.push((current, parent));
    assert forall|i: int| 0 <= i < walked.len() - 1 implies (#[trigger] walked[i + 1]).0
        == walked[i].1 && walk_goes_on(start, walked[i].0, walked[i].1) by {
        if i + 1 < trail.len() {
            assert(walked[i + 1] == trail[i + 1]);
        }
    }
}

/// No slot is visited twice: along the trail the slots fall strictly.
pub proof fn lemma_no_slot_twice(trail: Seq<(Slot, Slot)>, start: Slot, i: int, j: int)
    requires
        linked(trail, start),
        0 <= i < j < trail.len(),
    ensures
        trail[j].0 < trail[i].0,
    decreases j - i,
{
    assert(trail[j - 1 + 1].0 == trail[j - 1].1);
    assert(walk_goes_on(start, trail[j - 1].0, trail[j - 1].1));
    if i < j - 1 {
        lemma_no_slot_twice(trail, start, i, j - 1);
    }
}

proof fn lemma_trail_falls(trail: Seq<(Slot, Slot)>, start: Slot, i: int)
    requires
        linked(trail, start),
        0 <= i < trail.len(),
    ensures
        start <= trail[i].0,
        trail[i].0 + i <= trail[0].0,
    decreases i,
{
    if i > 0 {
        lemma_trail_falls(trail, start, i - 1);
        assert(trail[i - 1 + 1].0 == trail[i - 1].1);
        assert(walk_goes_on(start, trail[i - 1].0, trail[i - 1].1));
    }
}

/// A scan visits no more slots than its range holds.
pub proof fn lemma_visits_are_bounded(trail: Seq<(Slot, Slot)>, start: Slot)
    requires
        linked(trail, start),
        trail.len() > 0,
    ensures
        trail.len() <= trail[0].0 - start + 1,
{
    lemma_trail_falls(trail, start, trail.len() - 1);
}

/// The visits that no pass has had yet, turned around, rise strictly.
proof fn lemma_batch_ascends(
    blocks: Seq<(Slot, Block)>,
    trail: Seq<(Slot, Slot)>,
    start: Slot,
    handed: nat,
)
    requires
        linked(trail, start),
        holds_unverified(blocks, trail, handed),
    ensures
        ascending(slots_of(blocks.reverse())),
        slots_of(blocks.reverse()) == trail_slots(trail).skip(handed as int).reverse(),
{
    let turned = blocks.reverse();
    assert(slots_of(turned) =~= slots_of(blocks).reverse());
    assert forall|i: int, j: int| 0 <= i < j < turned.len() implies slots_of(turned)[i]
        < slots_of(turned)[j] by {
        let a = blocks.len() - 1 - i;
        let b = blocks.len() - 1 - j;
        assert(slots_of(blocks)[a] == trail_slots(trail).skip(handed as int)[a]);
        assert(slots_of(blocks)[b] == trail_slots(trail).skip(handed as int)[b]);
        lemma_no_slot_twice(trail, start, handed + b, handed + a);
    }
}

/// Coverage: a scan that ends without failure after at least one visit has
/// covered the range. Its trail starts at the upper bound, follows every
/// parent link, and stops only where the walk cannot go on: at the start of
/// the range, or at a parent link that leaves the range or does not point
/// below its block.
pub proof fn lemma_finished_scan_covers<E>(
    before: ScanState<E>,
    event: ScanEvent<E>,
    after: ScanState<E>,
    action: ScanAction<E>,
)
    requires
        before.wf(),
        before.step(event, after, action),
        action == ScanAction::<E>::Finish(Ok(())),
        before.trail@.len() > 0,
    ensures
        after.trail@ == before.trail@,
        before.top@ matches Some(end) && covers(before.trail@, before.start, end),
        before.handed@ == before.trail@.len(),
{
}

/// Every batch that goes to verification holds exactly the visits that no
/// pass has had yet, lowest slot first.
pub proof fn lemma_batch_holds_the_unverified_visits<E>(
    before: ScanState<E>,
    event: ScanEvent<E>,
    after: ScanState<E>,
    action: ScanAction<E>,
    visited: Vec<(Slot, Block)>,
)
    requires
        before.wf(),
        before.step(event, after, action),
        before.stage is Stored || before.stage is Ledger,
        after.stage matches ScanStage::Verify { pass, .. } && action matches ScanAction::Verify(
            first,
        ) && Verification::begins(visited, before.retry, pass, first),
    ensures
        slots_of(visited@) == trail_slots(after.trail@).skip(before.handed@ as int).reverse(),
        ascending(slots_of(visited@)),
        after.handed@ == after.trail@.len(),
{
    lemma_scan_step_wf(before, event, after, action);
    match (before.stage, event) {
        (ScanStage::Stored { current, blocks }, ScanEvent::StoredBlock(Ok(Some(block)))) => {
            let batch = blocks@.push((current, block));
            lemma_visit_joins(
                blocks@,
                before.trail@,
                before.handed@,
                current,
                block,
                block.parent_slot,
            );
            lemma_batch_ascends(batch, after.trail@, before.start, before.handed@);
        },
        (ScanStage::Ledger { current, blocks }, ScanEvent::LoadedBlock(Ok(Some(block)))) => {
            let batch = blocks@.push((current, block));
            lemma_visit_joins(
                blocks@,
                before.trail@,
                before.handed@,
                current,
                block,
                block.parent_slot,
            );
            lemma_batch_ascends(batch, after.trail@, before.start, before.handed@);
        },
        _ => {},
    }
}

/// Termination: every step of a scan either ends the scan or lowers its
/// fuel; the one step that learns the upper bound from the store comes first
/// and is not counted.
pub proof fn lemma_scan_step_lowers_fuel<E>(
    before: ScanState<E>,
    event: ScanEvent<E>,
    after: ScanState<E>,
    action: ScanAction<E>,
)
    requires
        before.wf(),
        before.step(event, after, action),
    ensures
        action is Finish || before.stage is LastSlot || after.fuel() < before.fuel(),
        !(after.stage is LastSlot),
{
    match (before.stage, event) {
        (ScanStage::Verify { pass, resume }, ScanEvent::Verify(answer)) => {
            let (next, outcome) = choose|next: Verification<E>, outcome: VerifyAction<E>|
                {
                    &&& #[trigger] pass.step(answer, next, outcome)
                    &&& before.verifies(after, action, next, outcome, resume)
                };
            lemma_pass_rank(pass, answer, next, outcome);
        },
        _ => {},
    }
}

/// A run of the scan: every state but the first follows from the one before
/// it by one event, and gives one action.
pub open spec fn is_scan_run<E>(
    states: Seq<ScanState<E>>,
    events: Seq<ScanEvent<E>>,
    actions: Seq<ScanAction<E>>,
) -> bool {
    &&& states.len() == events.len() + 1
    &&& actions.len() == events.len()
    &&& states[0].wf()
    &&& forall|i: int|
        0 <= i < events.len() ==> states[i].step(#[trigger] events[i], states[i + 1], actions[i])
}

/// Termination, over a whole run: once the upper bound is known, a scan that
/// has not ended after `n` steps has used up `n` of the fuel it began with.
/// So no run is longer than its first fuel.
pub proof fn lemma_scan_run_is_bounded<E>(
    states: Seq<ScanState<E>>,
    events: Seq<ScanEvent<E>>,
    actions: Seq<ScanAction<E>>,
    n: int,
)
    requires
        is_scan_run(states, events, actions),
        !(states[0].stage is LastSlot),
        0 <= n <= events.len(),
        forall|i: int| 0 <= i < n ==> !((#[trigger] actions[i]) is Finish),
    ensures
        states[n].wf(),
        !(states[n].stage is LastSlot),
        states[n].fuel() + n <= states[0].fuel(),
    decreases n,
{
    if n > 0 {
        lemma_scan_run_is_bounded(states, events, actions, n - 1);
        assert(states[n - 1].step(events[n - 1], states[n], actions[n - 1]));
        assert(!(actions[n - 1] is Finish));
        lemma_scan_step_wf(states[n - 1], events[n - 1], states[n], actions[n - 1]);
        lemma_scan_step_lowers_fuel(states[n - 1], events[n - 1], states[n], actions[n - 1]);
    }
}

/// A backward scan over the range `[start, end]` of stored history.
pub struct Scan<E> {
    state: ScanState<E>,
}

impl<E> View for Scan<E> {
    type V = ScanState<E>;

    closed spec fn view(&self) -> ScanState<E> {
        self.state
    }
}

impl<E> Scan<E> {
    #[verifier::type_invariant]
    spec fn inv(self) -> bool {
        self.state.wf()
    }

    fn end(state: ScanState<E>, outcome: Result<(), LoaderError<E>>) -> (r: (ScanState<E>, ScanAction<E>))
        requires
            linked(state.trail@, state.start),
        ensures
            state.ends(r.0, r.1, outcome),
            r.0.wf(),
    {
        (ScanState { stage: ScanStage::Finished, ..state }, ScanAction::Finish(outcome))
    }

    fn bound(state: ScanState<E>, end: Slot) -> (r: (ScanState<E>, ScanAction<E>))
        requires
            state.trail@.len() == 0,
            state.handed@ == 0,
        ensures
            state.bounded(r.0, r.1, end),
            r.0.wf(),
    {
        if end < state.start {
            Self::end(state, Ok(()))
        } else {
            let slot = state.start;
            (
                ScanState { stage: ScanStage::StartCheck { end }, top: Ghost(Some(end)), ..state },
                ScanAction::GetStoredBlock { slot },
            )
        }
    }

    fn open_batch(state: ScanState<E>, slot: Slot) -> (r: (ScanState<E>, ScanAction<E>))
        requires
            linked(state.trail@, state.start),
            stands_at(state.trail@, state.top@, state.start, slot),
            state.handed@ == state.trail@.len(),
        ensures
            state.opens_batch(r.0, r.1, slot),
            r.0.wf(),
    {
        let blocks: Vec<(Slot, Block)> = Vec::new();
        proof {
            lemma_fresh_batch(state.trail@);
            assert(blocks@ =~= Seq::<(Slot, Block)>::empty());
        }
        (
            ScanState { stage: ScanStage::Stored { current: slot, blocks }, ..state },
            ScanAction::GetStoredBlock { slot },
        )
    }

    fn visit(state: ScanState<E>, current: Slot, blocks: Vec<(Slot, Block)>, block: Block) -> (r: (
        ScanState<E>,
        ScanAction<E>,
    ))
        requires
            linked(state.trail@, state.start),
            stands_at(state.trail@, state.top@, state.start, current),
            holds_unverified(blocks@, state.trail@, state.handed@),
        ensures
            state.visits(r.0, r.1, current, blocks, block),
            r.0.wf(),
    {
        let ScanState { start, batch_size, commitment, retry, stage: _, top, trail, handed } = state;
        let parent = block.parent_slot;
        let more = current > start && parent >= start && parent < current;
        let ghost batch = blocks@.push((current, block));
        let ghost walked = trail@.push((current, parent));
        proof {
            lemma_visit_links(trail@, start, current, parent);
            lemma_visit_joins(blocks@, trail@, handed@, current, block, parent);
        }
        let mut blocks = blocks;
        blocks.push((current, block));
        if more && (blocks.len() as u64) < batch_size {
            (
                ScanState {
                    start,
                    batch_size,
                    commitment,
                    retry,
                    stage: ScanStage::Stored { current: parent, blocks },
                    top,
                    trail: Ghost(walked),
                    handed,
                },
                ScanAction::GetStoredBlock { slot: parent },
            )
        } else {
            proof {
                lemma_batch_ascends(batch, walked, start, handed@);
            }
            let rising = reversed(blocks);
            let ghost visited = rising;
            let (pass, first) = Verification::begin(rising, retry);
            let resume = if more {
                Some(parent)
            } else {
                None
            };
            assert(visited@ == batch.reverse() && Verification::begins(
                visited,
                retry,
                pass,
                first,
            ));
            (
                ScanState {
                    start,
                    batch_size,
                    commitment,
                    retry,
                    stage: ScanStage::Verify { pass, resume },
                    top,
                    trail: Ghost(walked),
                    handed: Ghost(walked.len()),
                },
                ScanAction::Verify(first),
            )
        }
    }

    fn verify(
        state: ScanState<E>,
        pass: Verification<E>,
        outcome: VerifyAction<E>,
        resume: Option<Slot>,
    ) -> (r: (ScanState<E>, ScanAction<E>))
        requires
            linked(state.trail@, state.start),
            state.trail@.len() > 0,
            state.handed@ == state.trail@.len(),
            state.top@ == Some(state.trail@[0].0),
            match resume {
                Some(next) => stands_at(state.trail@, state.top@, state.start, next),
                None => !walk_goes_on(state.start, state.trail@.last().0, state.trail@.last().1),
            },
        ensures
            state.verifies(r.0, r.1, pass, outcome, resume),
            r.0.wf(),
    {
        match outcome {
            VerifyAction::Done(Ok(())) => match resume {
                Some(slot) => Self::open_batch(state, slot),
                None => Self::end(state, Ok(())),
            },
            VerifyAction::Done(Err(error)) => Self::end(state, Err(error)),
            other => (
                ScanState { stage: ScanStage::Verify { pass, resume }, ..state },
                ScanAction::Verify(other),
            ),
        }
    }

    fn react(state: ScanState<E>, event: ScanEvent<E>) -> (r: (ScanState<E>, ScanAction<E>))
        requires
            state.wf(),
        ensures
            state.step(event, r.0, r.1),
            r.0.wf(),
    {
        let mut state = state;
        let mut stage = ScanStage::LastSlot;
        std::mem::swap(&mut stage, &mut state.stage);
        let commitment = state.commitment;
        match (stage, event) {
            (ScanStage::LastSlot, ScanEvent::LastSlot(Ok(Some(end)))) => Self::bound(state, end),
            (ScanStage::LastSlot, ScanEvent::LastSlot(Ok(None))) => Self::end(state, Ok(())),
            (ScanStage::LastSlot, ScanEvent::LastSlot(Err(e))) => {
                Self::end(state, Err(LoaderError::LastSlot(e)))
            },
            (ScanStage::StartCheck { end }, ScanEvent::StoredBlock(Ok(Some(_)))) => {
                Self::open_batch(state, end)
            },
            (ScanStage::StartCheck { .. }, ScanEvent::StoredBlock(Ok(None))) => {
                Self::end(state, Ok(()))
            },
            (ScanStage::StartCheck { .. }, ScanEvent::StoredBlock(Err(e))) => {
                Self::end(state, Err(LoaderError::Upstream(e)))
            },
            (ScanStage::Stored { current, blocks }, ScanEvent::StoredBlock(Ok(Some(block)))) => {
                Self::visit(state, current, blocks, block)
            },
            (ScanStage::Stored { current, blocks }, ScanEvent::StoredBlock(Ok(None))) => (
                ScanState { stage: ScanStage::Ledger { current, blocks }, ..state },
                ScanAction::LoadBlock { slot: current, commitment },
            ),
            (ScanStage::Stored { .. }, ScanEvent::StoredBlock(Err(e))) => {
                Self::end(state, Err(LoaderError::Upstream(e)))
            },
            (ScanStage::Ledger { current, blocks }, ScanEvent::LoadedBlock(Ok(Some(block)))) => {
                Self::visit(state, current, blocks, block)
            },
            (ScanStage::Ledger { current, .. }, ScanEvent::LoadedBlock(Ok(None))) => {
                Self::end(state, Err(LoaderError::BlockNotFound { slot: current }))
            },
            (ScanStage::Ledger { .. }, ScanEvent::LoadedBlock(Err(e))) => {
                Self::end(state, Err(LoaderError::Upstream(e)))
            },
            (ScanStage::Verify { pass, resume }, ScanEvent::Verify(answer)) => {
                let (after, outcome) = pass.advance(answer);
                Self::verify(state, after, outcome, resume)
            },
            _ => Self::end(state, Err(LoaderError::UnexpectedEvent)),
        }
    }

    /// How a scan of the range from `start` up to `end` starts. Where no end
    /// is given the store is asked for its last slot; where the end lies
    /// below the start the scan is over at once; else the store is asked
    /// whether it holds the start slot.
    pub open spec fn begins(
        start: Slot,
        end: Option<Slot>,
        batch_size: u64,
        commitment: Commitment,
        retry: RetryPolicy,
        scan: Scan<E>,
        action: ScanAction<E>,
    ) -> bool {
        &&& scan@.wf()
        &&& scan@.start == start
        &&& scan@.batch_size == batch_size
        &&& scan@.commitment == commitment
        &&& scan@.retry == retry
        &&& scan@.trail@.len() == 0
        &&& scan@.handed@ == 0
        &&& match end {
            None => scan@.stage is LastSlot && action == ScanAction::<E>::GetLastSlot,
            Some(end) => if end < start {
                scan@.stage is Finished && action == ScanAction::<E>::Finish(Ok(()))
            } else {
                &&& scan@.stage == ScanStage::<E>::StartCheck { end }
                &&& action == ScanAction::<E>::GetStoredBlock { slot: start }
            },
        }
    }

    /// Starts a scan.
    pub fn begin(
        start: Slot,
        end: Option<Slot>,
        batch_size: u64,
        commitment: Commitment,
        retry: RetryPolicy,
    ) -> (r: (Scan<E>, ScanAction<E>))
        ensures
            Self::begins(start, end, batch_size, commitment, retry, r.0, r.1),
    {
        let state = ScanState {
            start,
            batch_size,
            commitment,
            retry,
            stage: ScanStage::LastSlot,
            top: Ghost(None),
            trail: Ghost(Seq::empty()),
            handed: Ghost(0),
        };
        match end {
            None => (Scan { state }, ScanAction::GetLastSlot),
            Some(end) => {
                let (state, action) = Self::bound(state, end);
                (Scan { state }, action)
            },
        }
    }

    /// Takes the answer to the action that is out and decides what comes
    /// next.
    pub fn advance(self, event: ScanEvent<E>) -> (r: (Scan<E>, ScanAction<E>))
        ensures
            self@.wf(),
            r.0@.wf(),
            self@.step(event, r.0@, r.1),
    {
        proof {
            use_type_invariant(&self);
        }
        let (state, action) = Self::react(self.state, event);
        (Scan { state }, action)
    }
}

} // verus!
