//! The forward sync path: the cursor, the batches that advance it, and the
//! finality watermark.
use crate::batch::{
    ascending, batch_end, batch_end_of, batch_slots, lemma_slot_range_ascends, load_blocks, loaded,
    slot_range, unresolved,
};
use crate::error::LoaderError;
use crate::fetcher::RetryPolicy;
use crate::ledger::{Block, Commitment, Slot};
use crate::reorg::{slots_ascend, slots_of, Verification, VerifyAction, VerifyEvent};
use std::collections::BTreeMap;
use vstd::prelude::*;

verus! {

/// Puts the two tips together: the confirmed one, then the finalized one.
/// The pair is there only if both could be read.
pub fn get_latest_slots<E>(confirmed: Result<Slot, E>, finalized: Result<Slot, E>) -> (r: Result<
    (Slot, Slot),
    LoaderError<E>,
>)
    ensures
        r == match (confirmed, finalized) {
            (Ok(c), Ok(f)) => Ok::<(Slot, Slot), LoaderError<E>>((c, f)),
            _ => Err(LoaderError::LatestSlots),
        },
{
    match (confirmed, finalized) {
        (Ok(c), Ok(f)) => Ok((c, f)),
        _ => Err(LoaderError::LatestSlots),
    }
}

/// The slot to start from: the last one that the store holds, else the one
/// the caller supplies. There is no default.
pub open spec fn first_cursor_of<E>(
    last_stored: Result<Option<Slot>, E>,
    start_slot: Option<Slot>,
) -> Result<Slot, LoaderError<E>> {
    match last_stored {
        Err(e) => Err(LoaderError::Upstream(e)),
        Ok(Some(last)) => Ok(last),
        Ok(None) => match start_slot {
            Some(start) => Ok(start),
            None => Err(LoaderError::MissingStartSlot),
        },
    }
}

/// Picks the slot to start from.
pub fn first_cursor<E>(last_stored: Result<Option<Slot>, E>, start_slot: Option<Slot>) -> (r: Result<
    Slot,
    LoaderError<E>,
>)
    ensures
        r == first_cursor_of(last_stored, start_slot),
{
    match last_stored {
        Err(e) => Err(LoaderError::Upstream(e)),
        Ok(Some(last)) => Ok(last),
        Ok(None) => match start_slot {
            Some(start) => Ok(start),
            None => Err(LoaderError::MissingStartSlot),
        },
    }
}

/// Where the driver stands within a catch-up cycle.
#[derive(Debug, PartialEq)]
pub enum DriverStage<E> {
    /// The two tips have been asked for.
    Tips,
    /// The blocks of `[from, to)` have been asked for.
    Batch { from: Slot, to: Slot, confirmed: Slot, finalized: Slot },
    /// The store has been asked to persist the batch `[from, to)`.
    Store { from: Slot, to: Slot, confirmed: Slot, finalized: Slot },
    /// The store has been asked to commit the finalized tip. The cycle has
    /// persisted every slot below `reached`.
    Finalize { reached: Slot },
    /// The blocks that just became finalized are under verification.
    Verify { pass: Verification<E>, reached: Slot },
    /// The one-shot signal has been handed out.
    Signal,
    /// The driver sleeps for one poll interval.
    Sleep,
    /// The driver has stopped for good.
    Stopped,
}

/// The state of the sync driver.
pub struct DriverState<E> {
    /// The next slot that has not been processed. It moves only when a whole
    /// cycle has succeeded: batches, watermark and verification.
    pub cursor: Slot,
    /// The most slots that one batch holds.
    pub batch_size: u64,
    /// The commitment level under which batches are loaded.
    pub commitment: Commitment,
    /// The poll interval, in milliseconds.
    pub interval_ms: u64,
    /// The retries that go out with the header requests of a verification.
    pub retry: RetryPolicy,
    /// Whether the cursor has reached the confirmed tip before. Until then a
    /// failure is fatal; from then on it is logged and the cycle is retried.
    pub caught_up: bool,
    pub stage: DriverStage<E>,
    /// The ranges that the store has persisted in the cycle under way, in
    /// order.
    pub persisted: Ghost<Seq<(Slot, Slot)>>,
}

/// What the driver asks for next.
#[derive(Debug, PartialEq)]
pub enum DriverAction<E> {
    /// Read the confirmed and the finalized tip.
    QueryTips,
    /// Load every slot of the list, all at once.
    LoadBlocks { slots: Vec<Slot>, commitment: Commitment },
    /// Persist the batch together with the finalized tip.
    StoreBlocks { blocks: BTreeMap<Slot, Block>, finalized: Slot },
    /// Commit the finalized tip; the store answers with the blocks that just
    /// became finalized.
    SetFinalized { slot: Slot },
    /// A step of the verification of newly finalized blocks.
    Verify(VerifyAction<E>),
    /// Fire the one-shot signal: the mirror is live.
    NotifyCaughtUp,
    /// Sleep for one poll interval of `millis` milliseconds. `error` is what
    /// the cycle failed with, to be logged; it is not handed on.
    Sleep { millis: u64, error: Option<LoaderError<E>> },
    /// Stop: the driver failed before the mirror was ever live, or it was
    /// advanced with an event it had not asked for.
    Stop(LoaderError<E>),
}

/// What the collaborators answered.
#[derive(Debug, PartialEq)]
pub enum DriverEvent<E> {
    /// The answers to `QueryTips`.
    Tips { confirmed: Result<Slot, E>, finalized: Result<Slot, E> },
    /// The answers to `LoadBlocks`, one for each slot, in order.
    Loaded(Vec<Result<Option<Block>, E>>),
    /// The store's answer to `StoreBlocks`.
    Stored(Result<(), E>),
    /// The store's answer to `SetFinalized`: the blocks that just became
    /// finalized, by rising slot.
    Finalized(Result<Vec<(Slot, Block)>, E>),
    /// The answer to a step of the verification.
    Verify(VerifyEvent<E>),
    /// The one-shot signal was fired.
    Notified,
    /// The poll interval is over.
    Woke,
}

/// The ranges follow one another without a gap from `from` up to `to`.
pub open spec fn tiles(ranges: Seq<(Slot, Slot)>, from: Slot, to: Slot) -> bool {
    if ranges.len() == 0 {
        from == to
    } else {
        &&& ranges[0].0 == from
        &&& ranges.last().1 == to
        &&& forall|i: int| 0 <= i < ranges.len() - 1 ==> ranges[i].1 == (#[trigger] ranges[i + 1]).0
        &&& forall|i: int| 0 <= i < ranges.len() ==> (#[trigger] ranges[i]).0 <= ranges[i].1
    }
}

impl<E> DriverState<E> {
    /// How far the cycle under way has come: the slot below which it has
    /// persisted everything from the cursor on. Between cycles it is the
    /// cursor.
    pub open spec fn position(self) -> Slot {
        match self.stage {
            DriverStage::Batch { from, .. } => from,
            DriverStage::Store { from, .. } => from,
            DriverStage::Finalize { reached } => reached,
            DriverStage::Verify { reached, .. } => reached,
            _ => self.cursor,
        }
    }

    /// Within a cycle the persisted ranges tile the slots from the cursor up
    /// to the position; a batch that is under way starts at the position and
    /// ends at or below the confirmed tip.
    pub open spec fn wf(self) -> bool {
        match self.stage {
            DriverStage::Batch { from, to, confirmed, .. } => {
                &&& from <= to <= confirmed
                &&& tiles(self.persisted@, self.cursor, from)
            },
            DriverStage::Store { from, to, confirmed, .. } => {
                &&& from <= to <= confirmed
                &&& tiles(self.persisted@, self.cursor, from)
            },
            DriverStage::Finalize { reached } => tiles(self.persisted@, self.cursor, reached),
            DriverStage::Verify { reached, .. } => tiles(self.persisted@, self.cursor, reached),
            _ => true,
        }
    }

    /// Nothing but the stage changes from `self` to `next`.
    pub open spec fn moves_to(self, next: DriverState<E>, stage: DriverStage<E>) -> bool {
        next == (DriverState { stage, ..self })
    }

    /// The cycle has failed with `error`. The cursor stays where the cycle
    /// started. Before the mirror was ever live the driver stops; afterwards
    /// it sleeps and will retry from the same cursor.
    pub open spec fn fails(
        self,
        next: DriverState<E>,
        action: DriverAction<E>,
        error: LoaderError<E>,
    ) -> bool {
        if self.caught_up {
            &&& self.moves_to(next, DriverStage::Sleep)
            &&& action == DriverAction::Sleep { millis: self.interval_ms, error: Some(error) }
        } else {
            &&& self.moves_to(next, DriverStage::Stopped)
            &&& action == DriverAction::Stop(error)
        }
    }

    /// The cycle has persisted `done` and stands at `from`: below the
    /// confirmed tip the next batch is asked for; at the tip the finalized
    /// tip is committed. The cursor stays.
    pub open spec fn continues(
        self,
        next: DriverState<E>,
        action: DriverAction<E>,
        done: Seq<(Slot, Slot)>,
        from: Slot,
        confirmed: Slot,
        finalized: Slot,
    ) -> bool {
        if from < confirmed {
            let to = batch_end_of(from, confirmed, self.batch_size) as Slot;
            &&& next == (DriverState {
                stage: DriverStage::Batch { from, to, confirmed, finalized },
                persisted: next.persisted,
                ..self
            })
            &&& next.persisted@ == done
            &&& action matches DriverAction::LoadBlocks { slots, commitment }
            &&& slots@ == slot_range(from, to)
            &&& commitment == self.commitment
        } else {
            &&& next == (DriverState {
                stage: DriverStage::Finalize { reached: from },
                persisted: next.persisted,
                ..self
            })
            &&& next.persisted@ == done
            &&& action == DriverAction::<E>::SetFinalized { slot: finalized }
        }
    }

    /// The cycle is over without failure, having reached `reached`: the
    /// cursor moves there. The first time the signal is fired, every other
    /// time the driver goes to sleep.
    pub open spec fn settles(
        self,
        next: DriverState<E>,
        action: DriverAction<E>,
        reached: Slot,
    ) -> bool {
        if self.caught_up {
            &&& next == (DriverState { cursor: reached, stage: DriverStage::Sleep, ..self })
            &&& action == DriverAction::<E>::Sleep { millis: self.interval_ms, error: None }
        } else {
            &&& next == (DriverState {
                cursor: reached,
                caught_up: true,
                stage: DriverStage::Signal,
                ..self
            })
            &&& action == DriverAction::<E>::NotifyCaughtUp
        }
    }

    /// A step of the verification came back with `pass` and `outcome`.
    pub open spec fn verifies(
        self,
        next: DriverState<E>,
        action: DriverAction<E>,
        pass: Verification<E>,
        outcome: VerifyAction<E>,
        reached: Slot,
    ) -> bool {
        match outcome {
            VerifyAction::Done(Ok(())) => self.settles(next, action, reached),
            VerifyAction::Done(Err(error)) => self.fails(next, action, error),
            _ => {
                &&& self.moves_to(next, DriverStage::Verify { pass, reached })
                &&& action == DriverAction::Verify(outcome)
            },
        }
    }

    /// The driver stops: it was advanced with an event that does not answer
    /// the action that is out.
    pub open spec fn halts(self, next: DriverState<E>, action: DriverAction<E>) -> bool {
        &&& self.moves_to(next, DriverStage::Stopped)
        &&& action == DriverAction::<E>::Stop(LoaderError::UnexpectedEvent)
    }

    /// How one event takes the driver from `self` to `next` and which action
    /// comes out.
    pub open spec fn step(
        self,
        event: DriverEvent<E>,
        next: DriverState<E>,
        action: DriverAction<E>,
    ) -> bool {
        match (self.stage, event) {
            (DriverStage::Tips, DriverEvent::Tips { confirmed: Ok(c), finalized: Ok(f) }) => {
                self.continues(next, action, Seq::empty(), self.cursor, c, f)
            },
            (DriverStage::Tips, DriverEvent::Tips { .. }) => {
                &&& self.moves_to(next, DriverStage::Sleep)
                &&& action == DriverAction::Sleep {
                    millis: self.interval_ms,
                    error: Some(LoaderError::<E>::LatestSlots),
                }
            },
            (
                DriverStage::Batch { from, to, confirmed, finalized },
                DriverEvent::Loaded(outcomes),
            ) => {
                let slots = slot_range(from, to);
                if unresolved(slots, outcomes@).len() == 0 {
                    &&& self.moves_to(next, DriverStage::Store { from, to, confirmed, finalized })
                    &&& action matches DriverAction::StoreBlocks { blocks, finalized: watermark }
                    &&& blocks@ == loaded(slots, outcomes@)
                    &&& watermark == finalized
                } else {
                    exists|named: Vec<Slot>|
                        {
                            &&& #[trigger] named@ == unresolved(slots, outcomes@)
                            &&& self.fails(next, action, LoaderError::BatchFailed { slots: named })
                        }
                }
            },
            (
                DriverStage::Store { from, to, confirmed, finalized },
                DriverEvent::Stored(Ok(())),
            ) => self.continues(
                next,
                action,
                self.persisted@.push((from, to)),
                to,
                confirmed,
                finalized,
            ),
            (DriverStage::Store { .. }, DriverEvent::Stored(Err(e))) => self.fails(
                next,
                action,
                LoaderError::Upstream(e),
            ),
            (DriverStage::Finalize { reached }, DriverEvent::Finalized(Ok(blocks))) => {
                if ascending(slots_of(blocks@)) {
                    exists|pass: Verification<E>, outcome: VerifyAction<E>|
                        {
                            &&& #[trigger] Verification::begins(blocks, self.retry, pass, outcome)
                            &&& self.verifies(next, action, pass, outcome, reached)
                        }
                } else {
                    self.halts(next, action)
                }
            },
            (DriverStage::Finalize { .. }, DriverEvent::Finalized(Err(e))) => self.fails(
                next,
                action,
                LoaderError::Upstream(e),
            ),
            (DriverStage::Verify { pass, reached }, DriverEvent::Verify(answer)) => exists|
                after: Verification<E>,
                outcome: VerifyAction<E>,
            |
                {
                    &&& #[trigger] pass.step(answer, after, outcome)
                    &&& self.verifies(next, action, after, outcome, reached)
                },
            (DriverStage::Signal, DriverEvent::Notified) => {
                &&& self.moves_to(next, DriverStage::Sleep)
                &&& action == DriverAction::<E>::Sleep { millis: self.interval_ms, error: None }
            },
            (DriverStage::Sleep, DriverEvent::Woke) => {
                &&& self.moves_to(next, DriverStage::Tips)
                &&& action == DriverAction::<E>::QueryTips
            },
            _ => self.halts(next, action),
        }
    }
}

/// A run of the driver: every state but the first follows from the one
/// before it by one event, and gives one action.
pub open spec fn is_run<E>(
    states: Seq<DriverState<E>>,
    events: Seq<DriverEvent<E>>,
    actions: Seq<DriverAction<E>>,
) -> bool {
    &&& states.len() == events.len() + 1
    &&& actions.len() == events.len()
    &&& states[0].wf()
    &&& forall|i: int|
        0 <= i < events.len() ==> states[i].step(#[trigger] events[i], states[i + 1], actions[i])
}

proof fn lemma_tiles_grow(ranges: Seq<(Slot, Slot)>, cursor: Slot, from: Slot, to: Slot)
    requires
        tiles(ranges, cursor, from),
        from <= to,
    ensures
        tiles(ranges.push((from, to)), cursor, to),
        cursor <= from,
{
    let more = ranges.push((from, to));
    lemma_tiles_rise(ranges, cursor, from);
    assert forall|i: int| 0 <= i < more.len() - 1 implies more[i].1 == (#[trigger] more[i
        + 1]).0 by {
        if i + 1 < ranges.len() {
            assert(more[i + 1] == ranges[i + 1]);
        }
    }
    assert forall|i: int| 0 <= i < more.len() implies (#[trigger] more[i]).0 <= more[i].1 by {
        if i < ranges.len() {
            assert(more[i] == ranges[i]);
        }
    }
}

proof fn lemma_tiles_rise(ranges: Seq<(Slot, Slot)>, from: Slot, to: Slot)
    requires
        tiles(ranges, from, to),
    ensures
        from <= to,
    decreases ranges.len(),
{
    if ranges.len() > 1 {
        let front = ranges.drop_last();
        assert forall|i: int| 0 <= i < front.len() - 1 implies front[i].1 == (#[trigger] front[i
            + 1]).0 by {
            assert(front[i + 1] == ranges[i + 1]);
        }
        assert forall|i: int| 0 <= i < front.len() implies (#[trigger] front[i]).0
            <= front[i].1 by {
            assert(front[i] == ranges[i]);
        }
        assert(front.last().1 == ranges[ranges.len() - 2 + 1].0);
        lemma_tiles_rise(front, from, ranges.last().0);
        assert(ranges[ranges.len() - 1].0 <= ranges[ranges.len() - 1].1);
    } else if ranges.len() == 1 {
        assert(ranges[0].0 <= ranges[0].1);
    }
}

/// No partial advance: one step never moves the cursor back, and moves it
/// forward only when a whole cycle settles. The cursor then moves to the
/// position that the cycle has reached, and the ranges that the store has
/// persisted in the cycle tile the slots in between without a gap. A cycle
/// that fails leaves the cursor where it was.
pub proof fn lemma_step_cursor<E>(
    before: DriverState<E>,
    event: DriverEvent<E>,
    after: DriverState<E>,
    action: DriverAction<E>,
)
    requires
        before.wf(),
        before.step(event, after, action),
    ensures
        after.wf(),
        before.cursor <= after.cursor,
        before.cursor != after.cursor ==> {
            &&& before.stage is Finalize || before.stage is Verify
            &&& after.cursor == before.position()
            &&& tiles(before.persisted@, before.cursor, after.cursor)
            &&& action is NotifyCaughtUp || action matches DriverAction::Sleep { error: None, .. }
        },
        action matches DriverAction::Sleep { error: Some(_), .. } ==> after.cursor
            == before.cursor,
        action is Stop ==> after.cursor == before.cursor,
{
    match (before.stage, event) {
        (DriverStage::Store { from, to, .. }, DriverEvent::Stored(Ok(()))) => {
            lemma_tiles_grow(before.persisted@, before.cursor, from, to);
        },
        (DriverStage::Finalize { reached }, _) => {
            lemma_tiles_rise(before.persisted@, before.cursor, reached);
        },
        (DriverStage::Verify { reached, .. }, _) => {
            lemma_tiles_rise(before.persisted@, before.cursor, reached);
        },
        _ => {},
    }
}

/// The position within a cycle moves forward only when the store has
/// persisted a batch: then from the start of that batch to its end, and the
/// range joins the persisted ones.
pub proof fn lemma_step_position<E>(
    before: DriverState<E>,
    event: DriverEvent<E>,
    after: DriverState<E>,
    action: DriverAction<E>,
)
    requires
        before.wf(),
        before.step(event, after, action),
        before.position() < after.position(),
    ensures
        before.stage matches DriverStage::Store { from, to, .. } && {
            &&& event matches DriverEvent::Stored(Ok(_))
            &&& before.position() == from
            &&& after.position() == to
            &&& after.persisted@ == before.persisted@.push((from, to))
        },
{
    match (before.stage, event) {
        (DriverStage::Finalize { reached }, _) => {
            lemma_tiles_rise(before.persisted@, before.cursor, reached);
        },
        (DriverStage::Verify { reached, .. }, _) => {
            lemma_tiles_rise(before.persisted@, before.cursor, reached);
        },
        (DriverStage::Batch { from, .. }, _) => {
            lemma_tiles_rise(before.persisted@, before.cursor, from);
        },
        (DriverStage::Store { from, .. }, _) => {
            lemma_tiles_rise(before.persisted@, before.cursor, from);
        },
        _ => {},
    }
}

/// The one-shot signal fires once: it goes out exactly in the step that
/// first finds the mirror caught up, and the mirror stays caught up from then
/// on.
pub proof fn lemma_signal_fires_once<E>(
    before: DriverState<E>,
    event: DriverEvent<E>,
    after: DriverState<E>,
    action: DriverAction<E>,
)
    requires
        before.step(event, after, action),
    ensures
        action is NotifyCaughtUp <==> !before.caught_up && after.caught_up,
        before.caught_up ==> after.caught_up,
{
}

/// A mirror that is live keeps running: once the driver has caught up, no
/// failure of a collaborator stops it. It stops only when it is advanced with
/// an event that it had not asked for.
pub proof fn lemma_live_driver_keeps_running<E>(
    before: DriverState<E>,
    event: DriverEvent<E>,
    after: DriverState<E>,
    action: DriverAction<E>,
)
    requires
        before.caught_up,
        before.step(event, after, action),
    ensures
        action matches DriverAction::Stop(error) ==> error == LoaderError::<E>::UnexpectedEvent,
{
}

/// Every state of a run is well formed.
pub proof fn lemma_run_wf<E>(
    states: Seq<DriverState<E>>,
    events: Seq<DriverEvent<E>>,
    actions: Seq<DriverAction<E>>,
    i: int,
)
    requires
        is_run(states, events, actions),
        0 <= i < states.len(),
    ensures
        states[i].wf(),
    decreases i,
{
    if i > 0 {
        lemma_run_wf(states, events, actions, i - 1);
        assert(states[i - 1].step(events[i - 1], states[i], actions[i - 1]));
        lemma_step_cursor(states[i - 1], events[i - 1], states[i], actions[i - 1]);
    }
}

/// Cursor monotonicity: over any run, whatever the events, the cursor never
/// decreases.
pub proof fn lemma_cursor_monotone<E>(
    states: Seq<DriverState<E>>,
    events: Seq<DriverEvent<E>>,
    actions: Seq<DriverAction<E>>,
    i: int,
    j: int,
)
    requires
        is_run(states, events, actions),
        0 <= i <= j < states.len(),
    ensures
        states[i].cursor <= states[j].cursor,
    decreases j - i,
{
    if i < j {
        lemma_cursor_monotone(states, events, actions, i, j - 1);
        lemma_run_wf(states, events, actions, j - 1);
        assert(states[j - 1].step(events[j - 1], states[j], actions[j - 1]));
        lemma_step_cursor(states[j - 1], events[j - 1], states[j], actions[j - 1]);
    }
}

/// No gaps: in a run that starts at the query for the tips, whenever the
/// position moves from `a` to `b`, the step before it settled the batch of
/// exactly the slots `[a, b)`, every one of them resolved, and handed the
/// store what they loaded.
pub proof fn lemma_advance_covers_range<E>(
    states: Seq<DriverState<E>>,
    events: Seq<DriverEvent<E>>,
    actions: Seq<DriverAction<E>>,
    i: int,
)
    requires
        is_run(states, events, actions),
        states[0].stage is Tips,
        0 <= i < events.len(),
        states[i].position() < states[i + 1].position(),
    ensures
        i > 0,
        states[i - 1].position() == states[i].position(),
        events[i - 1] matches DriverEvent::Loaded(outcomes) && {
            let slots = slot_range(states[i].position(), states[i + 1].position());
            &&& unresolved(slots, outcomes@).len() == 0
            &&& actions[i - 1] matches DriverAction::StoreBlocks { blocks, .. }
            &&& blocks@ == loaded(slots, outcomes@)
        },
{
    lemma_run_wf(states, events, actions, i);
    assert(states[i].step(events[i], states[i + 1], actions[i]));
    lemma_step_position(states[i], events[i], states[i + 1], actions[i]);
    assert(states[i].stage is Store);
    assert(i > 0);
    lemma_run_wf(states, events, actions, i - 1);
    assert(states[i - 1].step(events[i - 1], states[i], actions[i - 1]));
}

/// The sync driver: it owns the cursor and is the only one to advance it.
pub struct SyncDriver<E> {
    state: DriverState<E>,
}

impl<E> View for SyncDriver<E> {
    type V = DriverState<E>;

    closed spec fn view(&self) -> DriverState<E> {
        self.state
    }
}

impl<E> SyncDriver<E> {
    #[verifier::type_invariant]
    spec fn inv(self) -> bool {
        self.state.wf()
    }

    /// How the driver starts. The cursor is the last slot that the store
    /// holds, else `start_slot`; with neither, and where the store could not
    /// be read, the start fails. The first action asks for the tips.
    pub open spec fn starts(
        last_stored: Result<Option<Slot>, E>,
        start_slot: Option<Slot>,
        batch_size: u64,
        commitment: Commitment,
        interval_ms: u64,
        retry: RetryPolicy,
        r: Result<(SyncDriver<E>, DriverAction<E>), LoaderError<E>>,
    ) -> bool {
        match r {
            Ok((driver, action)) => {
                &&& first_cursor_of(last_stored, start_slot) == Ok::<Slot, LoaderError<E>>(
                    driver@.cursor,
                )
                &&& driver@.batch_size == batch_size
                &&& driver@.commitment == commitment
                &&& driver@.interval_ms == interval_ms
                &&& driver@.retry == retry
                &&& !driver@.caught_up
                &&& driver@.stage is Tips
                &&& action == DriverAction::<E>::QueryTips
            },
            Err(error) => first_cursor_of(last_stored, start_slot) == Err::<Slot, LoaderError<E>>(
                error,
            ),
        }
    }

    /// Starts the driver.
    pub fn start(
        last_stored: Result<Option<Slot>, E>,
        start_slot: Option<Slot>,
        batch_size: u64,
        commitment: Commitment,
        interval_ms: u64,
        retry: RetryPolicy,
    ) -> (r: Result<(SyncDriver<E>, DriverAction<E>), LoaderError<E>>)
        ensures
            Self::starts(last_stored, start_slot, batch_size, commitment, interval_ms, retry, r),
    {
        match first_cursor(last_stored, start_slot) {
            Ok(cursor) => Ok(
                (
                    SyncDriver {
                        state: DriverState {
                            cursor,
                            batch_size,
                            commitment,
                            interval_ms,
                            retry,
                            caught_up: false,
                            stage: DriverStage::Tips,
                            persisted: Ghost(Seq::empty()),
                        },
                    },
                    DriverAction::QueryTips,
                ),
            ),
            Err(error) => Err(error),
        }
    }

    /// The next slot that has not been processed.
    pub fn cursor(&self) -> (cursor: Slot)
        ensures
            cursor == self@.cursor,
    {
        self.state.cursor
    }

    /// Whether the cursor has reached the confirmed tip before.
    pub fn caught_up(&self) -> (live: bool)
        ensures
            live == self@.caught_up,
    {
        self.state.caught_up
    }

    fn fail(state: DriverState<E>, error: LoaderError<E>) -> (r: (DriverState<E>, DriverAction<E>))
        ensures
            state.fails(r.0, r.1, error),
            r.0.wf(),
    {
        if state.caught_up {
            let millis = state.interval_ms;
            (
                DriverState { stage: DriverStage::Sleep, ..state },
                DriverAction::Sleep { millis, error: Some(error) },
            )
        } else {
            (DriverState { stage: DriverStage::Stopped, ..state }, DriverAction::Stop(error))
        }
    }

    fn halt(state: DriverState<E>) -> (r: (DriverState<E>, DriverAction<E>))
        ensures
            state.halts(r.0, r.1),
            r.0.wf(),
    {
        (
            DriverState { stage: DriverStage::Stopped, ..state },
            DriverAction::Stop(LoaderError::UnexpectedEvent),
        )
    }

    fn proceed(
        state: DriverState<E>,
        done: Ghost<Seq<(Slot, Slot)>>,
        from: Slot,
        confirmed: Slot,
        finalized: Slot,
    ) -> (r: (DriverState<E>, DriverAction<E>))
        requires
            tiles(done@, state.cursor, from),
        ensures
            state.continues(r.0, r.1, done@, from, confirmed, finalized),
            r.0.wf(),
    {
        if from < confirmed {
            let to = batch_end(from, confirmed, state.batch_size);
            let slots = batch_slots(from, to);
            let commitment = state.commitment;
            (
                DriverState {
                    stage: DriverStage::Batch { from, to, confirmed, finalized },
                    persisted: done,
                    ..state
                },
                DriverAction::LoadBlocks { slots, commitment },
            )
        } else {
            (
                DriverState {
                    stage: DriverStage::Finalize { reached: from },
                    persisted: done,
                    ..state
                },
                DriverAction::SetFinalized { slot: finalized },
            )
        }
    }

    fn settle(state: DriverState<E>, reached: Slot) -> (r: (DriverState<E>, DriverAction<E>))
        ensures
            state.settles(r.0, r.1, reached),
            r.0.wf(),
    {
        if state.caught_up {
            let millis = state.interval_ms;
            (
                DriverState { cursor: reached, stage: DriverStage::Sleep, ..state },
                DriverAction::Sleep { millis, error: None },
            )
        } else {
            (
                DriverState {
                    cursor: reached,
                    caught_up: true,
                    stage: DriverStage::Signal,
                    ..state
                },
                DriverAction::NotifyCaughtUp,
            )
        }
    }

    fn verify(
        state: DriverState<E>,
        pass: Verification<E>,
        outcome: VerifyAction<E>,
        reached: Slot,
    ) -> (r: (DriverState<E>, DriverAction<E>))
        requires
            tiles(state.persisted@, state.cursor, reached),
        ensures
            state.verifies(r.0, r.1, pass, outcome, reached),
            r.0.wf(),
    {
        match outcome {
            VerifyAction::Done(Ok(())) => Self::settle(state, reached),
            VerifyAction::Done(Err(error)) => Self::fail(state, error),
            other => (
                DriverState { stage: DriverStage::Verify { pass, reached }, ..state },
                DriverAction::Verify(other),
            ),
        }
    }

    fn react(state: DriverState<E>, event: DriverEvent<E>) -> (r: (DriverState<E>, DriverAction<E>))
        requires
            state.wf(),
        ensures
            state.step(event, r.0, r.1),
            r.0.wf(),
    {
        let mut state = state;
        let mut stage = DriverStage::Tips;
        std::mem::swap(&mut stage, &mut state.stage);
        let cursor = state.cursor;
        let retry = state.retry;
        let ghost persisted = state.persisted@;
        match (stage, event) {
            (DriverStage::Tips, DriverEvent::Tips { confirmed, finalized }) => {
                match get_latest_slots(confirmed, finalized) {
                    Ok((c, f)) => Self::proceed(state, Ghost(Seq::empty()), cursor, c, f),
                    Err(error) => {
                        let millis = state.interval_ms;
                        (
                            DriverState { stage: DriverStage::Sleep, ..state },
                            DriverAction::Sleep { millis, error: Some(error) },
                        )
                    },
                }
            },
            (
                DriverStage::Batch { from, to, confirmed, finalized },
                DriverEvent::Loaded(outcomes),
            ) => {
                let slots = batch_slots(from, to);
                proof {
                    lemma_slot_range_ascends(from, to);
                }
                match load_blocks(&slots, outcomes) {
                    Ok(blocks) => (
                        DriverState {
                            stage: DriverStage::Store { from, to, confirmed, finalized },
                            ..state
                        },
                        DriverAction::StoreBlocks { blocks, finalized },
                    ),
                    Err(error) => {
                        let ghost failure = error;
                        proof {
                            match failure {
                                LoaderError::BatchFailed { slots: named } => {
                                    assert(named@ == unresolved(slot_range(from, to), outcomes@));
                                },
                                _ => {},
                            }
                        }
                        Self::fail(state, error)
                    },
                }
            },
            (
                DriverStage::Store { from, to, confirmed, finalized },
                DriverEvent::Stored(Ok(())),
            ) => {
                proof {
                    lemma_tiles_grow(persisted, cursor, from, to);
                }
                Self::proceed(state, Ghost(persisted.push((from, to))), to, confirmed, finalized)
            },
            (DriverStage::Store { .. }, DriverEvent::Stored(Err(e))) => {
                Self::fail(state, LoaderError::Upstream(e))
            },
            (DriverStage::Finalize { reached }, DriverEvent::Finalized(Ok(blocks))) => {
                if slots_ascend(&blocks) {
                    let (pass, outcome) = Verification::begin(blocks, retry);
                    Self::verify(state, pass, outcome, reached)
                } else {
                    Self::halt(state)
                }
            },
            (DriverStage::Finalize { .. }, DriverEvent::Finalized(Err(e))) => {
                Self::fail(state, LoaderError::Upstream(e))
            },
            (DriverStage::Verify { pass, reached }, DriverEvent::Verify(answer)) => {
                let (after, outcome) = pass.advance(answer);
                Self::verify(state, after, outcome, reached)
            },
            (DriverStage::Signal, DriverEvent::Notified) => {
                let millis = state.interval_ms;
                (
                    DriverState { stage: DriverStage::Sleep, ..state },
                    DriverAction::Sleep { millis, error: None },
                )
            },
            (DriverStage::Sleep, DriverEvent::Woke) => (state, DriverAction::QueryTips),
            _ => Self::halt(state),
        }
    }

    /// Takes the answer to the action that is out and decides what comes
    /// next. The cursor never moves back, and it moves forward only when a
    /// whole cycle has succeeded.
    pub fn advance(self, event: DriverEvent<E>) -> (r: (SyncDriver<E>, DriverAction<E>))
        ensures
            self@.wf(),
            r.0@.wf(),
            self@.step(event, r.0@, r.1),
            self@.cursor <= r.0@.cursor,
    {
        proof {
            use_type_invariant(&self);
        }
        let ghost before = self.state;
        let (state, action) = Self::react(self.state, event);
        proof {
            lemma_step_cursor(before, event, state, action);
        }
        (SyncDriver { state }, action)
    }
}

} // verus!
