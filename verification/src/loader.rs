//! The engine's configuration, and the entry points of its two tasks.
use crate::error::LoaderError;
use crate::fetcher::{BlockFetch, FetchAction, FetchStage, RetryPolicy};
use crate::ledger::{Commitment, Pubkey, Slot};
use crate::scan::{Scan, ScanAction};
use crate::sync::{DriverAction, SyncDriver};
use vstd::prelude::*;

verus! {

/// What the engine is configured with. All of it is supplied from outside.
#[derive(Clone, Copy, Debug, PartialEq, Eq)]
pub struct SolanaBlockLoader {
    /// The commitment level under which new and missing blocks are loaded.
    pub commitment: Commitment,
    /// The program whose transactions the mirror keeps.
    pub program_id: Pubkey,
    /// The most slots of one batch.
    pub batch_size: Slot,
    /// Retries of a block request.
    pub block_retries: usize,
    /// Retries of a transaction request.
    pub tx_retries: usize,
    /// The pause between two tries, in milliseconds.
    pub retry_int_ms: u64,
}

impl SolanaBlockLoader {
    /// The retry parameters that go out with every request.
    pub open spec fn retry_policy(&self) -> RetryPolicy {
        RetryPolicy {
            block_retries: self.block_retries,
            tx_retries: self.tx_retries,
            delay_ms: self.retry_int_ms,
        }
    }

    fn retry(&self) -> (retry: RetryPolicy)
        ensures
            retry == self.retry_policy(),
    {
        RetryPolicy {
            block_retries: self.block_retries,
            tx_retries: self.tx_retries,
            delay_ms: self.retry_int_ms,
        }
    }

    /// Starts the fetch of one block for the configured program.
    pub fn load_block<E>(&self, slot: Slot, commitment: Commitment) -> (r: (BlockFetch, FetchAction<E>))
        ensures
            r.0 == (BlockFetch {
                slot,
                commitment,
                program: self.program_id,
                retry: self.retry_policy(),
                stage: FetchStage::Header,
            }),
            r.1 == (FetchAction::<E>::GetBlock {
                slot,
                commitment,
                retries: self.block_retries,
                delay_ms: self.retry_int_ms,
            }),
    {
        BlockFetch::begin(slot, commitment, self.program_id, self.retry())
    }

    /// Starts the forward sync. `last_stored` is what the store answered when
    /// asked for its last slot; `start_slot` is the slot to start from where
    /// the store is empty; `interval_ms` is the poll interval.
    pub fn start_loading<E>(
        &self,
        last_stored: Result<Option<Slot>, E>,
        start_slot: Option<Slot>,
        interval_ms: u64,
    ) -> (r: Result<(SyncDriver<E>, DriverAction<E>), LoaderError<E>>)
        ensures
            SyncDriver::starts(
                last_stored,
                start_slot,
                self.batch_size,
                self.commitment,
                interval_ms,
                self.retry_policy(),
                r,
            ),
    {
        SyncDriver::start(
            last_stored,
            start_slot,
            self.batch_size,
            self.commitment,
            interval_ms,
            self.retry(),
        )
    }

    /// Starts the backward scan of the stored range from `start_slot` up to
    /// `end_slot`, or up to the store's last slot where no end is given.
    pub fn start_checking<E>(&self, start_slot: Slot, end_slot: Option<Slot>) -> (r: (
        Scan<E>,
        ScanAction<E>,
    ))
        ensures
            Scan::begins(
                start_slot,
                end_slot,
                self.batch_size,
                self.commitment,
                self.retry_policy(),
                r.0,
                r.1,
            ),
    {
        Scan::begin(start_slot, end_slot, self.batch_size, self.commitment, self.retry())
    }
}

} // verus!
