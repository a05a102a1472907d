//! The registry of rollups: which transaction builder serves which chain,
//! and what is decided of a transaction once its emulations are in.
use crate::ix::{budget_instructions, AtomicIxBatch, Instruction};
use crate::ledger::Pubkey;
use crate::transmit_tx::Resource;
use crate::util::{
    check_accounts_len, check_exit_reason, exit_verdict, Emulation, MAX_ALLOWED_ACCOUNTS,
};
use std::collections::HashMap;
use vstd::prelude::*;
use vstd::string::StringExecFns;

verus! {

/// Why a request to the registry, or an emulation, was turned down.
#[derive(Clone, Debug, PartialEq, Eq)]
pub enum RomeEvmError {
    /// A failure that has nothing but a message.
    Custom(String),
    /// No rollup is registered under the chain id.
    UnsupportedChainId(u64),
    /// The transaction names no chain id.
    NoChainId,
    /// The emulation reverted: the message, then the returned data as hex.
    EmulationRevert(String, String),
    /// The emulation ended in an error.
    EmulationError(String),
    /// The emulation touches more accounts than one transaction can hold.
    TooManyAccounts(usize),
}

/// What identifies the builder of one rollup's transactions: the chain id of
/// the rollup and the program that runs it.
#[derive(Clone, Copy, Debug, PartialEq, Eq)]
pub struct TxBuilder {
    pub chain_id: u64,
    pub program_id: Pubkey,
}

/// The registry of rollups, together with the handle `T` through which
/// transactions reach the ledger. The registry carries the handle and never
/// uses it.
pub struct Rome<T> {
    solana: T,
    rollup_builders: HashMap<u64, TxBuilder>,
}

/// What composing gives: with a resource, the batch of the budget
/// instructions followed by `ixs`, and the resource; without one, a failure.
pub open spec fn composed(
    ixs: Seq<Instruction>,
    resource: Option<Resource>,
    r: Result<(AtomicIxBatch, Resource), RomeEvmError>,
) -> bool {
    match r {
        Ok((batch, payer)) => resource == Some(payer) && batch@ == budget_instructions() + ixs,
        Err(e) => {
            &&& resource is None
            &&& e matches RomeEvmError::Custom(message)
            &&& message@ == "Failed to acquire resource for Solana transaction"@
        },
    }
}

impl<T> Rome<T> {
    /// The handle through which transactions reach the ledger.
    pub closed spec fn tower(&self) -> T {
        self.solana
    }

    /// The builders by chain id.
    pub closed spec fn builders(&self) -> Map<u64, TxBuilder> {
        self.rollup_builders@
    }

    /// What a lookup by chain id gives: the builder registered under it, or
    /// the chain id back as unsupported.
    pub open spec fn builder_of(&self, chain_id: u64) -> Result<TxBuilder, RomeEvmError> {
        if self.builders().contains_key(chain_id) {
            Ok(self.builders()[chain_id])
        } else {
            Err(RomeEvmError::UnsupportedChainId(chain_id))
        }
    }

    /// Makes a registry of the given builders.
    pub fn new(solana: T, rollup_builders: HashMap<u64, TxBuilder>) -> (rome: Self)
        ensures
            rome.tower() == solana,
            rome.builders() == rollup_builders@,
    {
        Self { solana, rollup_builders }
    }

    /// Looks up the builder of a chain.
    pub fn get_transaction_builder(&self, chain_id: u64) -> (r: Result<&TxBuilder, RomeEvmError>)
        ensures
            match r {
                Ok(builder) => self.builder_of(chain_id) == Ok::<TxBuilder, RomeEvmError>(*builder),
                Err(e) => self.builder_of(chain_id) == Err::<TxBuilder, RomeEvmError>(e),
            },
    {
        match self.rollup_builders.get(&chain_id) {
            Some(builder) => Ok(builder),
            None => Err(RomeEvmError::UnsupportedChainId(chain_id)),
        }
    }

    /// Looks up the builder for a transaction, of which `chain_id` is the
    /// chain id it names, if it names one.
    pub fn get_transaction_builder_for_tx(&self, chain_id: Option<u64>) -> (r: Result<
        &TxBuilder,
        RomeEvmError,
    >)
        ensures
            match r {
                Ok(builder) => chain_id matches Some(id) && self.builder_of(id) == Ok::<
                    TxBuilder,
                    RomeEvmError,
                >(*builder),
                Err(e) => match chain_id {
                    Some(id) => self.builder_of(id) == Err::<TxBuilder, RomeEvmError>(e),
                    None => e == RomeEvmError::NoChainId,
                },
            },
    {
        match chain_id {
            Some(id) => self.get_transaction_builder(id),
            None => Err(RomeEvmError::NoChainId),
        }
    }

    /// The gas that an emulation estimates, once both checks have passed:
    /// first the exit, then the number of accounts. `revert_reason` is the
    /// reason decoded from the returned data, where there is one.
    pub fn estimate_gas(&self, emulation: &Emulation, revert_reason: Option<String>) -> (r: Result<
        u64,
        RomeEvmError,
    >)
        ensures
            match r {
                Ok(gas) => {
                    &&& exit_verdict(*emulation, revert_reason, Ok(()))
                    &&& emulation.accounts@.len() <= MAX_ALLOWED_ACCOUNTS
                    &&& gas == emulation.gas
                },
                Err(e) => if exit_verdict(*emulation, revert_reason, Ok(())) {
                    &&& emulation.accounts@.len() > MAX_ALLOWED_ACCOUNTS
                    &&& e == RomeEvmError::TooManyAccounts(emulation.accounts.len())
                } else {
                    exit_verdict(*emulation, revert_reason, Err(e))
                },
            },
    {
        match check_exit_reason(emulation, revert_reason) {
            Err(e) => Err(e),
            Ok(()) => match check_accounts_len(emulation) {
                Err(e) => Err(e),
                Ok(()) => Ok(emulation.gas),
            },
        }
    }

    /// Composes a cross-rollup transaction of the instructions of its rollup
    /// transactions, in order, on the resource that was locked first.
    pub fn compose_cross_rollup_tx(&self, ixs: Vec<Instruction>, resource: Option<Resource>) -> (r:
        Result<(AtomicIxBatch, Resource), RomeEvmError>)
        ensures
            composed(ixs@, resource, r),
    {
        match resource {
            Some(payer) => Ok((AtomicIxBatch::new_composed(ixs), payer)),
            None => Err(
                RomeEvmError::Custom(
                    String::from_str("Failed to acquire resource for Solana transaction"),
                ),
            ),
        }
    }

    /// Composes a cross-chain transaction: the instructions of its rollup
    /// transactions, then the ledger's own instructions.
    pub fn compose_cross_chain_tx(
        &self,
        eth_ixs: Vec<Instruction>,
        sol_ixs: Vec<Instruction>,
        resource: Option<Resource>,
    ) -> (r: Result<(AtomicIxBatch, Resource), RomeEvmError>)
        ensures
            composed(eth_ixs@ + sol_ixs@, resource, r),
    {
        let mut ixs = eth_ixs;
        let mut sol_ixs = sol_ixs;
        ixs.append(&mut sol_ixs);
        self.compose_cross_rollup_tx(ixs, resource)
    }

    /// The handle through which transactions reach the ledger.
    pub fn solana(&self) -> (tower: &T)
        ensures
            *tower == self.tower(),
    {
        &self.solana
    }
}

} // verus!
