//! Batches of instructions that go into one transaction.
use crate::ledger::Pubkey;
use solana_sdk::compute_budget::ComputeBudgetInstruction;
use vstd::prelude::*;

verus! {

/// The compute units that a composed batch asks for.
pub const COMPUTE_UNIT_LIMIT: u32 = 1400000;

/// The heap, in bytes, that a composed batch asks for: 256 times 1024.
pub const HEAP_FRAME_BYTES: u32 = 262144;

/// An account that an instruction touches.
#[derive(Clone, Copy, Debug, PartialEq, Eq)]
pub struct AccountMeta {
    pub pubkey: Pubkey,
    pub is_signer: bool,
    pub is_writable: bool,
}

/// One instruction: the program that runs it, the accounts it touches, and
/// its data.
#[derive(Clone, Debug, PartialEq, Eq)]
pub struct Instruction {
    pub program_id: Pubkey,
    pub accounts: Vec<AccountMeta>,
    pub data: Vec<u8>,
}

/// The instruction that sets the compute unit limit of a transaction to
/// `units`.
pub uninterp spec fn compute_unit_limit_instruction(units: u32) -> Instruction;

/// The instruction that asks for a heap of `bytes` bytes.
pub uninterp spec fn heap_frame_instruction(bytes: u32) -> Instruction;

/// Makes the instruction that limits the compute units, with
/// `solana_sdk::compute_budget::ComputeBudgetInstruction::set_compute_unit_limit`.
/// The result is a function of `units`; `compute_unit_limit_instruction`
/// names it.
#[verifier::external_body]
fn set_compute_unit_limit(units: u32) -> (ix: Instruction)
    ensures
        ix == compute_unit_limit_instruction(units),
{
    let ix = ComputeBudgetInstruction::set_compute_unit_limit(units);
    Instruction {
        program_id: Pubkey { bytes: ix.program_id.to_bytes() },
        accounts: ix.accounts.iter().map(|a| AccountMeta {
            pubkey: Pubkey { bytes: a.pubkey.to_bytes() },
            is_signer: a.is_signer,
            is_writable: a.is_writable,
        }).collect(),
        data: ix.data,
    }
}

/// Makes the instruction that asks for heap, with
/// `solana_sdk::compute_budget::ComputeBudgetInstruction::request_heap_frame`.
/// The result is a function of `bytes`; `heap_frame_instruction` names it.
#[verifier::external_body]
fn request_heap_frame(bytes: u32) -> (ix: Instruction)
    ensures
        ix == heap_frame_instruction(bytes),
{
    let ix = ComputeBudgetInstruction::request_heap_frame(bytes);
    Instruction {
        program_id: Pubkey { bytes: ix.program_id.to_bytes() },
        accounts: ix.accounts.iter().map(|a| AccountMeta {
            pubkey: Pubkey { bytes: a.pubkey.to_bytes() },
            is_signer: a.is_signer,
            is_writable: a.is_writable,
        }).collect(),
        data: ix.data,
    }
}

/// An atomic batch of instructions that can be composed into a single
/// transaction. The size of the batch is the caller's concern.
#[derive(Clone, Debug, PartialEq, Eq)]
pub struct AtomicIxBatch(pub Vec<Instruction>);

impl View for AtomicIxBatch {
    type V = Seq<Instruction>;

    open spec fn view(&self) -> Seq<Instruction> {
        self.0@
    }
}

/// The two instructions that lead every composed batch: the compute unit
/// limit, then the heap frame.
pub open spec fn budget_instructions() -> Seq<Instruction> {
    seq![
        compute_unit_limit_instruction(COMPUTE_UNIT_LIMIT),
        heap_frame_instruction(HEAP_FRAME_BYTES),
    ]
}

impl AtomicIxBatch {
    /// Makes a batch of the given instructions.
    pub fn new_owned(ixs: Vec<Instruction>) -> (batch: AtomicIxBatch)
        ensures
            batch@ == ixs@,
    {
        AtomicIxBatch(ixs)
    }

    /// Makes a batch of one instruction behind the two budget instructions.
    pub fn new_composible_owned(ix: Instruction) -> (batch: AtomicIxBatch)
        ensures
            batch@ == budget_instructions().push(ix),
    {
        let mut ixs: Vec<Instruction> = Vec::new();
        ixs.push(set_compute_unit_limit(COMPUTE_UNIT_LIMIT));
        ixs.push(request_heap_frame(HEAP_FRAME_BYTES));
        ixs.push(ix);
        AtomicIxBatch(ixs)
    }

    /// Makes one composed batch for each instruction, in order.
    pub fn new_composible_batches_owned(ixs: Vec<Instruction>) -> (batches: Vec<AtomicIxBatch>)
        ensures
            batches@.len() == ixs@.len(),
            forall|i: int|
                0 <= i < ixs@.len() ==> (#[trigger] batches@[i])@ == budget_instructions().push(
                    ixs@[i],
                ),
    {
        let ghost all = ixs@;
        let mut batches: Vec<AtomicIxBatch> = Vec::new();
        for ix in it: ixs
            invariant
                it.seq() == all,
                batches@.len() == it.index(),
                forall|i: int|
                    0 <= i < it.index() ==> (#[trigger] batches@[i])@ == budget_instructions().push(
                        all[i],
                    ),
        {
            batches.push(Self::new_composible_owned(ix));
        }
        batches
    }

    /// Makes the batch of a composed transaction: the two budget
    /// instructions, then the given ones.
    pub fn new_composed(ixs: Vec<Instruction>) -> (batch: AtomicIxBatch)
        ensures
            batch@ == budget_instructions() + ixs@,
    {
        let mut all: Vec<Instruction> = Vec::new();
        all.push(set_compute_unit_limit(COMPUTE_UNIT_LIMIT));
        all.push(request_heap_frame(HEAP_FRAME_BYTES));
        let mut ixs = ixs;
        all.append(&mut ixs);
        AtomicIxBatch(all)
    }

    /// Adds instructions at the end of the batch.
    pub fn push(&mut self, ix: Vec<Instruction>)
        ensures
            final(self)@ == old(self)@ + ix@,
    {
        let mut ix = ix;
        self.0.append(&mut ix);
    }

    /// The instructions of the batch.
    pub fn deref(&self) -> (ixs: &Vec<Instruction>)
        ensures
            ixs@ == self@,
    {
        &self.0
    }
}

} // verus!
