//! The data model: slots, commitment levels, keys, signatures, transactions
//! and blocks.
use solana_sdk::transaction::TransactionVersion;
use solana_transaction_status::UiTransactionStatusMeta;
use vstd::prelude::*;

verus! {

/// Height of a block in the ledger's append-only sequence.
pub type Slot = u64;

/// Execution metadata of a transaction, as the ledger reports it. The library
/// carries it and never looks inside.
#[verifier::external_type_specification]
#[verifier::external_body]
pub struct ExUiTransactionStatusMeta(UiTransactionStatusMeta);

/// Version tag of a transaction, as the ledger reports it. Carried only.
#[verifier::external_type_specification]
#[verifier::external_body]
pub struct ExTransactionVersion(TransactionVersion);

/// Consistency level under which the ledger is read.
#[derive(Clone, Copy, Debug, PartialEq, Eq, Structural)]
pub enum Commitment {
    /// Optimistic tip; may still be reorganized.
    Confirmed,
    /// Watermark that is meant to be immutable.
    Finalized,
}

/// A 32-byte account or program address.
#[derive(Clone, Copy, Debug, PartialEq, Eq)]
pub struct Pubkey {
    pub bytes: [u8; 32],
}

/// A 64-byte transaction signature.
#[derive(Clone, Copy, Debug, PartialEq, Eq)]
pub struct Signature {
    pub bytes: [u8; 64],
}

/// Text encoding of a transaction's wire bytes.
#[derive(Clone, Copy, Debug, PartialEq, Eq, Structural)]
pub enum BinaryEncoding {
    Base58,
    Base64,
}

/// A transaction as fetched: its encoded wire bytes and what the ledger
/// reported beside them.
#[derive(Clone, Debug, PartialEq)]
pub struct Transaction {
    pub blob: String,
    pub encoding: BinaryEncoding,
    pub meta: Option<UiTransactionStatusMeta>,
    pub version: Option<TransactionVersion>,
}

/// What a header request returns for a slot that holds a block: the parent
/// link, the content hash and, where they were asked for, the signatures of
/// the block's transactions in ledger order.
#[derive(Clone, Debug, PartialEq, Eq)]
pub struct BlockHeader {
    pub parent_slot: Slot,
    pub content_hash: String,
    pub signatures: Option<Vec<String>>,
}

/// A block of the mirror. `filtered_transactions` holds, in chronological
/// order, only transactions that address the target program; it is `None`
/// where the block has none.
#[derive(Clone, Debug, PartialEq)]
pub struct Block {
    pub slot: Slot,
    pub parent_slot: Slot,
    pub content_hash: String,
    pub filtered_transactions: Option<Vec<Transaction>>,
}

impl View for Pubkey {
    type V = Seq<u8>;

    open spec fn view(&self) -> Seq<u8> {
        self.bytes@
    }
}

impl View for Signature {
    type V = Seq<u8>;

    open spec fn view(&self) -> Seq<u8> {
        self.bytes@
    }
}

/// The byte strings of a list of signatures.
pub open spec fn signature_views(signatures: Seq<Signature>) -> Seq<Seq<u8>> {
    signatures.map_values(|s: Signature| s@)
}

impl Pubkey {
    /// Whether two addresses hold the same bytes.
    pub fn same(&self, other: &Pubkey) -> (r: bool)
        ensures
            r == (self@ == other@),
    {
        let mut i: usize = 0;
        while i < 32
            invariant
                i <= 32,
                forall|j: int| 0 <= j < i ==> self.bytes@[j] == other.bytes@[j],
            decreases 32 - i,
        {
            if self.bytes[i] != other.bytes[i] {
                return false;
            }
            i = i + 1;
        }
        assert(self.bytes@ =~= other.bytes@);
        true
    }
}

impl Signature {
    /// Whether two signatures hold the same bytes.
    pub fn same(&self, other: &Signature) -> (r: bool)
        ensures
            r == (self@ == other@),
    {
        let mut i: usize = 0;
        while i < 64
            invariant
                i <= 64,
                forall|j: int| 0 <= j < i ==> self.bytes@[j] == other.bytes@[j],
            decreases 64 - i,
        {
            if self.bytes[i] != other.bytes[i] {
                return false;
            }
            i = i + 1;
        }
        assert(self.bytes@ =~= other.bytes@);
        true
    }
}

impl Block {
    /// The transactions that the block holds; none where it holds no list.
    pub open spec fn transactions(&self) -> Seq<Transaction> {
        match self.filtered_transactions {
            Some(txs) => txs@,
            None => Seq::empty(),
        }
    }
}

} // verus!
