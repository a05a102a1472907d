//! Text and wire formats that the ledger's own crates decode.
use crate::ledger::{BinaryEncoding, Pubkey, Signature};
use solana_transaction_status::{EncodedTransaction, TransactionBinaryEncoding};
use std::str::FromStr;
use vstd::prelude::*;

verus! {

/// The 64 bytes that a signature's text stands for, or `None` where the text
/// is no signature.
pub uninterp spec fn signature_bytes(text: Seq<char>) -> Option<Seq<u8>>;

/// Parses the base-58 text of a signature with
/// `solana_sdk::signature::Signature::from_str`. The result is a function of
/// the text alone; `signature_bytes` names it. Text that the parser rejects
/// (over 88 characters, not base-58, not 64 bytes) gives `None`.
#[verifier::external_body]
pub(crate) fn parse_signature(text: &str) -> (r: Option<Signature>)
    ensures
        match r {
            Some(s) => signature_bytes(text@) == Some(s.bytes@),
            None => signature_bytes(text@) is None,
        },
{
    match solana_sdk::signature::Signature::from_str(text) {
        Ok(s) => Some(Signature { bytes: s.into() }),
        Err(_) => None,
    }
}

/// What the program filter reads of a decoded transaction: the static account
/// keys of its message and, for each instruction in order, the index of the
/// account that is its program.
pub struct MessageOutline {
    pub account_keys: Vec<Pubkey>,
    pub program_indexes: Vec<u8>,
}

/// The mathematical content of a `MessageOutline`.
pub struct OutlineView {
    pub account_keys: Seq<Seq<u8>>,
    pub program_indexes: Seq<u8>,
}

impl View for MessageOutline {
    type V = OutlineView;

    open spec fn view(&self) -> OutlineView {
        OutlineView {
            account_keys: Seq::new(self.account_keys@.len(), |i: int| self.account_keys@[i].bytes@),
            program_indexes: self.program_indexes@,
        }
    }
}

/// The outline of the transaction that an encoded blob holds, or `None` where
/// the blob does not decode to a transaction that passes the ledger's own
/// sanity checks.
pub uninterp spec fn decoded_outline(blob: Seq<char>, encoding: BinaryEncoding) -> Option<
    OutlineView,
>;

/// Decodes a transaction with
/// `solana_transaction_status::EncodedTransaction::decode` and copies out the
/// static account keys and each instruction's program index. The result is a
/// function of the blob and its encoding; `decoded_outline` names it.
#[verifier::external_body]
pub(crate) fn decode_outline(blob: &str, encoding: BinaryEncoding) -> (r: Option<MessageOutline>)
    ensures
        match r {
            Some(m) => decoded_outline(blob@, encoding) == Some(m@),
            None => decoded_outline(blob@, encoding) is None,
        },
{
    let encoding = match encoding {
        BinaryEncoding::Base58 => TransactionBinaryEncoding::Base58,
        BinaryEncoding::Base64 => TransactionBinaryEncoding::Base64,
    };
    let tx = EncodedTransaction::Binary(blob.to_string(), encoding).decode()?;
    let keys = tx.message.static_account_keys().iter();
    Some(MessageOutline {
        account_keys: keys.map(|k| Pubkey { bytes: k.to_bytes() }).collect(),
        program_indexes: tx.message.instructions().iter().map(|ix| ix.program_id_index).collect(),
    })
}

} // verus!
