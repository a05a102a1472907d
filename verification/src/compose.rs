//! Composing one ledger transaction out of rollup transactions: what is
//! decided between the emulations.
use crate::rome::RomeEvmError;
use crate::transmit_tx::Resource;
use crate::util::Emulation;
use vstd::prelude::*;
use vstd::string::StringExecFns;

verus! {

/// The data of the instruction that executes a signed transaction at once:
/// the opcode, the fee recipient, then the signed transaction.
pub open spec fn do_tx_frame(opcode: u8, fee_recipient: Seq<u8>, rlp: Seq<u8>) -> Seq<u8> {
    seq![opcode] + fee_recipient + rlp
}

/// Frames the instruction that executes a signed transaction at once.
pub fn do_tx_data(opcode: u8, resource: &Resource, rlp: &Vec<u8>) -> (data: Vec<u8>)
    ensures
        data@ == do_tx_frame(opcode, resource.fee_recipient@, rlp@),
{
    let mut data: Vec<u8> = Vec::new();
    data.push(opcode);
    data.extend_from_slice(resource.fee_recipient.as_slice());
    data.extend_from_slice(rlp.as_slice());
    data
}

/// The resource that a composed transaction is built on: the one that was
/// locked first.
pub fn first_resource(held: Option<Resource>, current: Resource) -> (resource: Resource)
    ensures
        resource == match held {
            Some(first) => first,
            None => current,
        },
{
    match held {
        Some(first) => first,
        None => current,
    }
}

/// Turns down a transaction that cannot be executed in one instruction.
pub fn check_atomic(emulation: &Emulation) -> (r: Result<(), RomeEvmError>)
    ensures
        r is Ok <==> emulation.is_atomic,
        r matches Err(e) ==> e matches RomeEvmError::Custom(message) && message@
            == "Transaction is too large or expensive"@,
{
    if !emulation.is_atomic {
        return Err(RomeEvmError::Custom(String::from_str("Transaction is too large or expensive")));
    }
    Ok(())
}

} // verus!
