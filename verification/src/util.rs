//! Checks on what an emulation of a transaction came back with, and the
//! making of the transaction that is emulated.
use crate::ledger::Pubkey;
use crate::rome::RomeEvmError;
use crate::transmit_tx::copy_range;
use vstd::prelude::*;
use vstd::string::StringExecFns;

verus! {

/// The most accounts that one transaction may touch: the cap of 64, less the
/// two that every transaction holds anyway.
pub const MAX_ALLOWED_ACCOUNTS: usize = 62;

/// How the virtual machine left off. `Error` and `Fatal` hold the text of
/// the reason.
#[derive(Clone, Debug, PartialEq, Eq)]
pub enum ExitReason {
    Succeed,
    Revert,
    Error(String),
    Fatal(String),
    StepLimitReached,
}

/// What the virtual machine reports of one run.
#[derive(Clone, Debug, PartialEq, Eq)]
pub struct Vm {
    pub exit_reason: ExitReason,
    pub return_value: Option<Vec<u8>>,
    pub iteration_count: u64,
}

/// The outcome of an emulation, as far as the checks read it.
#[derive(Clone, Debug, PartialEq, Eq)]
pub struct Emulation {
    pub vm: Option<Vm>,
    pub accounts: Vec<Pubkey>,
    pub gas: u64,
    pub is_atomic: bool,
    pub lock_overrides: Vec<u8>,
}

/// The sixteen digits of lowercase hex.
pub open spec fn hex_digits() -> Seq<char> {
    seq!['0', '1', '2', '3', '4', '5', '6', '7', '8', '9', 'a', 'b', 'c', 'd', 'e', 'f']
}

/// Bytes as lowercase hex: two digits for each byte, the high half first.
pub open spec fn hex_text(bytes: Seq<u8>) -> Seq<char> {
    Seq::new(
        2 * bytes.len(),
        |i: int|
            if i % 2 == 0 {
                hex_digits()[bytes[i / 2] as int / 16]
            } else {
                hex_digits()[bytes[i / 2] as int % 16]
            },
    )
}

/// Encodes bytes with `hex::encode`, which writes each byte as two lowercase
/// hex digits, the high half first.
#[verifier::external_body]
fn hex_encode(bytes: &Vec<u8>) -> (text: String)
    ensures
        text@ == hex_text(bytes@),
{
    hex::encode(bytes)
}

/// The message of a revert: the decoded reason behind a fixed lead, where
/// the run returned data and a reason could be decoded from it.
pub open spec fn revert_message(return_value: Option<Vec<u8>>, reason: Option<String>) -> Seq<char> {
    match (return_value, reason) {
        (Some(_), Some(text)) => "execution reverted: "@ + text@,
        _ => "execution reverted"@,
    }
}

/// The data of a revert: what the run returned, as hex behind `0x`.
pub open spec fn revert_data(return_value: Option<Vec<u8>>) -> Seq<char> {
    match return_value {
        Some(bytes) => "0x"@ + hex_text(bytes@),
        None => "0x"@,
    }
}

/// What the check of an emulation's exit gives. An emulation that did not
/// run, and one that succeeded, pass.
pub open spec fn exit_verdict(
    emulation: Emulation,
    reason: Option<String>,
    r: Result<(), RomeEvmError>,
) -> bool {
    match emulation.vm {
        None => r is Ok,
        Some(vm) => match vm.exit_reason {
            ExitReason::Succeed => r is Ok,
            ExitReason::Revert => {
                &&& r matches Err(RomeEvmError::EmulationRevert(message, data))
                &&& message@ == revert_message(vm.return_value, reason)
                &&& data@ == revert_data(vm.return_value)
            },
            ExitReason::Error(text) => {
                &&& r matches Err(RomeEvmError::EmulationError(told))
                &&& told@ == text@
            },
            ExitReason::Fatal(text) => {
                &&& r matches Err(RomeEvmError::EmulationError(told))
                &&& told@ == text@
            },
            ExitReason::StepLimitReached => {
                &&& r matches Err(RomeEvmError::EmulationError(told))
                &&& told@ == "StepLimitReached"@
            },
        },
    }
}

/// Checks how an emulation left off. `revert_reason` is the reason decoded
/// from the returned data, where there is one.
pub fn check_exit_reason(emulation: &Emulation, revert_reason: Option<String>) -> (r: Result<
    (),
    RomeEvmError,
>)
    ensures
        exit_verdict(*emulation, revert_reason, r),
{
    match &emulation.vm {
        None => Ok(()),
        Some(vm) => match &vm.exit_reason {
            ExitReason::Succeed => Ok(()),
            ExitReason::Revert => {
                let message = match (&vm.return_value, revert_reason) {
                    (Some(_), Some(text)) => String::from_str("execution reverted: ").concat(
                        text.as_str(),
                    ),
                    _ => String::from_str("execution reverted"),
                };
                let data = match &vm.return_value {
                    Some(bytes) => String::from_str("0x").concat(hex_encode(bytes).as_str()),
                    None => String::from_str("0x"),
                };
                Err(RomeEvmError::EmulationRevert(message, data))
            },
            ExitReason::Error(text) => Err(RomeEvmError::EmulationError(text.clone())),
            ExitReason::Fatal(text) => Err(RomeEvmError::EmulationError(text.clone())),
            ExitReason::StepLimitReached => Err(
                RomeEvmError::EmulationError(String::from_str("StepLimitReached")),
            ),
        },
    }
}

/// Checks that an emulation touches no more accounts than one transaction
/// can hold.
pub fn check_accounts_len(emulation: &Emulation) -> (r: Result<(), RomeEvmError>)
    ensures
        r == if emulation.accounts@.len() > MAX_ALLOWED_ACCOUNTS {
            Err::<(), RomeEvmError>(RomeEvmError::TooManyAccounts(emulation.accounts.len()))
        } else {
            Ok(())
        },
{
    if emulation.accounts.len() > MAX_ALLOWED_ACCOUNTS {
        return Err(RomeEvmError::TooManyAccounts(emulation.accounts.len()));
    }
    Ok(())
}

/// A number of 256 bits: four limbs of 64 bits, the lowest first.
#[derive(Clone, Copy, Debug, PartialEq, Eq)]
pub struct U256 {
    pub limbs: [u64; 4],
}

impl U256 {
    /// The number is small enough for 64 bits.
    pub open spec fn fits_u64(self) -> bool {
        self.limbs@[1] == 0 && self.limbs@[2] == 0 && self.limbs@[3] == 0
    }
}

/// The recipient of a transaction request: an address, or a name that is yet
/// to be resolved.
#[derive(Clone, Debug, PartialEq, Eq)]
pub enum NameOrAddress {
    Name(String),
    Address([u8; 20]),
}

/// A request for a transaction, with every field optional.
#[derive(Clone, Debug, PartialEq, Eq)]
pub struct TransactionRequest {
    pub from: Option<[u8; 20]>,
    pub to: Option<NameOrAddress>,
    pub gas: Option<U256>,
    pub gas_price: Option<U256>,
    pub value: Option<U256>,
    pub data: Option<Vec<u8>>,
    pub nonce: Option<U256>,
    pub chain_id: Option<u64>,
}

/// A legacy transaction as the emulator takes it.
#[derive(Clone, Debug, PartialEq, Eq)]
pub struct LegacyTx {
    pub nonce: u64,
    pub gas_price: U256,
    pub gas_limit: U256,
    pub to: Option<[u8; 20]>,
    pub value: U256,
    pub data: Option<Vec<u8>>,
    pub chain_id: U256,
    pub from: [u8; 20],
}

/// The number that stands where a request names none.
pub open spec fn number_or_zero(number: Option<U256>) -> U256 {
    match number {
        Some(n) => n,
        None => U256 { limbs: [0, 0, 0, 0] },
    }
}

/// The bytes of the address that stands where a request names none, or
/// names its recipient by name: twenty zero bytes.
pub open spec fn zero_address() -> Seq<u8> {
    Seq::new(20, |i: int| 0u8)
}

/// Conversions of requests into what the emulator takes.
pub struct RomeEvmUtil;

impl RomeEvmUtil {
    /// What a request becomes: every number that it leaves open is zero, the
    /// data that it leaves open is empty, a recipient given by name is the
    /// zero address, and the chain id is the request's own or else the given
    /// one.
    pub open spec fn casts(value: TransactionRequest, chain_id: u64, tx: LegacyTx) -> bool {
        &&& tx.nonce == number_or_zero(value.nonce).limbs@[0]
        &&& tx.gas_price == number_or_zero(value.gas_price)
        &&& tx.gas_limit == number_or_zero(value.gas)
        &&& match value.to {
            Some(NameOrAddress::Address(address)) => tx.to == Some(address),
            Some(NameOrAddress::Name(_)) => tx.to matches Some(a) && a@ == zero_address(),
            None => tx.to is None,
        }
        &&& tx.value == number_or_zero(value.value)
        &&& tx.data matches Some(data) && data@ == match value.data {
            Some(given) => given@,
            None => Seq::<u8>::empty(),
        }
        &&& tx.chain_id == (U256 {
            limbs: [
                match value.chain_id {
                    Some(own) => own,
                    None => chain_id,
                },
                0,
                0,
                0,
            ],
        })
        &&& match value.from {
            Some(address) => tx.from == address,
            None => tx.from@ == zero_address(),
        }
    }

    fn number(number: Option<U256>) -> (n: U256)
        ensures
            n == number_or_zero(number),
    {
        match number {
            Some(n) => n,
            None => U256 { limbs: [0, 0, 0, 0] },
        }
    }

    /// Converts a transaction request into a legacy transaction. The nonce
    /// must be small enough for 64 bits.
    pub fn cast_transaction_request(value: &TransactionRequest, chain_id: u64) -> (tx: LegacyTx)
        requires
            number_or_zero(value.nonce).fits_u64(),
        ensures
            Self::casts(*value, chain_id, tx),
    {
        let data = match &value.data {
            Some(given) => copy_range(given, 0, given.len()),
            None => Vec::new(),
        };
        assert(value.data matches Some(given) ==> data@ == given@);
        let zero: [u8; 20] = [0u8; 20];
        assert(zero@ =~= zero_address());
        LegacyTx {
            nonce: Self::number(value.nonce).limbs[0],
            gas_price: Self::number(value.gas_price),
            gas_limit: Self::number(value.gas),
            to: match &value.to {
                Some(NameOrAddress::Address(address)) => Some(*address),
                Some(NameOrAddress::Name(_)) => Some(zero),
                None => None,
            },
            value: Self::number(value.value),
            data: Some(data),
            chain_id: U256 {
                limbs: [
                    match value.chain_id {
                        Some(own) => own,
                        None => chain_id,
                    },
                    0,
                    0,
                    0,
                ],
            },
            from: match value.from {
                Some(a) => a,
                None => zero,
            },
        }
    }
}

} // verus!
