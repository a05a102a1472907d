use rome_sdk::ledger::Pubkey;
use rome_sdk::rome::{Rome, RomeEvmError};
use std::collections::HashMap;
use rome_sdk::util::{
    check_accounts_len, check_exit_reason, Emulation, ExitReason, LegacyTx,
    NameOrAddress, RomeEvmUtil, TransactionRequest, Vm, MAX_ALLOWED_ACCOUNTS, U256,
};

fn util_emulation(exit: Option<ExitReason>, return_value: Option<Vec<u8>>, accounts: usize) -> Emulation {
    Emulation {
        vm: exit.map(|exit_reason| Vm { exit_reason, return_value, iteration_count: 3 }),
        accounts: vec![Pubkey { bytes: [5; 32] }; accounts],
        gas: 21_000,
        is_atomic: true,
        lock_overrides: vec![],
    }
}

#[test]
fn exit_check_passes_a_run_that_succeeded_or_never_ran() {
    assert_eq!(check_exit_reason(&util_emulation(None, None, 1), None), Ok(()));
    assert_eq!(check_exit_reason(&util_emulation(Some(ExitReason::Succeed), None, 1), None), Ok(()));
    let with_reason = Some("ignored".to_string());
    assert_eq!(
        check_exit_reason(&util_emulation(Some(ExitReason::Succeed), Some(vec![1]), 1), with_reason),
        Ok(())
    );
}

#[test]
fn exit_check_reports_a_revert_with_reason_and_data() {
    let emulation = util_emulation(Some(ExitReason::Revert), Some(vec![0x01, 0x02, 0xff, 0x0a]), 1);
    assert_eq!(
        check_exit_reason(&emulation, Some("boom".to_string())),
        Err(RomeEvmError::EmulationRevert(
            "execution reverted: boom".to_string(),
            "0x0102ff0a".to_string()
        ))
    );
}

#[test]
fn exit_check_reports_a_revert_without_reason() {
    let emulation = util_emulation(Some(ExitReason::Revert), Some(vec![0xab]), 1);
    assert_eq!(
        check_exit_reason(&emulation, None),
        Err(RomeEvmError::EmulationRevert("execution reverted".to_string(), "0xab".to_string()))
    );
}

#[test]
fn exit_check_reports_a_revert_without_data() {
    let emulation = util_emulation(Some(ExitReason::Revert), None, 1);
    assert_eq!(
        check_exit_reason(&emulation, Some("unused".to_string())),
        Err(RomeEvmError::EmulationRevert("execution reverted".to_string(), "0x".to_string()))
    );
    let empty = util_emulation(Some(ExitReason::Revert), Some(vec![]), 1);
    assert_eq!(
        check_exit_reason(&empty, None),
        Err(RomeEvmError::EmulationRevert("execution reverted".to_string(), "0x".to_string()))
    );
}

#[test]
fn exit_check_reports_errors_with_their_text() {
    let error = util_emulation(Some(ExitReason::Error("OutOfGas".to_string())), None, 1);
    assert_eq!(
        check_exit_reason(&error, None),
        Err(RomeEvmError::EmulationError("OutOfGas".to_string()))
    );
    let fatal = util_emulation(Some(ExitReason::Fatal("NotSupported".to_string())), None, 1);
    assert_eq!(
        check_exit_reason(&fatal, None),
        Err(RomeEvmError::EmulationError("NotSupported".to_string()))
    );
    let limit = util_emulation(Some(ExitReason::StepLimitReached), None, 1);
    assert_eq!(
        check_exit_reason(&limit, None),
        Err(RomeEvmError::EmulationError("StepLimitReached".to_string()))
    );
}

#[test]
fn accounts_check_allows_sixty_two() {
    assert_eq!(MAX_ALLOWED_ACCOUNTS, 62);
    assert_eq!(check_accounts_len(&util_emulation(None, None, 0)), Ok(()));
    assert_eq!(check_accounts_len(&util_emulation(None, None, 62)), Ok(()));
    assert_eq!(
        check_accounts_len(&util_emulation(None, None, 63)),
        Err(RomeEvmError::TooManyAccounts(63))
    );
}

#[test]
fn gas_estimate_needs_both_checks_to_pass() {
    let rome = Rome::new((), HashMap::new());
    let estimate_gas = |emulation: &Emulation, reason: Option<String>| rome.estimate_gas(emulation, reason);
    assert_eq!(estimate_gas(&util_emulation(Some(ExitReason::Succeed), None, 62), None), Ok(21_000));
    assert_eq!(
        estimate_gas(&util_emulation(Some(ExitReason::Succeed), None, 70), None),
        Err(RomeEvmError::TooManyAccounts(70))
    );
    // the exit is checked first
    assert_eq!(
        estimate_gas(&util_emulation(Some(ExitReason::StepLimitReached), None, 70), None),
        Err(RomeEvmError::EmulationError("StepLimitReached".to_string()))
    );
}

fn util_number(low: u64) -> U256 {
    U256 { limbs: [low, 0, 0, 0] }
}

#[test]
fn empty_request_becomes_a_transaction_of_zeros() {
    let request = TransactionRequest {
        from: None,
        to: None,
        gas: None,
        gas_price: None,
        value: None,
        data: None,
        nonce: None,
        chain_id: None,
    };
    assert_eq!(
        RomeEvmUtil::cast_transaction_request(&request, 1001),
        LegacyTx {
            nonce: 0,
            gas_price: util_number(0),
            gas_limit: util_number(0),
            to: None,
            value: util_number(0),
            data: Some(vec![]),
            chain_id: util_number(1001),
            from: [0; 20],
        }
    );
}

#[test]
fn request_keeps_what_it_names() {
    let request = TransactionRequest {
        from: Some([3; 20]),
        to: Some(NameOrAddress::Address([4; 20])),
        gas: Some(util_number(21_000)),
        gas_price: Some(U256 { limbs: [1, 2, 3, 4] }),
        value: Some(util_number(7)),
        data: Some(vec![0xca, 0xfe]),
        nonce: Some(util_number(5)),
        chain_id: Some(77),
    };
    assert_eq!(
        RomeEvmUtil::cast_transaction_request(&request, 1001),
        LegacyTx {
            nonce: 5,
            gas_price: U256 { limbs: [1, 2, 3, 4] },
            gas_limit: util_number(21_000),
            to: Some([4; 20]),
            value: util_number(7),
            data: Some(vec![0xca, 0xfe]),
            chain_id: util_number(77),
            from: [3; 20],
        }
    );
}

#[test]
fn recipient_given_by_name_becomes_the_zero_address() {
    let request = TransactionRequest {
        from: None,
        to: Some(NameOrAddress::Name("rome.eth".to_string())),
        gas: None,
        gas_price: None,
        value: None,
        data: None,
        nonce: None,
        chain_id: None,
    };
    assert_eq!(RomeEvmUtil::cast_transaction_request(&request, 1).to, Some([0; 20]));
}
