use rome_sdk::compose::{check_atomic, do_tx_data, first_resource};
use rome_sdk::ix::{AccountMeta, AtomicIxBatch, Instruction, COMPUTE_UNIT_LIMIT, HEAP_FRAME_BYTES};
use rome_sdk::ledger::Pubkey;
use rome_sdk::rome::{Rome, RomeEvmError};
use std::collections::HashMap;
use rome_sdk::transmit_tx::Resource;
use rome_sdk::util::Emulation;

const COMPUTE_BUDGET_PROGRAM: [u8; 32] = [
    3, 6, 70, 111, 229, 33, 23, 50, 255, 236, 173, 186, 114, 195, 155, 231, 188, 140, 229, 187, 197,
    247, 18, 107, 44, 67, 155, 58, 64, 0, 0, 0,
];

fn compose_ix(tag: u8) -> Instruction {
    Instruction {
        program_id: Pubkey { bytes: [tag; 32] },
        accounts: vec![AccountMeta {
            pubkey: Pubkey { bytes: [tag + 1; 32] },
            is_signer: false,
            is_writable: true,
        }],
        data: vec![tag, tag],
    }
}

fn compose_limit() -> Instruction {
    Instruction {
        program_id: Pubkey { bytes: COMPUTE_BUDGET_PROGRAM },
        accounts: vec![],
        data: vec![2, 0xc0, 0x5c, 0x15, 0x00],
    }
}

fn compose_heap() -> Instruction {
    Instruction {
        program_id: Pubkey { bytes: COMPUTE_BUDGET_PROGRAM },
        accounts: vec![],
        data: vec![1, 0x00, 0x00, 0x04, 0x00],
    }
}

fn compose_rome() -> Rome<()> {
    Rome::new((), HashMap::new())
}

fn compose_resource(tag: u8) -> Resource {
    Resource { holder: vec![tag], fee_recipient: vec![1, tag] }
}

fn compose_emulation(is_atomic: bool) -> Emulation {
    Emulation { vm: None, accounts: vec![], gas: 0, is_atomic, lock_overrides: vec![] }
}

#[test]
fn budget_constants_are_the_expected_ones() {
    assert_eq!(COMPUTE_UNIT_LIMIT, 1_400_000);
    assert_eq!(HEAP_FRAME_BYTES, 256 * 1024);
}

#[test]
fn composible_batch_leads_with_the_budget_instructions() {
    let batch = AtomicIxBatch::new_composible_owned(compose_ix(40));
    assert_eq!(batch, AtomicIxBatch(vec![compose_limit(), compose_heap(), compose_ix(40)]));
    assert_eq!(batch.deref().len(), 3);
}

#[test]
fn composible_batches_hold_one_instruction_each() {
    let batches = AtomicIxBatch::new_composible_batches_owned(vec![compose_ix(40), compose_ix(50)]);
    assert_eq!(
        batches,
        vec![
            AtomicIxBatch(vec![compose_limit(), compose_heap(), compose_ix(40)]),
            AtomicIxBatch(vec![compose_limit(), compose_heap(), compose_ix(50)]),
        ]
    );
    assert_eq!(AtomicIxBatch::new_composible_batches_owned(vec![]), vec![]);
}

#[test]
fn owned_batch_holds_what_it_is_given() {
    let mut batch = AtomicIxBatch::new_owned(vec![compose_ix(40)]);
    assert_eq!(batch, AtomicIxBatch(vec![compose_ix(40)]));
    batch.push(vec![compose_ix(50), compose_ix(60)]);
    assert_eq!(batch, AtomicIxBatch(vec![compose_ix(40), compose_ix(50), compose_ix(60)]));
    batch.push(vec![]);
    assert_eq!(batch.deref().len(), 3);
}

#[test]
fn do_tx_data_puts_the_fee_recipient_before_the_transaction() {
    assert_eq!(do_tx_data(0x05, &compose_resource(9), &vec![0xde, 0xad]), vec![0x05, 1, 9, 0xde, 0xad]);
    assert_eq!(do_tx_data(0x05, &compose_resource(9), &vec![]), vec![0x05, 1, 9]);
}

#[test]
fn first_locked_resource_is_kept() {
    assert_eq!(first_resource(None, compose_resource(1)), compose_resource(1));
    assert_eq!(first_resource(Some(compose_resource(1)), compose_resource(2)), compose_resource(1));
}

#[test]
fn transaction_that_is_not_atomic_is_turned_down() {
    assert_eq!(check_atomic(&compose_emulation(true)), Ok(()));
    assert_eq!(
        check_atomic(&compose_emulation(false)),
        Err(RomeEvmError::Custom("Transaction is too large or expensive".to_string()))
    );
}

#[test]
fn cross_rollup_transaction_is_one_batch_behind_the_budget() {
    let r = compose_rome()
        .compose_cross_rollup_tx(vec![compose_ix(40), compose_ix(50)], Some(compose_resource(1)));
    assert_eq!(
        r,
        Ok((
            AtomicIxBatch(vec![compose_limit(), compose_heap(), compose_ix(40), compose_ix(50)]),
            compose_resource(1)
        ))
    );
}

#[test]
fn composing_without_a_resource_fails() {
    let message = "Failed to acquire resource for Solana transaction".to_string();
    assert_eq!(
        compose_rome().compose_cross_rollup_tx(vec![], None),
        Err(RomeEvmError::Custom(message.clone()))
    );
    assert_eq!(
        compose_rome().compose_cross_chain_tx(vec![], vec![compose_ix(60)], None),
        Err(RomeEvmError::Custom(message))
    );
}

#[test]
fn cross_chain_transaction_puts_the_ledger_instructions_last() {
    let r = compose_rome().compose_cross_chain_tx(
        vec![compose_ix(40)],
        vec![compose_ix(60), compose_ix(70)],
        Some(compose_resource(1)),
    );
    assert_eq!(
        r,
        Ok((
            AtomicIxBatch(vec![
                compose_limit(),
                compose_heap(),
                compose_ix(40),
                compose_ix(60),
                compose_ix(70)
            ]),
            compose_resource(1)
        ))
    );
}
