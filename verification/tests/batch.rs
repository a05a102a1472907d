use rome_sdk::batch::{batch_end, batch_slots, load_blocks};
use rome_sdk::error::LoaderError;
use rome_sdk::ledger::Block;
use std::collections::BTreeMap;

fn batch_block(slot: u64) -> Block {
    Block {
        slot,
        parent_slot: slot.saturating_sub(1),
        content_hash: format!("hash-{}", slot),
        filtered_transactions: None,
    }
}

#[test]
fn batch_end_is_the_nearer_of_tip_and_batch_size() {
    assert_eq!(batch_end(100, 105, 10), 105);
    assert_eq!(batch_end(100, 150, 10), 110);
    assert_eq!(batch_end(100, 110, 10), 110);
    assert_eq!(batch_end(100, 100, 10), 100);
    assert_eq!(batch_end(7, 9, 0), 7);
}

#[test]
fn batch_end_does_not_overflow_at_the_top() {
    assert_eq!(batch_end(u64::MAX - 3, u64::MAX, 10), u64::MAX);
    assert_eq!(batch_end(5, u64::MAX, u64::MAX), u64::MAX);
    assert_eq!(batch_end(u64::MAX - 3, u64::MAX, 2), u64::MAX - 1);
}

#[test]
fn batch_slots_list_the_range_without_gaps() {
    assert_eq!(batch_slots(100, 105), vec![100, 101, 102, 103, 104]);
    assert_eq!(batch_slots(7, 7), Vec::<u64>::new());
    assert_eq!(batch_slots(u64::MAX - 1, u64::MAX), vec![u64::MAX - 1]);
}

#[test]
fn load_blocks_returns_every_block_and_omits_skipped_slots() {
    let slots = vec![10, 11, 12, 13];
    let outcomes: Vec<Result<Option<Block>, String>> =
        vec![Ok(Some(batch_block(10))), Ok(None), Ok(Some(batch_block(12))), Ok(None)];
    let mut expected = BTreeMap::new();
    expected.insert(10, batch_block(10));
    expected.insert(12, batch_block(12));
    assert_eq!(load_blocks(&slots, outcomes), Ok(expected));
}

#[test]
fn load_blocks_of_no_slot_is_empty() {
    assert_eq!(load_blocks::<String>(&vec![], vec![]), Ok(BTreeMap::new()));
}

#[test]
fn load_blocks_fails_naming_every_unresolved_slot() {
    let slots = vec![10, 11, 12, 13];
    let outcomes: Vec<Result<Option<Block>, String>> = vec![
        Ok(Some(batch_block(10))),
        Err("timeout".to_string()),
        Ok(None),
        Err("refused".to_string()),
    ];
    assert_eq!(load_blocks(&slots, outcomes), Err(LoaderError::BatchFailed { slots: vec![11, 13] }));
}

#[test]
fn load_blocks_counts_a_slot_without_answer_as_unresolved() {
    let slots = vec![10, 11, 12];
    let outcomes: Vec<Result<Option<Block>, String>> = vec![Ok(Some(batch_block(10)))];
    assert_eq!(load_blocks(&slots, outcomes), Err(LoaderError::BatchFailed { slots: vec![11, 12] }));
}

#[test]
fn load_blocks_ignores_answers_past_the_slots() {
    let slots = vec![10];
    let outcomes: Vec<Result<Option<Block>, String>> =
        vec![Ok(Some(batch_block(10))), Err("stray".to_string())];
    let mut expected = BTreeMap::new();
    expected.insert(10, batch_block(10));
    assert_eq!(load_blocks(&slots, outcomes), Ok(expected));
}
