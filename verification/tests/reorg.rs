use rome_sdk::error::LoaderError;
use rome_sdk::fetcher::RetryPolicy;
use rome_sdk::ledger::{Block, BlockHeader, Commitment};
use rome_sdk::reorg::{
    recheck_finalized_block, slots_ascend, Verification, VerifyAction, VerifyEvent, VerifyStage,
};
use std::collections::BTreeMap;

fn reorg_retry() -> RetryPolicy {
    RetryPolicy { block_retries: 3, tx_retries: 5, delay_ms: 250 }
}

fn reorg_begin(blocks: Vec<(u64, Block)>) -> (Verification<String>, VerifyAction<String>) {
    Verification::begin(blocks, reorg_retry())
}

fn reorg_headers(slots: Vec<u64>) -> VerifyAction<String> {
    VerifyAction::FetchHeaders { slots, commitment: Commitment::Finalized, retries: 3, delay_ms: 250 }
}

fn reorg_reload(slots: Vec<u64>) -> VerifyAction<String> {
    VerifyAction::ReloadBlocks { slots, commitment: Commitment::Finalized }
}

fn reorg_block(slot: u64, hash: &str) -> Block {
    Block {
        slot,
        parent_slot: slot - 1,
        content_hash: hash.to_string(),
        filtered_transactions: None,
    }
}

fn reorg_header(slot: u64, hash: &str) -> Result<Option<BlockHeader>, String> {
    Ok(Some(BlockHeader { parent_slot: slot - 1, content_hash: hash.to_string(), signatures: None }))
}

fn reorg_stored(slots: &[u64]) -> Vec<(u64, Block)> {
    slots.iter().map(|s| (*s, reorg_block(*s, "H1"))).collect()
}

#[test]
fn recheck_finalized_block_compares_content_hashes() {
    let stored = reorg_block(50, "H1");
    let same = BlockHeader { parent_slot: 49, content_hash: "H1".to_string(), signatures: None };
    let other = BlockHeader { parent_slot: 49, content_hash: "H2".to_string(), signatures: None };
    assert!(!recheck_finalized_block(&stored, &Some(same)));
    assert!(recheck_finalized_block(&stored, &Some(other)));
}

#[test]
fn recheck_finalized_block_takes_a_vanished_slot_for_unchanged() {
    assert!(!recheck_finalized_block(&reorg_block(50, "H1"), &None));
}

#[test]
fn verification_of_nothing_is_over_at_once() {
    let (pass, action) = reorg_begin(vec![]);
    assert_eq!(action, VerifyAction::Done(Ok(())));
    assert_eq!(pass.stage, VerifyStage::Finished);
}

#[test]
fn diverged_finalized_block_is_reloaded_overwritten_and_signalled() {
    let (pass, action) = reorg_begin(vec![(50, reorg_block(50, "H1"))]);
    assert_eq!(action, reorg_headers(vec![50]));

    let (pass, action) = pass.advance(VerifyEvent::Headers(vec![reorg_header(50, "H2")]));
    assert_eq!(action, reorg_reload(vec![50]));

    let (pass, action) = pass.advance(VerifyEvent::Reloaded(vec![Ok(Some(reorg_block(50, "H2")))]));
    let mut expected = BTreeMap::new();
    expected.insert(50, reorg_block(50, "H2"));
    assert_eq!(action, VerifyAction::Overwrite { blocks: expected });

    let (pass, action) = pass.advance(VerifyEvent::Overwritten(Ok(())));
    assert_eq!(action, VerifyAction::Emit { slot: 50 });

    let (pass, action) = pass.advance(VerifyEvent::Emitted);
    assert_eq!(action, VerifyAction::Done(Ok(())));
    assert_eq!(pass.stage, VerifyStage::Finished);
}

#[test]
fn one_event_carries_the_lowest_diverged_slot() {
    let (pass, _) = reorg_begin(reorg_stored(&[12, 15, 17, 20]));
    let headers =
        vec![reorg_header(12, "X"), reorg_header(15, "X"), reorg_header(17, "H1"), reorg_header(20, "X")];
    let (pass, action) = pass.advance(VerifyEvent::Headers(headers));
    assert_eq!(action, reorg_reload(vec![12, 15, 20]));

    let reloaded = vec![
        Ok(Some(reorg_block(12, "X"))),
        Ok(Some(reorg_block(15, "X"))),
        Ok(Some(reorg_block(20, "X"))),
    ];
    let (pass, action) = pass.advance(VerifyEvent::Reloaded(reloaded));
    let mut expected = BTreeMap::new();
    expected.insert(12, reorg_block(12, "X"));
    expected.insert(15, reorg_block(15, "X"));
    expected.insert(20, reorg_block(20, "X"));
    assert_eq!(action, VerifyAction::Overwrite { blocks: expected });

    let (pass, action) = pass.advance(VerifyEvent::Overwritten(Ok(())));
    assert_eq!(action, VerifyAction::Emit { slot: 12 });
    let (_, action) = pass.advance(VerifyEvent::Emitted);
    assert_eq!(action, VerifyAction::Done(Ok(())));
}

#[test]
fn verification_of_unchanged_blocks_writes_nothing_twice() {
    for _ in 0..2 {
        let (pass, action) = reorg_begin(reorg_stored(&[50, 51]));
        assert_eq!(action, reorg_headers(vec![50, 51]));
        let (pass, action) =
            pass.advance(VerifyEvent::Headers(vec![reorg_header(50, "H1"), reorg_header(51, "H1")]));
        assert_eq!(action, VerifyAction::Done(Ok(())));
        assert_eq!(pass.stage, VerifyStage::Finished);
    }
}

#[test]
fn repaired_block_passes_the_next_verification() {
    let (pass, _) = reorg_begin(vec![(50, reorg_block(50, "H1"))]);
    let (pass, _) = pass.advance(VerifyEvent::Headers(vec![reorg_header(50, "H2")]));
    let (_, action) = pass.advance(VerifyEvent::Reloaded(vec![Ok(Some(reorg_block(50, "H2")))]));
    let repaired = match action {
        VerifyAction::Overwrite { blocks } => blocks.into_iter().collect::<Vec<_>>(),
        other => panic!("overwrite expected, got {:?}", other),
    };
    let (pass, _) = reorg_begin(repaired);
    let (_, action) = pass.advance(VerifyEvent::Headers(vec![reorg_header(50, "H2")]));
    assert_eq!(action, VerifyAction::Done(Ok(())));
}

#[test]
fn slot_that_the_ledger_no_longer_resolves_is_left_alone() {
    let (pass, _) = reorg_begin(reorg_stored(&[50]));
    let (_, action) = pass.advance(VerifyEvent::Headers(vec![Ok(None)]));
    assert_eq!(action, VerifyAction::Done(Ok(())));

    let (pass, _) = reorg_begin(reorg_stored(&[50]));
    let (pass, _) = pass.advance(VerifyEvent::Headers(vec![reorg_header(50, "H2")]));
    let (_, action) = pass.advance(VerifyEvent::Reloaded(vec![Ok(None)]));
    assert_eq!(action, VerifyAction::Done(Ok(())));
}

#[test]
fn header_failure_fails_the_pass_naming_the_slot() {
    let (pass, _) = reorg_begin(reorg_stored(&[50, 51, 52]));
    let headers = vec![reorg_header(50, "H1"), Err("down".to_string()), reorg_header(52, "H2")];
    let (pass, action) = pass.advance(VerifyEvent::Headers(headers));
    assert_eq!(
        action,
        VerifyAction::Done(Err(LoaderError::Recheck { slot: 51, cause: "down".to_string() }))
    );
    assert_eq!(pass.stage, VerifyStage::Finished);
}

#[test]
fn header_failure_waits_for_the_reloads_before_it() {
    let (pass, _) = reorg_begin(reorg_stored(&[50, 51, 52]));
    let headers = vec![reorg_header(50, "H2"), Err("down".to_string()), reorg_header(52, "H2")];
    let (pass, action) = pass.advance(VerifyEvent::Headers(headers));
    assert_eq!(action, reorg_reload(vec![50]));
    let (_, action) = pass.advance(VerifyEvent::Reloaded(vec![Ok(Some(reorg_block(50, "H2")))]));
    assert_eq!(
        action,
        VerifyAction::Done(Err(LoaderError::Recheck { slot: 51, cause: "down".to_string() }))
    );
}

#[test]
fn reload_failure_fails_the_pass_without_a_write() {
    let (pass, _) = reorg_begin(reorg_stored(&[50, 51]));
    let (pass, _) =
        pass.advance(VerifyEvent::Headers(vec![reorg_header(50, "H2"), reorg_header(51, "H2")]));
    let (pass, action) = pass.advance(VerifyEvent::Reloaded(vec![
        Ok(Some(reorg_block(50, "H2"))),
        Err("reload".to_string()),
    ]));
    assert_eq!(action, VerifyAction::Done(Err(LoaderError::Upstream("reload".to_string()))));
    assert_eq!(pass.stage, VerifyStage::Finished);
}

#[test]
fn store_failure_on_overwrite_emits_no_event() {
    let (pass, _) = reorg_begin(reorg_stored(&[50]));
    let (pass, _) = pass.advance(VerifyEvent::Headers(vec![reorg_header(50, "H2")]));
    let (pass, _) = pass.advance(VerifyEvent::Reloaded(vec![Ok(Some(reorg_block(50, "H2")))]));
    let (_, action) = pass.advance(VerifyEvent::Overwritten(Err("disk".to_string())));
    assert_eq!(action, VerifyAction::Done(Err(LoaderError::Upstream("disk".to_string()))));
}

#[test]
fn verification_rejects_answers_that_do_not_fit() {
    let (pass, _) = reorg_begin(reorg_stored(&[50, 51]));
    let (_, action) = pass.advance(VerifyEvent::Headers(vec![reorg_header(50, "H1")]));
    assert_eq!(action, VerifyAction::Done(Err(LoaderError::UnexpectedEvent)));

    let (pass, _) = reorg_begin(reorg_stored(&[50]));
    let (_, action) = pass.advance(VerifyEvent::Emitted);
    assert_eq!(action, VerifyAction::Done(Err(LoaderError::UnexpectedEvent)));

    let (pass, _) = reorg_begin(reorg_stored(&[50]));
    let (pass, _) = pass.advance(VerifyEvent::Headers(vec![reorg_header(50, "H2")]));
    let (_, action) = pass.advance(VerifyEvent::Reloaded(vec![]));
    assert_eq!(action, VerifyAction::Done(Err(LoaderError::UnexpectedEvent)));
}

#[test]
fn header_failure_of_the_lowest_slot_is_the_one_reported() {
    let (pass, _) = reorg_begin(reorg_stored(&[50, 51, 52]));
    let headers = vec![reorg_header(50, "H1"), Err("low".to_string()), Err("high".to_string())];
    let (_, action) = pass.advance(VerifyEvent::Headers(headers));
    assert_eq!(
        action,
        VerifyAction::Done(Err(LoaderError::Recheck { slot: 51, cause: "low".to_string() }))
    );
}

#[test]
fn slots_ascend_tells_a_map_by_slot() {
    assert!(slots_ascend(&reorg_stored(&[])));
    assert!(slots_ascend(&reorg_stored(&[7])));
    assert!(slots_ascend(&reorg_stored(&[7, 8, 20])));
    assert!(!slots_ascend(&reorg_stored(&[7, 7])));
    assert!(!slots_ascend(&reorg_stored(&[8, 7, 20])));
}
