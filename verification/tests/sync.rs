use rome_sdk::error::LoaderError;
use rome_sdk::fetcher::RetryPolicy;
use rome_sdk::ledger::{Block, BlockHeader, Commitment};
use rome_sdk::reorg::{VerifyAction, VerifyEvent};
use rome_sdk::sync::{first_cursor, get_latest_slots, DriverAction, DriverEvent, SyncDriver};
use std::collections::BTreeMap;

fn sync_retry() -> RetryPolicy {
    RetryPolicy { block_retries: 3, tx_retries: 5, delay_ms: 250 }
}

fn sync_block(slot: u64) -> Block {
    Block {
        slot,
        parent_slot: slot.saturating_sub(1),
        content_hash: format!("hash-{}", slot),
        filtered_transactions: None,
    }
}

fn sync_blocks(slots: std::ops::Range<u64>) -> Vec<Result<Option<Block>, String>> {
    slots.map(|s| Ok(Some(sync_block(s)))).collect()
}

fn sync_map(slots: std::ops::Range<u64>) -> BTreeMap<u64, Block> {
    slots.map(|s| (s, sync_block(s))).collect()
}

fn sync_tips(confirmed: u64, finalized: u64) -> DriverEvent<String> {
    DriverEvent::Tips { confirmed: Ok(confirmed), finalized: Ok(finalized) }
}

fn sync_start(start: u64, batch_size: u64) -> SyncDriver<String> {
    let (driver, action) =
        SyncDriver::start(Ok(None), Some(start), batch_size, Commitment::Confirmed, 400, sync_retry())
            .unwrap();
    assert_eq!(action, DriverAction::QueryTips);
    driver
}

/// Takes a fresh driver through its first cycle, up to the first sleep.
fn sync_live(start: u64, batch_size: u64) -> SyncDriver<String> {
    let driver = sync_start(start, batch_size);
    let (driver, action) = driver.advance(sync_tips(start, start));
    assert_eq!(action, DriverAction::SetFinalized { slot: start });
    let (driver, action) = driver.advance(DriverEvent::Finalized(Ok(vec![])));
    assert_eq!(action, DriverAction::NotifyCaughtUp);
    let (driver, action) = driver.advance(DriverEvent::Notified);
    assert_eq!(action, DriverAction::Sleep { millis: 400, error: None });
    assert!(driver.caught_up());
    driver
}

#[test]
fn get_latest_slots_needs_both_tips() {
    assert_eq!(get_latest_slots::<String>(Ok(105), Ok(102)), Ok((105, 102)));
    assert_eq!(get_latest_slots(Err("a".to_string()), Ok(102)), Err(LoaderError::LatestSlots));
    assert_eq!(get_latest_slots(Ok(105), Err("b".to_string())), Err(LoaderError::LatestSlots));
    assert_eq!(
        get_latest_slots(Err("a".to_string()), Err("b".to_string())),
        Err(LoaderError::LatestSlots)
    );
}

#[test]
fn first_cursor_prefers_the_store() {
    assert_eq!(first_cursor::<String>(Ok(Some(77)), Some(100)), Ok(77));
    assert_eq!(first_cursor::<String>(Ok(Some(77)), None), Ok(77));
    assert_eq!(first_cursor::<String>(Ok(None), Some(100)), Ok(100));
}

#[test]
fn first_cursor_has_no_default() {
    assert_eq!(first_cursor::<String>(Ok(None), None), Err(LoaderError::MissingStartSlot));
    assert_eq!(
        first_cursor(Err("store".to_string()), Some(100)),
        Err(LoaderError::Upstream("store".to_string()))
    );
}

#[test]
fn start_without_any_slot_fails() {
    let r = SyncDriver::<String>::start(Ok(None), None, 10, Commitment::Confirmed, 400, sync_retry());
    assert!(matches!(r, Err(LoaderError::MissingStartSlot)));
    let r = SyncDriver::start(
        Err("store".to_string()),
        Some(1),
        10,
        Commitment::Confirmed,
        400,
        sync_retry(),
    );
    assert!(matches!(r, Err(LoaderError::Upstream(e)) if e == "store"));
}

#[test]
fn first_cycle_from_an_empty_store() {
    let driver = sync_start(100, 10);
    assert_eq!(driver.cursor(), 100);
    assert!(!driver.caught_up());

    let (driver, action) = driver.advance(sync_tips(105, 102));
    assert_eq!(
        action,
        DriverAction::LoadBlocks {
            slots: vec![100, 101, 102, 103, 104],
            commitment: Commitment::Confirmed,
        }
    );
    assert_eq!(driver.cursor(), 100);

    let (driver, action) = driver.advance(DriverEvent::Loaded(sync_blocks(100..105)));
    assert_eq!(action, DriverAction::StoreBlocks { blocks: sync_map(100..105), finalized: 102 });
    assert_eq!(driver.cursor(), 100);

    let (driver, action) = driver.advance(DriverEvent::Stored(Ok(())));
    assert_eq!(driver.cursor(), 100);
    assert_eq!(action, DriverAction::SetFinalized { slot: 102 });

    let (driver, action) = driver.advance(DriverEvent::Finalized(Ok(vec![])));
    assert_eq!(driver.cursor(), 105);
    assert_eq!(action, DriverAction::NotifyCaughtUp);
    assert!(driver.caught_up());

    let (driver, action) = driver.advance(DriverEvent::Notified);
    assert_eq!(action, DriverAction::Sleep { millis: 400, error: None });
    assert_eq!(driver.cursor(), 105);

    let (_, action) = driver.advance(DriverEvent::Woke);
    assert_eq!(action, DriverAction::QueryTips);
}

#[test]
fn batches_follow_one_another_without_gaps() {
    let driver = sync_start(100, 2);
    let (driver, action) = driver.advance(sync_tips(105, 90));
    assert_eq!(
        action,
        DriverAction::LoadBlocks { slots: vec![100, 101], commitment: Commitment::Confirmed }
    );
    let (driver, _) = driver.advance(DriverEvent::Loaded(sync_blocks(100..102)));
    let (driver, action) = driver.advance(DriverEvent::Stored(Ok(())));
    assert_eq!(
        action,
        DriverAction::LoadBlocks { slots: vec![102, 103], commitment: Commitment::Confirmed }
    );
    let (driver, _) = driver.advance(DriverEvent::Loaded(sync_blocks(102..104)));
    let (driver, action) = driver.advance(DriverEvent::Stored(Ok(())));
    assert_eq!(action, DriverAction::LoadBlocks { slots: vec![104], commitment: Commitment::Confirmed });
    let (driver, action) = driver.advance(DriverEvent::Loaded(vec![Ok(None)]));
    assert_eq!(action, DriverAction::StoreBlocks { blocks: BTreeMap::new(), finalized: 90 });
    let (driver, action) = driver.advance(DriverEvent::Stored(Ok(())));
    assert_eq!(action, DriverAction::SetFinalized { slot: 90 });
    // the cursor moves when the whole cycle has succeeded, not before
    assert_eq!(driver.cursor(), 100);
    let (driver, action) = driver.advance(DriverEvent::Finalized(Ok(vec![])));
    assert_eq!(action, DriverAction::NotifyCaughtUp);
    assert_eq!(driver.cursor(), 105);
}

#[test]
fn failed_cycle_leaves_no_partial_advance() {
    let driver = sync_live(100, 2);
    let (driver, _) = driver.advance(DriverEvent::Woke);
    let (driver, _) = driver.advance(sync_tips(104, 100));
    let (driver, _) = driver.advance(DriverEvent::Loaded(sync_blocks(100..102)));
    let (driver, action) = driver.advance(DriverEvent::Stored(Ok(())));
    assert_eq!(
        action,
        DriverAction::LoadBlocks { slots: vec![102, 103], commitment: Commitment::Confirmed }
    );
    let outcomes = vec![Ok(Some(sync_block(102))), Err("gone".to_string())];
    let (driver, action) = driver.advance(DriverEvent::Loaded(outcomes));
    assert_eq!(
        action,
        DriverAction::Sleep {
            millis: 400,
            error: Some(LoaderError::BatchFailed { slots: vec![103] }),
        }
    );
    assert_eq!(driver.cursor(), 100);
    let (driver, _) = driver.advance(DriverEvent::Woke);
    let (driver, action) = driver.advance(sync_tips(104, 100));
    assert_eq!(
        action,
        DriverAction::LoadBlocks { slots: vec![100, 101], commitment: Commitment::Confirmed }
    );
    assert_eq!(driver.cursor(), 100);
}

#[test]
fn failed_verification_leaves_the_cursor_where_the_cycle_started() {
    let driver = sync_live(100, 10);
    let (driver, _) = driver.advance(DriverEvent::Woke);
    let (driver, _) = driver.advance(sync_tips(102, 100));
    let (driver, _) = driver.advance(DriverEvent::Loaded(sync_blocks(100..102)));
    let (driver, _) = driver.advance(DriverEvent::Stored(Ok(())));
    let (driver, _) = driver.advance(DriverEvent::Finalized(Ok(vec![(99, sync_block(99))])));
    let (driver, action) =
        driver.advance(DriverEvent::Verify(VerifyEvent::Headers(vec![Err("rpc".to_string())])));
    assert!(matches!(action, DriverAction::Sleep { error: Some(_), .. }));
    assert_eq!(driver.cursor(), 100);
}

#[test]
fn finalized_blocks_out_of_order_are_no_answer() {
    let driver = sync_live(100, 10);
    let (driver, _) = driver.advance(DriverEvent::Woke);
    let (driver, _) = driver.advance(sync_tips(100, 100));
    let crossed = vec![(99, sync_block(99)), (98, sync_block(98))];
    let (_, action) = driver.advance(DriverEvent::Finalized(Ok(crossed)));
    assert_eq!(action, DriverAction::Stop(LoaderError::UnexpectedEvent));
}

#[test]
fn signal_fires_once() {
    let driver = sync_live(100, 10);
    let (driver, _) = driver.advance(DriverEvent::Woke);
    let (driver, action) = driver.advance(sync_tips(100, 100));
    assert_eq!(action, DriverAction::SetFinalized { slot: 100 });
    let (_, action) = driver.advance(DriverEvent::Finalized(Ok(vec![])));
    assert_eq!(action, DriverAction::Sleep { millis: 400, error: None });
}

#[test]
fn failed_tips_query_sleeps_and_keeps_the_cursor() {
    let driver = sync_start(100, 10);
    let (driver, action) = driver.advance(DriverEvent::Tips {
        confirmed: Ok(105),
        finalized: Err("rpc".to_string()),
    });
    assert_eq!(action, DriverAction::Sleep { millis: 400, error: Some(LoaderError::LatestSlots) });
    assert_eq!(driver.cursor(), 100);
    let (_, action) = driver.advance(DriverEvent::Woke);
    assert_eq!(action, DriverAction::QueryTips);
}

#[test]
fn batch_failure_before_the_mirror_is_live_stops_the_driver() {
    let driver = sync_start(100, 10);
    let (driver, _) = driver.advance(sync_tips(103, 101));
    let outcomes = vec![Ok(Some(sync_block(100))), Err("gone".to_string()), Ok(None)];
    let (driver, action) = driver.advance(DriverEvent::Loaded(outcomes));
    assert_eq!(action, DriverAction::Stop(LoaderError::BatchFailed { slots: vec![101] }));
    assert_eq!(driver.cursor(), 100);
    let (_, action) = driver.advance(DriverEvent::Woke);
    assert_eq!(action, DriverAction::Stop(LoaderError::UnexpectedEvent));
}

#[test]
fn batch_failure_of_a_live_mirror_is_retried_from_the_same_cursor() {
    let driver = sync_live(100, 10);
    let (driver, _) = driver.advance(DriverEvent::Woke);
    let (driver, action) = driver.advance(sync_tips(103, 101));
    assert_eq!(
        action,
        DriverAction::LoadBlocks { slots: vec![100, 101, 102], commitment: Commitment::Confirmed }
    );
    let outcomes = vec![Err("a".to_string()), Ok(Some(sync_block(101))), Err("b".to_string())];
    let (driver, action) = driver.advance(DriverEvent::Loaded(outcomes));
    assert_eq!(
        action,
        DriverAction::Sleep {
            millis: 400,
            error: Some(LoaderError::BatchFailed { slots: vec![100, 102] }),
        }
    );
    assert_eq!(driver.cursor(), 100);
    let (driver, _) = driver.advance(DriverEvent::Woke);
    let (_, action) = driver.advance(sync_tips(103, 101));
    assert_eq!(
        action,
        DriverAction::LoadBlocks { slots: vec![100, 101, 102], commitment: Commitment::Confirmed }
    );
}

#[test]
fn store_failure_does_not_advance_the_cursor() {
    let driver = sync_live(100, 10);
    let (driver, _) = driver.advance(DriverEvent::Woke);
    let (driver, _) = driver.advance(sync_tips(102, 101));
    let (driver, _) = driver.advance(DriverEvent::Loaded(sync_blocks(100..102)));
    let (driver, action) = driver.advance(DriverEvent::Stored(Err("disk".to_string())));
    assert_eq!(
        action,
        DriverAction::Sleep { millis: 400, error: Some(LoaderError::Upstream("disk".to_string())) }
    );
    assert_eq!(driver.cursor(), 100);
}

#[test]
fn watermark_failure_before_the_mirror_is_live_is_fatal() {
    let driver = sync_start(100, 10);
    let (driver, _) = driver.advance(sync_tips(100, 99));
    let (_, action) = driver.advance(DriverEvent::Finalized(Err("store".to_string())));
    assert_eq!(action, DriverAction::Stop(LoaderError::Upstream("store".to_string())));
}

#[test]
fn newly_finalized_blocks_are_verified_before_the_driver_sleeps() {
    let driver = sync_live(100, 10);
    let (driver, _) = driver.advance(DriverEvent::Woke);
    let (driver, _) = driver.advance(sync_tips(100, 100));
    let crossed = vec![(98, sync_block(98)), (99, sync_block(99))];
    let (driver, action) = driver.advance(DriverEvent::Finalized(Ok(crossed)));
    assert_eq!(
        action,
        DriverAction::Verify(VerifyAction::FetchHeaders {
            slots: vec![98, 99],
            commitment: Commitment::Finalized,
            retries: 3,
            delay_ms: 250,
        })
    );

    let changed = BlockHeader { parent_slot: 98, content_hash: "other".to_string(), signatures: None };
    let same = BlockHeader { parent_slot: 97, content_hash: "hash-98".to_string(), signatures: None };
    let (driver, action) =
        driver.advance(DriverEvent::Verify(VerifyEvent::Headers(vec![Ok(Some(same)), Ok(Some(changed))])));
    assert_eq!(
        action,
        DriverAction::Verify(VerifyAction::ReloadBlocks {
            slots: vec![99],
            commitment: Commitment::Finalized,
        })
    );

    let mut reloaded = sync_block(99);
    reloaded.content_hash = "other".to_string();
    let (driver, action) =
        driver.advance(DriverEvent::Verify(VerifyEvent::Reloaded(vec![Ok(Some(reloaded.clone()))])));
    let mut expected = BTreeMap::new();
    expected.insert(99, reloaded);
    assert_eq!(action, DriverAction::Verify(VerifyAction::Overwrite { blocks: expected }));

    let (driver, action) = driver.advance(DriverEvent::Verify(VerifyEvent::Overwritten(Ok(()))));
    assert_eq!(action, DriverAction::Verify(VerifyAction::Emit { slot: 99 }));
    let (driver, action) = driver.advance(DriverEvent::Verify(VerifyEvent::Emitted));
    assert_eq!(action, DriverAction::Sleep { millis: 400, error: None });
    assert_eq!(driver.cursor(), 100);
}

#[test]
fn verification_failure_of_a_live_mirror_is_logged_and_swallowed() {
    let driver = sync_live(100, 10);
    let (driver, _) = driver.advance(DriverEvent::Woke);
    let (driver, _) = driver.advance(sync_tips(100, 100));
    let (driver, _) = driver.advance(DriverEvent::Finalized(Ok(vec![(99, sync_block(99))])));
    let (_, action) =
        driver.advance(DriverEvent::Verify(VerifyEvent::Headers(vec![Err("rpc".to_string())])));
    assert_eq!(
        action,
        DriverAction::Sleep {
            millis: 400,
            error: Some(LoaderError::Recheck { slot: 99, cause: "rpc".to_string() }),
        }
    );
}

#[test]
fn cursor_never_moves_back() {
    let mut driver = sync_start(100, 3);
    let mut last = driver.cursor();
    let events: Vec<DriverEvent<String>> = vec![
        sync_tips(104, 100),
        DriverEvent::Loaded(sync_blocks(100..103)),
        DriverEvent::Stored(Ok(())),
        DriverEvent::Loaded(sync_blocks(103..104)),
        DriverEvent::Stored(Ok(())),
        DriverEvent::Finalized(Ok(vec![])),
        DriverEvent::Notified,
        DriverEvent::Woke,
        sync_tips(90, 80),
        DriverEvent::Finalized(Ok(vec![])),
        DriverEvent::Woke,
        sync_tips(106, 104),
        DriverEvent::Loaded(vec![Err("x".to_string()), Ok(None)]),
        DriverEvent::Woke,
    ];
    let mut seen = vec![];
    for event in events {
        let (next, _) = driver.advance(event);
        assert!(next.cursor() >= last);
        last = next.cursor();
        seen.push(last);
        driver = next;
    }
    assert_eq!(seen, vec![100, 100, 100, 100, 100, 104, 104, 104, 104, 104, 104, 104, 104, 104]);
}

#[test]
fn driver_stops_on_an_event_it_did_not_ask_for() {
    let driver = sync_start(100, 10);
    let (driver, action) = driver.advance(DriverEvent::Stored(Ok(())));
    assert_eq!(action, DriverAction::Stop(LoaderError::UnexpectedEvent));
    assert_eq!(driver.cursor(), 100);
}
