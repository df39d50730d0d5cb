use bitcoin_coordinator::config::CoordinatorStorageSettings;
use bitcoin_coordinator::funding::FundingStorage;
use bitcoin_coordinator::primitives::{Multiplier, OutPoint, PublicKey, Transaction, TxOut, Txid};
use bitcoin_coordinator::settings::MULTIPLIER_ONE;
use bitcoin_coordinator::storage::{CoordinatorStorage, StoredNewsItem};
use bitcoin_coordinator::types::{
    CoordinatedTx, CoordinatorNews, FeeInfo, FundingData, FundingEntry, SpeedupContext, SpeedupData,
    SpeedupKind, TransactionState, TxKind, Utxo,
};
use std::collections::hash_map::RandomState;
use std::hash::{BuildHasher, Hasher};

const ONE: Multiplier = Multiplier { bits: MULTIPLIER_ONE };

fn dummy_pubkey() -> PublicKey {
    PublicKey { compressed: true, parity: 2, x_hi: 0x42, x_lo: 0x42 }
}

fn dummy_tx(txid: Txid, state: TransactionState) -> CoordinatedTx {
    CoordinatedTx {
        txid,
        tx: Transaction { version: 2, lock_time: 0, input: vec![], output: vec![] },
        kind: TxKind::Normal,
        state,
        broadcast_block_height: None,
        target_block_height: 0,
        stuck_in_mempool_blocks: None,
        confirmation_trigger: None,
        settled_block_height: None,
        fail_guard_until: None,
        retry_count: 0,
        fee_info: FeeInfo { fee: 1000, fee_rate: 1, package_fee_rate: 1, weight: 100 },
        context: "test".to_string(),
    }
}

fn new_storage() -> CoordinatorStorage {
    CoordinatorStorage::new(CoordinatorStorageSettings::default())
}

/// A txid that no other call returns.
fn random_txid() -> Txid {
    let mut bytes = [0u8; 32];
    for chunk in bytes.chunks_mut(8) {
        chunk.copy_from_slice(&RandomState::new().build_hasher().finish().to_le_bytes());
    }
    Txid { bytes }
}

#[test]
fn test_insert_get_remove_tx() {
    let mut storage = new_storage();

    let txid = random_txid();
    let tx = dummy_tx(txid, TransactionState::ToDispatch);

    storage.insert_tx(tx.clone());
    let fetched = storage.get_tx_by_id(txid).unwrap();
    assert_eq!(fetched.txid, tx.txid);
    assert_eq!(fetched.state, tx.state);

    storage.remove_tx(txid);
    let fetched = storage.get_tx_by_id(txid);
    assert!(fetched.is_none());

}

#[test]
fn test_get_all_txs() {
    let mut storage = new_storage();

    let tx1 = dummy_tx(random_txid(), TransactionState::ToDispatch);
    let tx2 = dummy_tx(random_txid(), TransactionState::InMempool);

    storage.insert_txs(vec![tx1.clone(), tx2.clone()]);
    let all = storage.get_all_txs();
    assert_eq!(all.len(), 2);
    assert!(all.contains(&tx1));
    assert!(all.contains(&tx2));

}

#[test]
fn test_update_tx_state() {
    let mut storage = new_storage();

    let txid = random_txid();
    let tx = dummy_tx(txid, TransactionState::ToDispatch);
    storage.insert_tx(tx);

    // Valid: ToDispatch -> InMempool
    storage
        .update_tx_state(txid, TransactionState::InMempool)
        .unwrap();
    let updated = storage.get_tx_by_id(txid).unwrap();
    assert_eq!(updated.state, TransactionState::InMempool);
    assert!(storage.get_and_mark_news(1).is_empty());

    // Valid: InMempool -> Confirmed
    storage
        .update_tx_state(txid, TransactionState::Confirmed)
        .unwrap();
    let updated = storage.get_tx_by_id(txid).unwrap();
    assert_eq!(updated.state, TransactionState::Confirmed);
    assert!(storage.get_and_mark_news(2).is_empty());

    // Valid: Confirmed -> ToDispatch (deep-reorg recovery, where the speedup engine re-queues a not_found Confirmed speedup for re-dispatch).
    storage
        .update_tx_state(txid, TransactionState::ToDispatch)
        .unwrap();
    let updated = storage.get_tx_by_id(txid).unwrap();
    assert_eq!(updated.state, TransactionState::ToDispatch);
    assert!(storage.get_and_mark_news(3).is_empty());

}

#[test]
fn test_crash_recovery_state_transitions() {
    let mut storage = new_storage();

    // InMempool -> Finalized (fast confirmation, skipped Confirmed)
    let txid1 = random_txid();
    storage
        .insert_tx(dummy_tx(txid1, TransactionState::InMempool));
    storage
        .settle_tx(txid1, TransactionState::Finalized, 0)
        .unwrap();
    assert!(storage.get_and_mark_news(1).is_empty());

    // ToDispatch -> Confirmed (restart after dispatch, tx already on-chain)
    let txid2 = random_txid();
    storage
        .insert_tx(dummy_tx(txid2, TransactionState::ToDispatch));
    storage
        .update_tx_state(txid2, TransactionState::Confirmed)
        .unwrap();
    assert!(storage.get_and_mark_news(2).is_empty());

    // ToDispatch -> Finalized (restart after dispatch, tx already finalized)
    let txid3 = random_txid();
    storage
        .insert_tx(dummy_tx(txid3, TransactionState::ToDispatch));
    storage
        .settle_tx(txid3, TransactionState::Finalized, 0)
        .unwrap();
    assert!(storage.get_and_mark_news(3).is_empty());

}

#[test]
fn test_update_tx_state_not_found() {
    let mut storage = new_storage();

    let txid = random_txid();

    storage
        .update_tx_state(txid, TransactionState::InMempool)
        .unwrap();

    let news = storage.get_and_mark_news(1);
    assert_eq!(news.len(), 1);
    assert_eq!(news[0], CoordinatorNews::TxNotFound { txid: txid });

}

#[test]
fn test_mark_as_retry_success() {
    let mut storage = new_storage();

    let txid = random_txid();
    let tx = dummy_tx(txid, TransactionState::InMempool);

    storage.insert_tx(tx);

    storage.mark_as_retry(txid);

    let updated = storage.get_tx_by_id(txid).unwrap();

    assert_eq!(updated.state, TransactionState::ToDispatch);
    assert_eq!(updated.retry_count, 1);

}

#[test]
fn test_add_and_get_news() {
    let mut storage = new_storage();

    let news_item = CoordinatorNews::TxNotFound {
        txid: random_txid(),
    };
    storage.add_news(news_item.clone());

    // First call at block 10 shows the item.
    let news = storage.get_and_mark_news(10);
    assert_eq!(news.len(), 1);
    assert_eq!(news[0], news_item);

    // Second call at same block returns empty (already shown this block).
    assert!(storage.get_and_mark_news(10).is_empty());

    // Next block shows it again (unacked).
    let news2 = storage.get_and_mark_news(11);
    assert_eq!(news2.len(), 1);
    assert_eq!(news2[0], news_item);

}

#[test]
fn test_ack_news() {
    let mut storage = new_storage();

    let news_item1 = CoordinatorNews::TxNotFound {
        txid: random_txid(),
    };
    let news_item2 = CoordinatorNews::InvalidStateTransition {
        txid: random_txid(),
        from: TransactionState::InMempool,
        to: TransactionState::Finalized,
    };

    storage.add_news(news_item1.clone());
    storage.add_news(news_item2.clone());

    // Acking item1 hides it immediately.
    storage.ack_news(news_item1.clone(), 10);

    let news = storage.get_and_mark_news(10);
    assert_eq!(news.len(), 1);
    assert_eq!(news[0], news_item2);

    // item1 is still in storage (not yet cleaned up), not returned.
    assert!(storage.get_and_mark_news(10).is_empty());

    // Cleanup at block 11 removes item1 (acked_at=10 < 11).
    storage.cleanup_news(11);
    // item2 was shown at 10, re-appears at 11.
    let news3 = storage.get_and_mark_news(11);
    assert_eq!(news3.len(), 1);
    assert_eq!(news3[0], news_item2);

}

/// Adding the same item multiple times stores it only once.
/// Repeated get_and_mark_news at the same block returns empty after the first call.
#[test]
fn test_add_news_dedup() {
    let mut storage = new_storage();

    let news = CoordinatorNews::FundingNotAvailable;

    storage.add_news(news.clone());
    storage.add_news(news.clone());
    storage.add_news(news.clone());

    let returned = storage.get_and_mark_news(5);
    assert_eq!(returned.len(), 1);

    // Same block: already shown.
    assert!(storage.get_and_mark_news(5).is_empty());

    // Next block: shows again.
    assert_eq!(storage.get_and_mark_news(6).len(), 1);

}

/// Two distinct items are both stored and returned together in the same call.
#[test]
fn test_add_news_distinct_items_both_stored() {
    let mut storage = new_storage();

    let item1 = CoordinatorNews::FundingNotAvailable;
    let item2 = CoordinatorNews::EstimateFeerateTooHigh {
        estimated_fee_rate: 50,
        max_fee_rate: 10,
    };

    storage.add_news(item1.clone());
    storage.add_news(item2.clone());

    let returned = storage.get_and_mark_news(1);
    assert_eq!(returned.len(), 2);
    assert!(returned.contains(&item1));
    assert!(returned.contains(&item2));

}

/// Acked item blocks re-add until cleanup; after cleanup the same news
/// can be stored and shown again.
#[test]
fn test_ack_blocks_readd_until_cleanup() {
    let mut storage = new_storage();

    let news = CoordinatorNews::FundingNotAvailable;
    storage.add_news(news.clone());
    storage.get_and_mark_news(10);
    storage.ack_news(news.clone(), 10);

    // Acked item no longer shown.
    assert!(storage.get_and_mark_news(10).is_empty());
    assert!(storage.get_and_mark_news(11).is_empty());

    // Re-add is blocked: the acked record still exists in storage.
    storage.add_news(news.clone());
    assert!(storage.get_and_mark_news(11).is_empty());

    // Cleanup at block 11 removes the acked item (acked_at=10 < 11).
    storage.cleanup_news(11);
    assert!(storage.get_and_mark_news(12).is_empty());

    // Now re-add succeeds and the item is visible.
    storage.add_news(news.clone());
    assert_eq!(storage.get_and_mark_news(12).len(), 1);

}

/// cleanup_news at the same block as ack does not remove the item;
/// only a strictly later block triggers removal.
#[test]
fn test_cleanup_same_block_keeps_item() {
    let mut storage = new_storage();

    let news = CoordinatorNews::FundingNotAvailable;
    storage.add_news(news.clone());
    storage.ack_news(news.clone(), 5);

    // Cleanup at same block: acked_at (5) >= current (5) → retained.
    storage.cleanup_news(5);
    // Item is acked, not shown.
    assert!(storage.get_and_mark_news(5).is_empty());

    // Cleanup at block 6: acked_at (5) < 6 → removed.
    storage.cleanup_news(6);

    // Now re-add works.
    storage.add_news(news.clone());
    assert_eq!(storage.get_and_mark_news(7).len(), 1);

}

/// `settle_tx` records `settled_block_height` when transitioning to a terminal state.
#[test]
fn test_settle_tx_records_height() {
    let mut storage = new_storage();

    let txid = random_txid();
    storage
        .insert_tx(dummy_tx(txid, TransactionState::InMempool));

    storage
        .settle_tx(txid, TransactionState::Finalized, 42)
        .unwrap();

    let updated = storage.get_tx_by_id(txid).unwrap();
    assert_eq!(updated.state, TransactionState::Finalized);
    assert_eq!(updated.settled_block_height, Some(42));
    assert!(storage.get_and_mark_news(0).is_empty());

}

/// `evict_stale_txs` removes txs whose settled height exceeds the threshold
/// and emits `TransactionEvicted` news.
#[test]
fn test_evict_stale_txs() {
    let mut storage = new_storage();

    let txid_stale = random_txid();
    let txid_fresh = random_txid();

    // Stale: settled at height 5, current height = 16 -> 11 blocks ago >= 10
    let mut stale = dummy_tx(txid_stale, TransactionState::Finalized);
    stale.settled_block_height = Some(5);
    storage.insert_tx(stale);

    // Fresh: settled at height 10, current height = 16 -> 6 blocks ago < 10
    let mut fresh = dummy_tx(txid_fresh, TransactionState::Finalized);
    fresh.settled_block_height = Some(10);
    storage.insert_tx(fresh);

    storage.evict_stale_txs(16);

    // Stale tx removed, fresh still present
    assert!(storage.get_tx_by_id(txid_stale).is_none());
    assert!(storage.get_tx_by_id(txid_fresh).is_some());

    // One eviction news item for the stale tx
    let news = storage.get_and_mark_news(1);
    assert_eq!(news.len(), 1);
    assert!(matches!(
        &news[0],
        CoordinatorNews::TransactionEvicted { txid, .. } if *txid == txid_stale
    ));

}

/// `remove_tx` removes the txid from the SpeedupList when the tx is a speedup.
#[test]
fn test_remove_tx_cleans_speedup_list() {
    let mut storage = new_storage();

    let txid1 = random_txid();
    let txid2 = random_txid();

    storage
        .insert_speedup(dummy_tx(txid1, TransactionState::InMempool));
    storage
        .insert_speedup(dummy_tx(txid2, TransactionState::InMempool));

    assert_eq!(storage.get_speedups_ordered().len(), 2);

    storage.remove_tx(txid1);

    let remaining = storage.get_speedups_ordered();
    assert_eq!(remaining.len(), 1);
    assert_eq!(remaining[0].txid, txid2);

}

/// `evict_stale_txs` removes settled speedups from both the tx store and the SpeedupList.
#[test]
fn test_evict_speedup_removes_from_list() {
    let mut storage = new_storage();

    let txid_stale = random_txid();
    let txid_active = random_txid();

    let mut stale = dummy_tx(txid_stale, TransactionState::Finalized);
    stale.settled_block_height = Some(5);
    storage.insert_speedup(stale);

    storage
        .insert_speedup(dummy_tx(txid_active, TransactionState::InMempool));

    assert_eq!(storage.get_speedups_ordered().len(), 2);

    // current_height = 16: stale settled at 5 -> 11 blocks ago >= max_tracking_confirmations(10)
    storage.evict_stale_txs(16);

    let remaining = storage.get_speedups_ordered();
    assert_eq!(remaining.len(), 1);
    assert_eq!(remaining[0].txid, txid_active);

}

/// After a reorg a speedup stays in the SpeedupList with its updated state.
#[test]
fn test_reorg_does_not_remove_from_speedup_list() {
    let mut storage = new_storage();

    let txid = random_txid();
    let mut tx = dummy_tx(txid, TransactionState::Confirmed);
    tx.broadcast_block_height = Some(10);
    storage.insert_speedup(tx.clone());

    // Simulate reorg: update state back to InMempool
    storage
        .update_tx_state(txid, TransactionState::InMempool)
        .unwrap();

    let speedups = storage.get_speedups_ordered();
    assert_eq!(speedups.len(), 1);
    assert_eq!(speedups[0].state, TransactionState::InMempool);

}

/// `get_pending_speedup_parents` keeps Confirmed and Finalized parents in PendingSpeedupParents.
/// They are still eligible for CPFP construction; only the parent hitting Failed or being missing
///  should evict from PendingSpeedupParents.
#[test]
fn test_pending_parents_keep_confirmed_and_finalized() {
    let mut storage = new_storage();

    let in_mempool_id = random_txid();
    let confirmed_id = random_txid();
    let finalized_id = random_txid();
    let failed_id = random_txid();

    storage
        .insert_tx(dummy_tx(in_mempool_id, TransactionState::InMempool));
    storage
        .insert_tx(dummy_tx(confirmed_id, TransactionState::Confirmed));
    let mut finalized_tx = dummy_tx(finalized_id, TransactionState::Finalized);
    finalized_tx.settled_block_height = Some(1);
    storage.insert_tx(finalized_tx);
    let mut failed_tx = dummy_tx(failed_id, TransactionState::Failed);
    failed_tx.settled_block_height = Some(1);
    storage.insert_tx(failed_tx);

    for id in [in_mempool_id, confirmed_id, finalized_id, failed_id] {
        storage.add_pending_speedup_parent(id);
    }

    // First read returns the 3 still-CPFP-eligible parents and lazily prunes
    // the Failed one.
    let returned = storage.get_pending_speedup_parents();
    let returned_ids: Vec<Txid> = returned.iter().map(|t| t.txid).collect();
    assert_eq!(returned.len(), 3);
    assert!(returned_ids.contains(&in_mempool_id));
    assert!(returned_ids.contains(&confirmed_id));
    assert!(returned_ids.contains(&finalized_id));
    assert!(!returned_ids.contains(&failed_id));

    // The non-Failed parents are still retained for future CPFP construction.
    // A second call returns the same three.
    let again = storage.get_pending_speedup_parents();
    let again_ids: Vec<Txid> = again.iter().map(|t| t.txid).collect();
    assert_eq!(again_ids.len(), 3);
    assert!(again_ids.contains(&in_mempool_id));
    assert!(again_ids.contains(&confirmed_id));
    assert!(again_ids.contains(&finalized_id));

}

/// `evict_stale_txs` refuses to evict a `NeedsSpeedup` parent that is still in PendingSpeedupParents,
/// even after `max_tracking_confirmations` have elapsed.
#[test]
fn test_evict_stale_keeps_needs_speedup_parent() {

    let mut storage = new_storage();

    let txid = random_txid();
    let mut tx = dummy_tx(txid, TransactionState::Finalized);
    let pub_key = dummy_pubkey();
    tx.kind = TxKind::NeedsSpeedup(SpeedupData::new(Utxo::new(txid, 0, 100_000, &pub_key)));
    tx.settled_block_height = Some(1);
    storage.insert_tx(tx);
    storage.add_pending_speedup_parent(txid);

    // Past the eviction threshold but parent is still in PendingSpeedupParents.
    storage.evict_stale_txs(100);

    assert!(
        storage.get_tx_by_id(txid).is_some(),
        "NeedsSpeedup parent in PendingSpeedupParents must not be evicted (SpeedupData must survive)"
    );
    assert!(
        storage.get_and_mark_news(1).is_empty(),
        "no TransactionEvicted news while the parent is still in PendingSpeedupParents"
    );

    // After the CPFP is built, parent is removed from PendingSpeedupParents and eviction
    // proceeds normally on the next tick.
    storage.remove_pending_speedup_parent(txid);
    storage.evict_stale_txs(100);

    assert!(
        storage.get_tx_by_id(txid).is_none(),
        "parent must be evicted once removed from PendingSpeedupParents"
    );

}

/// Live-coverage protection: a NeedsSpeedup parent that has been removed from PSP (because its CPFP was built)
/// must still be protected from eviction as long as any non-Failed-and-non-Finalized speedup references it
#[test]
fn test_evict_stale_keeps_parent_under_live_coverage() {

    let mut storage = new_storage();

    // Insert a NeedsSpeedup parent, settle it Finalized so it would otherwise be a candidate for eviction.
    let parent_id = random_txid();
    let mut parent = dummy_tx(parent_id, TransactionState::Finalized);
    let pub_key = dummy_pubkey();
    parent.kind =
        TxKind::NeedsSpeedup(SpeedupData::new(Utxo::new(parent_id, 0, 100_000, &pub_key)));
    parent.settled_block_height = Some(1);
    storage.insert_tx(parent);

    // Build a covering CPFP speedup in InMempool state (NOT in PSP since
    // the build flow removes it).
    let cpfp_id = random_txid();
    let mut cpfp = dummy_tx(cpfp_id, TransactionState::InMempool);
    cpfp.kind = TxKind::Speedup(SpeedupKind::CPFP {
        parents: vec![parent_id],
        context: SpeedupContext {
            funding_inputs: vec![Utxo::new(parent_id, 0, 100_000, &pub_key)],
            replaced_by: None,
            bump_fee_used: ONE,
            parent_data: vec![],
            spent: false,
        },
    });
    storage.insert_speedup(cpfp);

    // Eviction should NOT remove the parent, since live coverage protects it.
    storage.evict_stale_txs(100);
    assert!(
        storage.get_tx_by_id(parent_id).is_some(),
        "live-covered NeedsSpeedup parent must not be evicted"
    );

    // Once the covering speedup is Failed, the parent is no longer protected by live coverage and gets evicted on the next call.
    storage
        .settle_tx(cpfp_id, TransactionState::Failed, 100)
        .unwrap();
    storage.evict_stale_txs(200);
    assert!(
        storage.get_tx_by_id(parent_id).is_none(),
        "parent must be evicted once no live speedup references it"
    );

}

//Verifies prepend order + dedup then layered requeue semantics on the same PSP.
#[test]
fn test_pending_speedup_parents_prepend_and_requeue() {

    let mut storage = new_storage();
    let pub_key = dummy_pubkey();

    let p1 = random_txid();
    let p2 = random_txid();
    let p3 = random_txid();
    let p4 = random_txid();
    storage.add_pending_speedup_parent(p3);
    // [p3] + prepend [p1, p2] → [p1, p2, p3].
    storage.prepend_pending_speedup_parents(&[p1, p2]);
    // [p1, p2, p3] + prepend [p2, p4] → only p4 inserted (p2 already present) → [p4, p1, p2, p3].
    storage.prepend_pending_speedup_parents(&[p2, p4]);
    assert_eq!(storage.pending_txids(), vec![p4, p1, p2, p3]);
    // Empty input is a no-op.
    storage.prepend_pending_speedup_parents(&[]);
    assert_eq!(storage.pending_txids(), vec![p4, p1, p2, p3]);

    // Two NeedsSpeedup parents + one Speedup parent + one missing.
    let np1 = random_txid();
    let mut np1_tx = dummy_tx(np1, TransactionState::Finalized);
    np1_tx.kind = TxKind::NeedsSpeedup(SpeedupData::new(Utxo::new(np1, 0, 100, &pub_key)));
    storage.insert_tx(np1_tx);

    let np2 = random_txid();
    let mut np2_tx = dummy_tx(np2, TransactionState::Finalized);
    np2_tx.kind = TxKind::NeedsSpeedup(SpeedupData::new(Utxo::new(np2, 0, 100, &pub_key)));
    storage.insert_tx(np2_tx);

    let p_speedup = random_txid();
    let mut p_sp = dummy_tx(p_speedup, TransactionState::InMempool);
    p_sp.kind = TxKind::Speedup(SpeedupKind::CPFP {
        parents: vec![],
        context: SpeedupContext {
            funding_inputs: vec![Utxo::new(p_speedup, 0, 100, &pub_key)],
            replaced_by: None,
            bump_fee_used: ONE,
            parent_data: vec![],
            spent: false,
        },
    });
    storage.insert_tx(p_sp);

    let p_missing = random_txid();
    let failed_cpfp_id = random_txid();
    let mut failed = dummy_tx(failed_cpfp_id, TransactionState::Failed);
    failed.kind = TxKind::Speedup(SpeedupKind::CPFP {
        parents: vec![np1, np2, p_speedup, p_missing],
        context: SpeedupContext {
            funding_inputs: vec![Utxo::new(failed_cpfp_id, 0, 100, &pub_key)],
            replaced_by: None,
            bump_fee_used: ONE,
            parent_data: vec![],
            spent: false,
        },
    });

    // Only np1 + np2 are NeedsSpeedup → prepended in front; existing PSP preserved.
    storage.requeue_protocol_parents(&failed);
    assert_eq!(storage.pending_txids(), vec![np1, np2, p4, p1, p2, p3]);

    // Non-CPFP failed tx (RBF) is a no-op.
    let mut failed_rbf = dummy_tx(random_txid(), TransactionState::Failed);
    failed_rbf.kind = TxKind::Speedup(SpeedupKind::RBF {
        replaces: failed_cpfp_id,
        new_funding_inputs: vec![],
        context: SpeedupContext {
            funding_inputs: vec![],
            replaced_by: None,
            bump_fee_used: ONE,
            parent_data: vec![],
            spent: false,
        },
    });
    storage.requeue_protocol_parents(&failed_rbf);
    assert_eq!(storage.pending_txids(), vec![np1, np2, p4, p1, p2, p3]);

}

#[test]
fn test_get_by_state_and_exists() {
    let mut storage = new_storage();

    let id1 = random_txid();
    let id2 = random_txid();
    storage
        .insert_tx(dummy_tx(id1, TransactionState::ToDispatch));
    storage
        .insert_tx(dummy_tx(id2, TransactionState::InMempool));

    assert_eq!(
        storage
            .get_by_state(TransactionState::ToDispatch)
            .len(),
        1
    );
    assert_eq!(
        storage
            .get_by_state(TransactionState::InMempool)
            .len(),
        1
    );
    assert!(storage
        .get_by_state(TransactionState::Confirmed)
        .is_empty());

    assert!(storage.tx_exists(id1));
    assert!(storage.tx_exists(id2));
    storage.remove_tx(id1);
    assert!(!storage.tx_exists(id1));

}

#[test]
fn test_invalid_state_and_retry_error_paths() {
    let mut storage = new_storage();

    // update_tx_state: missing tx emits TxNotFound
    let missing = random_txid();
    storage
        .update_tx_state(missing, TransactionState::InMempool)
        .unwrap();
    let news = storage.get_and_mark_news(1);
    assert!(matches!(&news[0], CoordinatorNews::TxNotFound { txid } if *txid == missing));
    storage.ack_news(news[0].clone(), 1);
    storage.cleanup_news(2);

    // update_tx_state: invalid transition emits InvalidStateTransition and leaves state unchanged
    let txid = random_txid();
    let mut tx = dummy_tx(txid, TransactionState::Finalized);
    tx.settled_block_height = Some(1);
    storage.insert_tx(tx);
    storage
        .update_tx_state(txid, TransactionState::InMempool)
        .unwrap();
    let news = storage.get_and_mark_news(2);
    assert!(matches!(&news[0],
        CoordinatorNews::InvalidStateTransition { txid: id, from, to }
        if *id == txid && *from == TransactionState::Finalized && *to == TransactionState::InMempool
    ));
    assert_eq!(
        storage.get_tx_by_id(txid).unwrap().state,
        TransactionState::Finalized
    );
    storage.ack_news(news[0].clone(), 2);
    storage.cleanup_news(3);

    // mark_as_retry: missing tx emits TxNotFound
    let missing2 = random_txid();
    storage.mark_as_retry(missing2);
    let news = storage.get_and_mark_news(3);
    assert!(matches!(&news[0], CoordinatorNews::TxNotFound { txid } if *txid == missing2));
    storage.ack_news(news[0].clone(), 3);
    storage.cleanup_news(4);

    // mark_as_retry: invalid transition (Finalized → ToDispatch) emits InvalidStateTransition
    storage.mark_as_retry(txid);
    let news = storage.get_and_mark_news(4);
    assert!(matches!(&news[0],
        CoordinatorNews::InvalidStateTransition { txid: id, from, to }
        if *id == txid && *from == TransactionState::Finalized && *to == TransactionState::ToDispatch
    ));
    assert_eq!(storage.get_tx_by_id(txid).unwrap().retry_count, 0);

}

// ===============================================================
// FundingStorage tests
// ===============================================================

/// Build a Speedup-kind CoordinatedTx with a single change output.
fn cpfp_with_change(
    funding_inputs: Vec<Utxo>,
    change_sats: u64,
    state: TransactionState,
) -> CoordinatedTx {
    let txid = random_txid();
    let tx = Transaction {
        version: 2,
        lock_time: 0,
        input: vec![],
        output: vec![TxOut {
            value: change_sats,
            script_pubkey: vec![],
        }],
    };
    let mut t = dummy_tx(txid, state);
    t.tx = tx;
    t.kind = TxKind::Speedup(SpeedupKind::CPFP {
        parents: vec![],
        context: SpeedupContext {
            funding_inputs,
            replaced_by: None,
            bump_fee_used: ONE,
            parent_data: vec![],
            spent: false,
        },
    });
    t
}

/// Surface check: append → read order → set_spent on both kinds → no-op semantics on wrong-kind / missing → clear wipes everything.
#[test]
fn test_funding_storage_surface() {
    let mut storage = new_storage();
    let pub_key = dummy_pubkey();

    // Empty queue.
    assert!(FundingStorage::read_funding_records(&storage)
        .is_empty());

    // Append two Funding records; insertion order preserved, spent=false initially.
    let u1 = Utxo::new(random_txid(), 0, 1_000, &pub_key);
    let u2 = Utxo::new(random_txid(), 1, 2_000, &pub_key);
    FundingStorage::append_funding(&mut storage, u1.clone());
    FundingStorage::append_funding(&mut storage, u2.clone());
    let records = FundingStorage::read_funding_records(&storage);
    assert_eq!(records.len(), 2);
    assert_eq!(records[0].txid, u1.txid);
    assert_eq!(records[1].txid, u2.txid);
    match (&records[0].kind, &records[1].kind) {
        (TxKind::Funding(a), TxKind::Funding(b)) => {
            assert_eq!(a.utxo.amount, 1_000);
            assert_eq!(b.utxo.amount, 2_000);
            assert!(!a.spent && !b.spent);
        }
        _ => panic!("both must be Funding kind"),
    }

    // set_spent toggles Funding.spent.
    FundingStorage::set_spent(&mut storage, u1.txid, true);
    if let TxKind::Funding(d) = &storage.get_tx_by_id(u1.txid).unwrap().kind {
        assert!(d.spent);
    } else {
        panic!("expected Funding");
    }
    FundingStorage::set_spent(&mut storage, u1.txid, false);
    if let TxKind::Funding(d) = &storage.get_tx_by_id(u1.txid).unwrap().kind {
        assert!(!d.spent);
    } else {
        panic!("expected Funding");
    }

    // set_spent toggles SpeedupContext.spent on a stored Speedup.
    let s_id = random_txid();
    let mut s = dummy_tx(s_id, TransactionState::InMempool);
    s.kind = TxKind::Speedup(SpeedupKind::CPFP {
        parents: vec![],
        context: SpeedupContext {
            funding_inputs: vec![Utxo::new(s_id, 0, 100_000, &pub_key)],
            replaced_by: None,
            bump_fee_used: ONE,
            parent_data: vec![],
            spent: false,
        },
    });
    storage.insert_tx(s);
    FundingStorage::set_spent(&mut storage, s_id, true);
    assert!(
        storage
            .get_tx_by_id(s_id)
            .unwrap()
            .speedup_kind()
            .unwrap()
            .context()
            .spent
    );
    FundingStorage::set_spent(&mut storage, s_id, false);
    assert!(
        !storage
            .get_tx_by_id(s_id)
            .unwrap()
            .speedup_kind()
            .unwrap()
            .context()
            .spent
    );

    // Wrong-kind (Normal) and missing txids → silent no-op.
    let normal_id = random_txid();
    storage
        .insert_tx(dummy_tx(normal_id, TransactionState::Finalized));
    FundingStorage::set_spent(&mut storage, normal_id, true);
    FundingStorage::set_spent(&mut storage, random_txid(), true);

    // clear wipes list AND underlying tx records.
    FundingStorage::clear_funding_records(&mut storage);
    assert!(FundingStorage::read_funding_records(&storage)
        .is_empty());
    assert!(storage.get_tx_by_id(u1.txid).is_none());
    assert!(storage.get_tx_by_id(u2.txid).is_none());

}

/// End-to-end exercise of `replace_funding_on_finalize` along a real chain. Verifies:
///   1. A Funding-kind entry is replaced by the finalized speedup
///   2. The finalizing speedup is removed from SpeedupList.
///   3. A second finalize matches a Speedup-kind queue entry via its `last_output`.
///   4. Multi-match (Speedup + Funding) removes both stale entries and inserts the new speedup.
///   5. The tx records of removed entries are dropped from storage.
#[test]
fn test_replace_funding_on_finalize_lifecycle() {
    let mut storage = new_storage();
    let pub_key = dummy_pubkey();

    // Seed FundingList with U1 (Funding kind).
    let u1 = Utxo::new(random_txid(), 0, 100_000, &pub_key);
    FundingStorage::append_funding(&mut storage, u1.clone());

    // S1 consumes U1; insert via insert_speedup so SpeedupList tracks it.
    let s1 = cpfp_with_change(vec![u1.clone()], 90_000, TransactionState::InMempool);
    storage.insert_speedup(s1.clone());
    storage
        .settle_tx(s1.txid, TransactionState::Finalized, 1)
        .unwrap();
    FundingStorage::replace_funding_on_finalize(&mut storage, s1.txid).unwrap();

    // FundingList = [S1] (Speedup, preserved). U1 tx record gone. S1 removed from SpeedupList.
    let records = FundingStorage::read_funding_records(&storage);
    assert_eq!(records.len(), 1);
    assert_eq!(records[0].txid, s1.txid);
    assert!(matches!(records[0].kind, TxKind::Speedup(_)));
    assert_eq!(records[0].state, TransactionState::Finalized);
    assert!(storage.get_tx_by_id(u1.txid).is_none());
    assert!(!storage
        .get_speedups_ordered()
        .iter()
        .any(|t| t.txid == s1.txid));

    // Append U2 after S1's entry. FundingList = [S1, U2].
    let u2 = Utxo::new(random_txid(), 0, 50_000, &pub_key);
    FundingStorage::append_funding(&mut storage, u2.clone());
    assert_eq!(
        FundingStorage::read_funding_records(&storage)
            .len(),
        2
    );

    // S2 consumes S1's change AND U2. S1's change is matched by the Speedup record's last_output (txid=S1, vout=0).
    let s1_change = Utxo::new(s1.txid, 0, 90_000, &pub_key);
    let s2 = cpfp_with_change(
        vec![s1_change, u2.clone()],
        130_000,
        TransactionState::InMempool,
    );
    storage.insert_speedup(s2.clone());
    storage
        .settle_tx(s2.txid, TransactionState::Finalized, 2)
        .unwrap();
    FundingStorage::replace_funding_on_finalize(&mut storage, s2.txid).unwrap();

    // Both S1 entry and U2 entry removed; S2 inserted at smallest matched pos.
    let records = FundingStorage::read_funding_records(&storage);
    assert_eq!(records.len(), 1);
    assert_eq!(records[0].txid, s2.txid);
    assert!(matches!(records[0].kind, TxKind::Speedup(_)));
    assert!(storage.get_tx_by_id(s1.txid).is_none());
    assert!(storage.get_tx_by_id(u2.txid).is_none());
    let sl = storage.get_speedups_ordered();
    assert!(!sl.iter().any(|t| t.txid == s1.txid));
    assert!(!sl.iter().any(|t| t.txid == s2.txid));

}

/// Defensive paths of `replace_funding_on_finalize`. None are fatal:
///   1. Missing txid.
///   2. Speedup whose funding_inputs match no queue entry.
///   3. Non-Speedup tx (Normal / Funding / NeedsSpeedup).
#[test]
fn test_replace_funding_on_finalize_defensive_paths() {
    let mut storage = new_storage();
    let pub_key = dummy_pubkey();

    // Seed a queue entry that must remain untouched across all 3 calls.
    let untouched = Utxo::new(random_txid(), 0, 7_777, &pub_key);
    FundingStorage::append_funding(&mut storage, untouched.clone());
    assert_eq!(storage.read_funding_records().len(), 1);

    // 1. Missing txid.
    FundingStorage::replace_funding_on_finalize(&mut storage, random_txid()).unwrap();
    assert_eq!(storage.read_funding_records().len(), 1);

    // 2. Speedup with funding_inputs that don't match any queue entry.
    let orphan = cpfp_with_change(
        vec![Utxo::new(random_txid(), 0, 1_000, &pub_key)],
        500,
        TransactionState::Finalized,
    );
    storage.insert_speedup(orphan.clone());
    FundingStorage::replace_funding_on_finalize(&mut storage, orphan.txid).unwrap();
    assert_eq!(storage.read_funding_records().len(), 1);
    // Orphan speedup tx record left intact (not moved into FundingList).
    assert!(storage.get_tx_by_id(orphan.txid).is_some());

    // 3. Wrong-kind tx (Normal).
    let normal_id = random_txid();
    storage
        .insert_tx(dummy_tx(normal_id, TransactionState::Finalized));
    FundingStorage::replace_funding_on_finalize(&mut storage, normal_id).unwrap();
    assert_eq!(storage.read_funding_records().len(), 1);
    assert_eq!(storage.read_funding_records()[0].txid, untouched.txid);

}

/// Outputs of one transaction are offered and marked apart, and a mark on one is not a mark on the other.
#[test]
fn outputs_of_one_transaction_are_marked_apart() {
    let mut storage = new_storage();
    let txid = random_txid();
    let first = Utxo::new(txid, 0, 1_000, &dummy_pubkey());
    let second = Utxo::new(txid, 3, 2_000, &dummy_pubkey());
    FundingStorage::append_funding(&mut storage, first);
    FundingStorage::append_funding(&mut storage, second);
    let claims = |storage: &CoordinatorStorage| -> Vec<(u32, bool)> {
        FundingStorage::read_funding_records(storage)
            .iter()
            .map(|r| r.get_funding_info().unwrap())
            .map(|(utxo, spent)| (utxo.vout, spent))
            .collect()
    };
    assert_eq!(claims(&storage), vec![(0, false), (3, false)]);
    FundingStorage::mark_output(&mut storage, txid, 3, true);
    assert_eq!(claims(&storage), vec![(0, false), (3, true)]);
    FundingStorage::mark_output(&mut storage, txid, 0, true);
    FundingStorage::mark_output(&mut storage, txid, 7, true);
    assert_eq!(claims(&storage), vec![(0, true), (3, true)]);
    // Registered again, an output is free again, and stays in its place.
    FundingStorage::append_funding(&mut storage, second);
    assert_eq!(claims(&storage), vec![(0, true), (3, false)]);
}

/// A store made of the saved parts holds what the saved one held.
#[test]
fn saved_parts_make_the_same_store() {
    let mut storage = new_storage();
    let parent = random_txid();
    let speedup = random_txid();
    let funding = random_txid();
    storage.insert_tx(dummy_tx(parent, TransactionState::InMempool));
    storage.add_pending_speedup_parent(parent);
    let mut cpfp = dummy_tx(speedup, TransactionState::ToDispatch);
    cpfp.kind = TxKind::Speedup(SpeedupKind::CPFP {
        parents: vec![parent],
        context: SpeedupContext {
            funding_inputs: vec![],
            replaced_by: None,
            bump_fee_used: ONE,
            parent_data: vec![],
            spent: true,
        },
    });
    storage.insert_speedup(cpfp);
    for vout in 0..2 {
        let utxo = Utxo::new(funding, vout, 5_000, &dummy_pubkey());
        FundingStorage::append_funding(&mut storage, utxo);
    }
    storage.add_news(CoordinatorNews::FundingNotAvailable);
    assert_eq!(storage.get_and_mark_news(9).len(), 1);

    let news: Vec<StoredNewsItem> = storage.news_items();
    assert_eq!((news[0].shown_at_block, news[0].acked_at_block), (Some(9), None));
    let mut again = CoordinatorStorage::restore(
        CoordinatorStorageSettings::default(),
        storage.get_all_txs(),
        news,
        storage.speedup_txids(),
        storage.pending_txids(),
        storage.funding_entries(),
    );
    assert_eq!(again.record_count(), 3);
    assert_eq!(again.get_tx_by_id(parent).unwrap().state, TransactionState::InMempool);
    assert_eq!(again.speedup_txids(), vec![speedup]);
    assert_eq!(again.pending_txids(), vec![parent]);
    assert_eq!(FundingStorage::read_funding_records(&again).len(), 2);
    assert!(again.is_speedup_derived(&OutPoint { txid: speedup, vout: 0 }));
    assert!(!again.is_speedup_derived(&OutPoint { txid: parent, vout: 0 }));
    // Shown at block 9 already: not again at that block, but at the next one.
    assert!(again.get_and_mark_news(9).is_empty());
    assert_eq!(again.get_and_mark_news(10), vec![CoordinatorNews::FundingNotAvailable]);
}

/// A speedup that was funded by a second output of a transaction takes that output's place in the queue.
#[test]
fn final_speedup_takes_the_place_of_a_sibling() {
    let mut storage = new_storage();
    let txid = random_txid();
    let utxos: Vec<Utxo> = vec![
        Utxo::new(txid, 0, 1_000, &dummy_pubkey()),
        Utxo::new(txid, 1, 2_000, &dummy_pubkey()),
        Utxo::new(random_txid(), 0, 3_000, &dummy_pubkey()),
    ];
    for utxo in &utxos {
        FundingStorage::append_funding(&mut storage, *utxo);
    }
    let speedup = cpfp_with_change(vec![utxos[1]], 500, TransactionState::Finalized);
    let id = speedup.txid;
    storage.insert_speedup(speedup);
    FundingStorage::replace_funding_on_finalize(&mut storage, id).unwrap();
    let queue: Vec<Txid> =
        FundingStorage::read_funding_records(&storage).iter().map(|r| r.txid).collect();
    assert_eq!(queue, vec![txid, id, utxos[2].txid]);
    assert!(storage.speedup_txids().is_empty());
    // The record of the first output is still there.
    assert!(storage.get_tx_by_id(txid).is_some());
}

/// While the record of a transaction stands for an output, a sibling for the same output counts for
/// nothing.
#[test]
fn record_goes_before_sibling() {
    let mut storage = new_storage();
    let txid = random_txid();
    let first = Utxo::new(txid, 0, 1_000, &dummy_pubkey());
    let second = Utxo::new(txid, 1, 2_000, &dummy_pubkey());
    FundingStorage::append_funding(&mut storage, first);
    FundingStorage::append_funding(&mut storage, second);
    let mut record = storage.get_tx_by_id(txid).unwrap();
    record.kind = TxKind::Funding(FundingData { utxo: second, spent: false });
    storage.update_tx(&record);
    let offered = |storage: &CoordinatorStorage| -> Vec<(Utxo, bool)> {
        let records = FundingStorage::read_funding_records(storage);
        records.iter().map(|r| r.get_funding_info().unwrap()).collect()
    };
    assert_eq!(offered(&storage), vec![(second, false)]);
    FundingStorage::mark_output(&mut storage, txid, 1, true);
    assert_eq!(offered(&storage), vec![(second, true)]);
    let sibling = FundingEntry::Sibling(FundingData { utxo: second, spent: false });
    assert_eq!(storage.funding_entries(), vec![FundingEntry::Record(txid), sibling]);
}

/// A restored queue holds no output twice.
#[test]
fn restored_siblings_differ() {
    let utxo = Utxo::new(random_txid(), 1, 2_000, &dummy_pubkey());
    let entry = |spent: bool| FundingEntry::Sibling(FundingData { utxo, spent });
    let record = FundingEntry::Record(random_txid());
    let storage = CoordinatorStorage::restore(
        CoordinatorStorageSettings::default(),
        vec![],
        vec![],
        vec![],
        vec![],
        vec![entry(true), record, entry(false)],
    );
    assert_eq!(storage.funding_entries(), vec![entry(true), record]);
}
