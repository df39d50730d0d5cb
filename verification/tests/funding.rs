use bitcoin_coordinator::config::{CoordinatorStorageSettings, FundingSettings};
use bitcoin_coordinator::funding::FundingManager;
use bitcoin_coordinator::primitives::{Multiplier, PublicKey, Transaction, TxOut, Txid};
use bitcoin_coordinator::settings::MULTIPLIER_ONE;
use bitcoin_coordinator::storage::CoordinatorStorage;
use bitcoin_coordinator::types::{
    CoordinatedTx, CoordinatorNews, FeeInfo, SpeedupContext, SpeedupKind, TransactionState, TxKind,
    Utxo,
};

const MIN: u64 = 10_000;

fn dummy_pubkey() -> PublicKey {
    PublicKey { compressed: true, parity: 2, x_hi: 0x42, x_lo: 0x42 }
}

/// A UTXO with a txid that depends on the amount.
fn utxo(amount: u64) -> Utxo {
    let mut bytes = [0xfau8; 32];
    bytes[..8].copy_from_slice(&amount.to_le_bytes());
    Utxo::new(Txid { bytes }, 0, amount, &dummy_pubkey())
}

fn det_txid(seed: u8) -> Txid {
    Txid { bytes: [seed; 32] }
}

fn make_manager() -> (FundingManager, CoordinatorStorage) {
    let mgr = FundingManager::new(FundingSettings { min_funding_amount_sats: MIN });
    (mgr, CoordinatorStorage::new(CoordinatorStorageSettings::default()))
}

fn get_funding(mgr: &FundingManager, storage: &mut CoordinatorStorage) -> Option<(Utxo, bool)> {
    let speedups = storage.get_speedups_ordered();
    mgr.get_funding(storage, speedups.as_slice()).unwrap()
}

fn speedup_tx(
    seed: u8,
    state: TransactionState,
    funding_input: Utxo,
    change_sats: u64,
) -> CoordinatedTx {
    CoordinatedTx {
        txid: det_txid(seed),
        tx: Transaction {
            version: 2,
            lock_time: 0,
            input: vec![],
            output: vec![TxOut { value: change_sats, script_pubkey: vec![] }],
        },
        kind: TxKind::Speedup(SpeedupKind::CPFP {
            parents: vec![],
            context: SpeedupContext {
                funding_inputs: vec![funding_input],
                replaced_by: None,
                bump_fee_used: Multiplier { bits: MULTIPLIER_ONE },
                parent_data: vec![],
                spent: false,
            },
        }),
        state,
        broadcast_block_height: None,
        target_block_height: 0,
        stuck_in_mempool_blocks: None,
        confirmation_trigger: None,
        settled_block_height: None,
        fail_guard_until: None,
        retry_count: 0,
        fee_info: FeeInfo { fee: 0, fee_rate: 1, package_fee_rate: 1, weight: 100 },
        context: "test".to_string(),
    }
}

fn funding_spent(storage: &CoordinatorStorage, txid: Txid) -> bool {
    match storage.get_tx_by_id(txid).unwrap().kind {
        TxKind::Funding(d) => d.spent,
        _ => panic!("expected Funding"),
    }
}

fn speedup_spent(storage: &CoordinatorStorage, txid: Txid) -> bool {
    storage.get_tx_by_id(txid).unwrap().speedup_kind().unwrap().context().spent
}

// A user adds funding UTXOs (valid and below-min), the manager hands them out in queue order,
// marks them spent, exhausts the queue, and correctly resets after clear_funding.
#[test]
fn test_funding_lifecycle() {
    let (mgr, mut storage) = make_manager();

    // Below-min is rejected with news; nothing is stored.
    let news = mgr.set_funding(&mut storage, utxo(MIN - 1));
    assert!(matches!(
        news,
        Some(CoordinatorNews::InvalidFundingUtxo { .. })
    ));
    assert!(!mgr.has_funding(&storage));

    // Two valid UTXOs are stored in insertion order.
    mgr.set_funding(&mut storage, utxo(MIN * 5));
    mgr.set_funding(&mut storage, utxo(MIN * 3));
    assert!(mgr.has_funding(&storage));

    // Pass 2 returns the first UTXO and marks it spent; queue order is preserved.
    let (first, is_speedup) = get_funding(&mgr, &mut storage).unwrap();
    assert!(!is_speedup);
    assert_eq!(first.amount, MIN * 5);
    assert!(funding_spent(&storage, first.txid));

    let (second, is_speedup) = get_funding(&mgr, &mut storage).unwrap();
    assert!(!is_speedup);
    assert_eq!(second.amount, MIN * 3);
    assert!(funding_spent(&storage, second.txid));

    // Both exhausted.
    assert!(get_funding(&mgr, &mut storage).is_none());

    // clear_funding wipes the queue; new funding can be added afterwards.
    mgr.clear_funding(&mut storage);
    assert!(!mgr.has_funding(&storage));
    mgr.set_funding(&mut storage, utxo(MIN * 2));
    assert!(mgr.has_funding(&storage));
}

// A live InMempool speedup (chain-tip) is always preferred over the user-provided queue.
// Once the chain tip is being replaced or is ToDispatch (not yet live), the manager falls
// through to the queue.
#[test]
fn test_chain_tip_preferred_over_queue() {
    let (mgr, mut storage) = make_manager();

    let q = utxo(MIN * 10);
    mgr.set_funding(&mut storage, q.clone());

    // A ToDispatch speedup is NOT live. Pass 1 must skip it and return the queue.
    let s_pending = speedup_tx(0, TransactionState::ToDispatch, q.clone(), MIN * 9);
    storage.insert_speedup(s_pending.clone());
    let (got, is_speedup) = get_funding(&mgr, &mut storage).unwrap();
    assert!(
        !is_speedup,
        "ToDispatch speedup must not count as chain tip"
    );
    assert_eq!(got.txid, q.txid);
    storage.set_spent(q.txid, false); // reset for next sub-scenario

    // An InMempool speedup is the chain tip and takes priority over the queue.
    let s1 = speedup_tx(1, TransactionState::InMempool, q.clone(), MIN * 8);
    storage.insert_speedup(s1.clone());

    let (got, is_speedup) = get_funding(&mgr, &mut storage).unwrap();
    assert!(is_speedup, "InMempool speedup must be preferred over queue");
    assert_eq!(got.txid, s1.txid);
    assert_eq!(got.amount, MIN * 8);
    assert!(speedup_spent(&storage, s1.txid));
    assert!(
        !funding_spent(&storage, q.txid),
        "queue UTXO must be untouched"
    );

    // Mark s1 as being replaced (and reset spent so pass 1 would otherwise pick it).
    let mut s1_replaced = storage.get_tx_by_id(s1.txid).unwrap();
    if let TxKind::Speedup(SpeedupKind::CPFP {
        ref mut context, ..
    }) = s1_replaced.kind
    {
        context.replaced_by = Some(det_txid(99));
        context.spent = false;
    }
    storage.update_tx(&s1_replaced);

    // Pass 1 skips the replaced tip; pass 2 returns the queue UTXO.
    let (got2, is_speedup2) = get_funding(&mgr, &mut storage).unwrap();
    assert!(
        !is_speedup2,
        "replaced tip must be skipped; fall through to queue"
    );
    assert_eq!(got2.txid, q.txid);
    assert!(funding_spent(&storage, q.txid));

    // Both sources exhausted.
    assert!(get_funding(&mgr, &mut storage).is_none());
}

// Three CPFP rounds. Each round the chain tip advances as speedups go InMempool and finalize.
// replace_on_finalize keeps the funding queue pointing at the latest change output. A mismatch
// on replace_on_finalize is also verified at the end.
#[test]
fn test_cpfp_chain_multi_round() {
    let (mgr, mut storage) = make_manager();

    // Round 1: fresh start, no speedups. Pass 2 returns the user's queue UTXO.
    let q1_amount = MIN * 100;
    mgr.set_funding(&mut storage, utxo(q1_amount));
    let (q1, is_speedup) = get_funding(&mgr, &mut storage).unwrap();
    assert!(!is_speedup);
    assert_eq!(q1.amount, q1_amount);

    // Build S1 consuming Q1.
    let c1_sats = q1_amount - 1_000;
    let s1 = speedup_tx(1, TransactionState::InMempool, q1.clone(), c1_sats);
    storage.insert_speedup(s1.clone());

    // Round 2: S1 is the live chain tip. Pass 1 returns S1's change.
    let (s1_change, is_speedup) = get_funding(&mgr, &mut storage).unwrap();
    assert!(is_speedup);
    assert_eq!(s1_change.txid, s1.txid);
    assert_eq!(s1_change.amount, c1_sats);
    assert!(speedup_spent(&storage, s1.txid));

    // Build S2 consuming S1's change.
    let c2_sats = c1_sats - 1_000;
    let s2 = speedup_tx(2, TransactionState::InMempool, s1_change.clone(), c2_sats);
    storage.insert_speedup(s2.clone());

    // S1 finalizes: queue entry for Q1 is replaced with S1's change.
    let mut s1_final = storage.get_tx_by_id(s1.txid).unwrap();
    s1_final.state = TransactionState::Finalized;
    storage.update_tx(&s1_final);
    mgr.replace_on_finalize(&mut storage, s1.txid).unwrap();

    // Round 3: S1 finalized+spent, S2 live. Pass 1 returns S2's change.
    let (s2_change, is_speedup) = get_funding(&mgr, &mut storage).unwrap();
    assert!(is_speedup);
    assert_eq!(s2_change.txid, s2.txid);
    assert_eq!(s2_change.amount, c2_sats);
    assert!(speedup_spent(&storage, s2.txid));

    // Build S3 consuming S2's change.
    let c3_sats = c2_sats - 1_000;
    let s3 = speedup_tx(3, TransactionState::InMempool, s2_change.clone(), c3_sats);
    storage.insert_speedup(s3.clone());

    // S2 finalizes: queue advances from S1's change to S2's change.
    let mut s2_final = storage.get_tx_by_id(s2.txid).unwrap();
    s2_final.state = TransactionState::Finalized;
    storage.update_tx(&s2_final);
    mgr.replace_on_finalize(&mut storage, s2.txid).unwrap();

    // Funding queue now holds S2's change as the single entry.
    let records = storage.read_funding_records();
    assert_eq!(records.len(), 1);
    assert_eq!(records[0].txid, s2.txid);

    // replace_on_finalize on a tx whose funding_inputs don't match any queue entry
    // is treated defensively: warn + Ok(()), queue untouched.
    let unrelated = speedup_tx(9, TransactionState::Finalized, utxo(MIN * 50), MIN * 40);
    storage.insert_tx(unrelated.clone());
    mgr.replace_on_finalize(&mut storage, unrelated.txid).unwrap();
    let records_after = storage.read_funding_records();
    assert_eq!(records_after.len(), 1);
    assert_eq!(records_after[0].txid, s2.txid);
}

// A sub-minimum leftover sits at the front of the queue. A second UTXO is added by the user. get_funding
// picks the leftover as primary; get_combine_funding picks the second as the combine partner. On build
// failure, release_marks restores both. When there is no combine partner at all, get_combine_funding
// returns None and auto-releases the primary.
#[test]
fn test_combine_leftover_sweep_and_release() {
    let (mgr, mut storage) = make_manager();

    // A sub-minimum leftover enters the queue directly.
    let leftover = utxo(MIN / 2);
    storage.append_funding(leftover.clone());

    // A proper second UTXO from the user.
    let q2 = utxo(MIN * 5);
    mgr.set_funding(&mut storage, q2.clone());

    // get_funding returns the leftover (first unspent in queue).
    let (primary, is_speedup) = get_funding(&mgr, &mut storage).unwrap();
    assert!(!is_speedup);
    assert_eq!(primary.txid, leftover.txid);
    assert!(funding_spent(&storage, leftover.txid));
    assert!(!funding_spent(&storage, q2.txid));

    // get_combine_funding skips the already-spent leftover via the spent filter and returns Q2.
    let secondary = mgr.get_combine_funding(&mut storage).unwrap();
    assert_eq!(secondary.txid, q2.txid);
    assert!(funding_spent(&storage, q2.txid));

    // Build failure: release_marks restores both entries.
    mgr.release_marks(&mut storage, &[primary, secondary]);
    assert!(!funding_spent(&storage, leftover.txid));
    assert!(!funding_spent(&storage, q2.txid));

    // With only one UTXO in the queue, combine returns None and DOES NOT release.
    mgr.clear_funding(&mut storage);
    mgr.set_funding(&mut storage, utxo(MIN * 3));
    let (sole, is_speedup) = get_funding(&mgr, &mut storage).unwrap();
    assert!(!is_speedup);
    let combine = mgr.get_combine_funding(&mut storage);
    assert!(
        combine.is_none(),
        "no second entry means no combine partner"
    );
    assert!(
        funding_spent(&storage, sole.txid),
        "primary stays spent on combine None — caller owns the release"
    );
    // Caller releases explicitly.
    mgr.release_marks(&mut storage, &[sole.clone()]);
    assert!(!funding_spent(&storage, sole.txid));
}

// get_funding claims a UTXO (marks it spent); the build later fails. mark_parents_unspent must
// restore the spent flag so the next tick can retry with the same UTXO. The cycle then completes:
// funding is re-claimed and the second build succeeds via get_funding returning the same UTXO again.
#[test]
fn test_failed_build_releases_funding() {
    let (mgr, mut storage) = make_manager();

    mgr.set_funding(&mut storage, utxo(MIN * 4));
    let (claimed, is_speedup) = get_funding(&mgr, &mut storage).unwrap();
    assert!(!is_speedup);
    assert!(funding_spent(&storage, claimed.txid));

    // A speedup in ToDispatch references the claimed UTXO as its funding input.
    let s = speedup_tx(5, TransactionState::ToDispatch, claimed.clone(), MIN * 2);
    storage.insert_speedup(s.clone());

    // Build fails: mark_parents_unspent releases the funding record.
    mgr.mark_parents_unspent(&mut storage, &s).unwrap();
    assert!(!funding_spent(&storage, claimed.txid));

    // Next round: same UTXO is available again.
    let (reclaimed, is_speedup) = get_funding(&mgr, &mut storage).unwrap();
    assert!(!is_speedup);
    assert_eq!(reclaimed.txid, claimed.txid);

    // A chain-tip speedup's context.spent is also released correctly via release_marks.
    let tip = speedup_tx(6, TransactionState::InMempool, reclaimed.clone(), MIN * 3);
    storage.insert_speedup(tip.clone());
    let (tip_funding, is_speedup) = get_funding(&mgr, &mut storage).unwrap();
    assert!(is_speedup);
    assert!(speedup_spent(&storage, tip.txid));
    mgr.release_marks(&mut storage, &[tip_funding]);
    assert!(!speedup_spent(&storage, tip.txid));
}

// S1 is InMempool with a tiny change that cannot cover the next speedup fee alone. A
// second user-provided queue UTXO Q2 is present. get_funding returns S1's chain-tip
// change; get_combine_funding picks Q2. S2 is built with both as funding_inputs. When
// S2 finalize, replace_on_finalize removes both old funding records and replaces them with
// a single record pointing to S2's change output.
#[test]
fn test_combined_funding_and_replace_on_finalize() {
    let (mgr, mut storage) = make_manager();

    // A prior speedup's change is already in the funding queue, spent because S1
    // already consumed it when S1 was originally built.
    let s_prev_change = utxo(MIN * 50);
    storage.append_funding(s_prev_change.clone());
    storage.set_spent(s_prev_change.txid, true);

    // S1: InMempool, consumes s_prev_change, tiny change output.
    let s1_change_sats = MIN / 3;
    let s1 = speedup_tx(
        1,
        TransactionState::InMempool,
        s_prev_change.clone(),
        s1_change_sats,
    );
    storage.insert_speedup(s1.clone());

    // Q2: fresh user-provided queue UTXO.
    let q2 = utxo(MIN * 20);
    mgr.set_funding(&mut storage, q2.clone());

    // Pass 1: S1's chain-tip change is returned; S1.context.spent is set.
    let (chain_tip, is_speedup) = get_funding(&mgr, &mut storage).unwrap();
    assert!(is_speedup);
    assert_eq!(chain_tip.txid, s1.txid);
    assert_eq!(chain_tip.amount, s1_change_sats);
    assert!(speedup_spent(&storage, s1.txid));

    // s_prev_change is already spent → skipped. Q2 is the combine partner.
    let secondary = mgr.get_combine_funding(&mut storage).unwrap();
    assert_eq!(secondary.txid, q2.txid);
    assert!(funding_spent(&storage, q2.txid));

    // Build S2 with both funding inputs.
    let s2_change_sats = MIN * 10;
    let mut s2 = speedup_tx(
        2,
        TransactionState::InMempool,
        chain_tip.clone(),
        s2_change_sats,
    );
    if let TxKind::Speedup(SpeedupKind::CPFP {
        ref mut context, ..
    }) = s2.kind
    {
        context.funding_inputs = vec![chain_tip.clone(), secondary.clone()];
    }
    storage.insert_speedup(s2.clone());

    // S1 finalizes: s_prev_change funding record is replaced by a new record at
    // S1.txid carrying S1's change output (spent=true because S1.context.spent is true).
    let mut s1_fin = storage.get_tx_by_id(s1.txid).unwrap();
    s1_fin.state = TransactionState::Finalized;
    storage.update_tx(&s1_fin);
    mgr.replace_on_finalize(&mut storage, s1.txid).unwrap();

    let mid = storage.read_funding_records();
    assert_eq!(mid.len(), 2, "S1's change + Q2 must both be in the queue");
    assert_eq!(mid[0].txid, s1.txid);
    assert_eq!(mid[1].txid, q2.txid);

    // S2 finalizes: both S1.txid and Q2.txid funding records are matched by
    // S2.funding_inputs and replaced by a single record for S2's change output.
    let mut s2_fin = storage.get_tx_by_id(s2.txid).unwrap();
    s2_fin.state = TransactionState::Finalized;
    storage.update_tx(&s2_fin);
    mgr.replace_on_finalize(&mut storage, s2.txid).unwrap();

    let final_records = storage.read_funding_records();
    assert_eq!(
        final_records.len(),
        1,
        "both old records must be replaced by one"
    );
    assert_eq!(final_records[0].txid, s2.txid);
    match &final_records[0].kind {
        TxKind::Speedup(k) => {
            assert!(
                !k.context().spent,
                "S2 was never claimed; context.spent stays false"
            );
        }
        _ => panic!("expected TxKind::Speedup (kind preserved on finalize)"),
    }
    let (change_out, _) = final_records[0].last_output().unwrap();
    assert_eq!(change_out.value, s2_change_sats);
}

/// A speedup that is being replaced by a live RBF, or has failed, is no tip to build on.
#[test]
fn dead_branches_are_skipped() {
    let (mgr, mut storage) = make_manager();
    let q = utxo(MIN * 10);
    assert!(mgr.set_funding(&mut storage, q).is_none());

    let replaced = speedup_tx(1, TransactionState::InMempool, q, MIN * 8);
    storage.insert_speedup(replaced.clone());
    let mut rbf = speedup_tx(2, TransactionState::ToDispatch, q, MIN * 7);
    let context = rbf.speedup_kind().unwrap().context().clone();
    rbf.kind = TxKind::Speedup(SpeedupKind::RBF {
        replaces: replaced.txid,
        new_funding_inputs: vec![],
        context,
    });
    storage.insert_speedup(rbf);
    let failed = speedup_tx(3, TransactionState::Failed, q, MIN * 6);
    storage.insert_speedup(failed);

    let (got, is_speedup) = get_funding(&mgr, &mut storage).unwrap();
    assert!(!is_speedup);
    assert_eq!(got, q);
}

/// A record without an output in the speedup list is an error, and nothing is claimed.
#[test]
fn tip_without_change_is_an_error() {
    let (mgr, mut storage) = make_manager();
    let q = utxo(MIN * 10);
    assert!(mgr.set_funding(&mut storage, q).is_none());
    let mut tip = speedup_tx(1, TransactionState::InMempool, q, 0);
    tip.tx.output.clear();
    storage.insert_speedup(tip);
    let speedups = storage.get_speedups_ordered();
    assert!(mgr.get_funding(&mut storage, speedups.as_slice()).is_err());
    assert!(!funding_spent(&storage, q.txid));
}

/// A second UTXO is only combined from the user's queue, never from a speedup in it.
#[test]
fn only_funding_utxos_are_combined() {
    let (mgr, mut storage) = make_manager();
    let q1 = utxo(MIN * 4);
    assert!(mgr.set_funding(&mut storage, q1).is_none());
    let s1 = speedup_tx(1, TransactionState::Finalized, q1, MIN * 3);
    storage.insert_speedup(s1.clone());
    mgr.replace_on_finalize(&mut storage, s1.txid).unwrap();
    assert_eq!(storage.read_funding_records()[0].txid, s1.txid);
    assert!(mgr.get_combine_funding(&mut storage).is_none());

    // The finalized speedup itself is a source, marked as one.
    let (got, is_speedup) = get_funding(&mgr, &mut storage).unwrap();
    assert!(is_speedup);
    assert_eq!(got.txid, s1.txid);
}

/// Only speedups have claims to release.
#[test]
fn releasing_needs_a_speedup() {
    let (mgr, mut storage) = make_manager();
    let normal = CoordinatedTx::new_empty(det_txid(1));
    assert!(mgr.mark_parents_unspent(&mut storage, &normal).is_err());
}

/// Funding is offered in the order in which it was added, two outputs of one transaction too, and no
/// output is offered twice however often it is asked for.
#[test]
fn every_output_is_offered_once_in_order() {
    let (mgr, mut storage) = make_manager();
    let added: Vec<Utxo> = [(1, 0), (1, 1), (2, 0), (1, 2), (3, 5)]
        .iter()
        .map(|(seed, vout)| Utxo::new(det_txid(*seed), *vout, 50_000, &dummy_pubkey()))
        .collect();
    for utxo in &added {
        assert!(mgr.set_funding(&mut storage, *utxo).is_none());
    }
    let offered: Vec<Utxo> =
        (0..8).filter_map(|_| get_funding(&mgr, &mut storage)).map(|(utxo, _)| utxo).collect();
    assert_eq!(offered, added);
    assert!(mgr.get_combine_funding(&mut storage).is_none());

    // First and second inputs are taken from the same queue.
    mgr.release_marks(&mut storage, &added);
    let mut mixed: Vec<Utxo> = vec![];
    for _ in 0..4 {
        mixed.extend(get_funding(&mgr, &mut storage).map(|(utxo, _)| utxo));
        mixed.extend(mgr.get_combine_funding(&mut storage));
    }
    assert_eq!(mixed, added);
}

/// What is given back is offered again, a speedup's change and a sibling alike.
#[test]
fn released_offers_come_back() {
    let (mgr, mut storage) = make_manager();
    for vout in 0..3 {
        let utxo = Utxo::new(det_txid(1), vout, 50_000, &dummy_pubkey());
        assert!(mgr.set_funding(&mut storage, utxo).is_none());
    }
    for vout in 0..3 {
        let first = get_funding(&mgr, &mut storage).unwrap();
        assert_eq!((first.0.vout, first.1), (vout, false));
        let entries = storage.funding_entries();
        mgr.release_marks(&mut storage, &[first.0]);
        assert_eq!(get_funding(&mgr, &mut storage), Some(first));
        assert_eq!(storage.funding_entries(), entries);
    }
    assert!(get_funding(&mgr, &mut storage).is_none());

    let input = Utxo::new(det_txid(1), 0, 50_000, &dummy_pubkey());
    storage.insert_speedup(speedup_tx(9, TransactionState::InMempool, input, 40_000));
    let change = get_funding(&mgr, &mut storage).unwrap();
    assert_eq!((change.0.txid, change.1), (det_txid(9), true));
    assert!(get_funding(&mgr, &mut storage).is_none());
    mgr.release_marks(&mut storage, &[change.0]);
    assert_eq!(get_funding(&mgr, &mut storage), Some(change));
}
