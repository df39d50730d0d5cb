use bitcoin_coordinator::config::{
    BitcoinSettings, CoordinatorSettings, CoordinatorStorageSettings, DispatcherSettings,
    FeeSettings, FundingSettings, SpeedupSettings,
};
use bitcoin_coordinator::coordinator::BitcoinCoordinator;
use bitcoin_coordinator::dispatcher::{DispatchOutcome, Dispatcher};
use bitcoin_coordinator::engine_context::{EngineContext, NodeState};
use bitcoin_coordinator::errors::BitcoinCoordinatorError;
use bitcoin_coordinator::fee::FeeManager;
use bitcoin_coordinator::funding::{FundingManager, FundingStorage};
use bitcoin_coordinator::lifecycle::Verdict;
use bitcoin_coordinator::primitives::{
    Multiplier, OutPoint, PublicKey, Transaction, TxIn, TxOut, Txid, Witness,
};
use bitcoin_coordinator::settings::MULTIPLIER_ONE;
use bitcoin_coordinator::speedup_builder::{BuildRequest, BuildStep, SpeedupBuild};
use bitcoin_coordinator::speedup_engine::SpeedupEngine;
use bitcoin_coordinator::speedup_model::ParentEntry;
use bitcoin_coordinator::storage::CoordinatorStorage;
use bitcoin_coordinator::transaction_engine::TransactionEngine;
use bitcoin_coordinator::types::{
    AckNews, CoordinatedTx, CoordinatorNews, FeeInfo, FundingEntry, MonitorNews, MonitorRequest, SpeedupContext,
    SpeedupData, SpeedupKind, TransactionState, TxKind, TxStatus, Utxo,
};

const ONE: Multiplier = Multiplier { bits: MULTIPLIER_ONE };

fn id(seed: u8) -> Txid {
    Txid { bytes: [seed; 32] }
}

fn utxo(seed: u8, vout: u32, amount: u64) -> Utxo {
    let key = PublicKey { compressed: true, parity: 2, x_hi: 0x42, x_lo: 0x42 };
    Utxo::new(id(seed), vout, amount, &key)
}

fn input(seed: u8, vout: u32) -> TxIn {
    TxIn {
        previous_output: OutPoint { txid: id(seed), vout },
        script_sig: vec![],
        sequence: 0xffff_fffd,
        witness: Witness::new(vec![vec![1; 72], vec![2; 33]]).unwrap(),
    }
}

fn spending(inputs: Vec<TxIn>, value: u64) -> Transaction {
    Transaction {
        version: 2,
        lock_time: 0,
        input: inputs,
        output: vec![TxOut { value, script_pubkey: vec![0; 22] }],
    }
}

fn record(seed: u8, state: TransactionState, kind: TxKind) -> CoordinatedTx {
    CoordinatedTx {
        txid: id(seed),
        tx: spending(vec![input(100 + seed, 0)], 1_000),
        kind,
        state,
        broadcast_block_height: None,
        target_block_height: 0,
        stuck_in_mempool_blocks: None,
        confirmation_trigger: None,
        settled_block_height: None,
        fail_guard_until: None,
        retry_count: 0,
        fee_info: FeeInfo { fee: 110, fee_rate: 1, package_fee_rate: 1, weight: 437 },
        context: "client".to_string(),
    }
}

fn context(funding: Vec<Utxo>) -> SpeedupContext {
    SpeedupContext {
        funding_inputs: funding,
        replaced_by: None,
        bump_fee_used: ONE,
        parent_data: vec![],
        spent: false,
    }
}

fn cpfp(seed: u8, state: TransactionState, parents: Vec<Txid>, funding: Vec<Utxo>) -> CoordinatedTx {
    let kind = SpeedupKind::CPFP { parents, context: context(funding) };
    record(seed, state, TxKind::Speedup(kind))
}

fn rbf(seed: u8, state: TransactionState, replaces: Txid, own: Vec<Utxo>, all: Vec<Utxo>) -> CoordinatedTx {
    let kind =
        SpeedupKind::RBF { replaces, new_funding_inputs: own, context: context(all) };
    record(seed, state, TxKind::Speedup(kind))
}

fn fee_settings(max: u64) -> FeeSettings {
    FeeSettings { max_feerate_sat_vb: max, base_fee_multiplier: ONE, min_safe_fee_rate: 1 }
}

fn engine_context(max_feerate: u64) -> EngineContext {
    EngineContext::new(
        FeeManager::new(fee_settings(max_feerate)),
        FundingManager::new(FundingSettings { min_funding_amount_sats: 10_000 }),
        Dispatcher::new(DispatcherSettings { max_tx_weight: 400_000 }),
        CoordinatorStorage::new(CoordinatorStorageSettings { max_tracking_confirmations: 10 }),
        CoordinatorSettings { retry_interval_seconds: 5, retry_attempts_sending_tx: 3 },
        6,
    )
}

fn speedup_engine() -> SpeedupEngine {
    SpeedupEngine::new(SpeedupSettings {
        max_unconfirmed_speedups: 2,
        min_blocks_before_resend_speedup: 1,
        ..SpeedupSettings::default()
    })
}

fn status() -> TxStatus {
    TxStatus { in_mempool: false, not_found: false, finalized: false, confirmed: false, orphan: false }
}

fn not_found() -> TxStatus {
    TxStatus { not_found: true, ..status() }
}

fn nowhere() -> NodeState {
    NodeState { confirmations: None, gone: vec![] }
}

fn news(ctx: &mut EngineContext) -> Vec<CoordinatorNews> {
    ctx.storage.get_and_mark_news(1)
}

fn state(ctx: &EngineContext, seed: u8) -> TransactionState {
    ctx.storage.get_tx_by_id(id(seed)).unwrap().state
}

// =============================================================================
// What a refused broadcast means
// =============================================================================

/// The table of verdicts, from what the node has to the retry budget.
#[test]
fn verdicts_on_refused_broadcasts() {
    let ctx = engine_context(1000);
    let mut tx = cpfp(1, TransactionState::ToDispatch, vec![], vec![utxo(50, 1, 10_000)]);
    tx.tx = spending(vec![input(60, 0), input(50, 1)], 500);
    let funding = OutPoint { txid: id(50), vout: 1 };
    let anchor = OutPoint { txid: id(60), vout: 0 };
    assert_eq!(ctx.inputs_to_probe(&tx), vec![funding, anchor]);

    let on_node = |n: u32| NodeState { confirmations: Some(n), gone: vec![funding] };
    let missing = |gone: Vec<OutPoint>| NodeState { confirmations: None, gone };

    // The node has the transaction, whatever became of its inputs.
    assert_eq!(ctx.classify_dispatch_error(&tx, &on_node(0), 7), Verdict::Accepted);
    assert_eq!(ctx.classify_dispatch_error(&tx, &on_node(1), 7), Verdict::AlreadyConfirmed);

    // A funding input can be replaced, another one cannot; the funding is looked at first.
    assert_eq!(
        ctx.classify_dispatch_error(&tx, &missing(vec![funding]), 7),
        Verdict::Failed { funding_missing: true }
    );
    assert_eq!(
        ctx.classify_dispatch_error(&tx, &missing(vec![anchor]), 7),
        Verdict::Failed { funding_missing: false }
    );
    assert_eq!(
        ctx.classify_dispatch_error(&tx, &missing(vec![anchor, funding]), 7),
        Verdict::Failed { funding_missing: true }
    );
    assert_eq!(ctx.missing_input_kind(&tx, &vec![OutPoint { txid: id(50), vout: 0 }]), None);

    // The guard defers a missing input up to its height.
    tx.fail_guard_until = Some(9);
    assert_eq!(ctx.classify_dispatch_error(&tx, &missing(vec![anchor]), 8), Verdict::Retry);
    assert_eq!(
        ctx.classify_dispatch_error(&tx, &missing(vec![anchor]), 9),
        Verdict::Failed { funding_missing: false }
    );

    // Every input is intact: three attempts in all.
    for (count, verdict) in [
        (0, Verdict::Retry),
        (1, Verdict::Retry),
        (2, Verdict::Failed { funding_missing: false }),
    ] {
        tx.retry_count = count;
        assert_eq!(ctx.classify_dispatch_error(&tx, &nowhere(), 8), verdict);
    }
}

/// The guard is anchored at the first disappearance and disarmed by acceptance.
#[test]
fn guard_is_anchored_once() {
    let mut ctx = engine_context(1000);
    let engine = TransactionEngine::new();
    ctx.storage.insert_tx(record(1, TransactionState::InMempool, TxKind::Normal));
    let txs = ctx.storage.get_active_txs();
    engine.review_transactions(&mut ctx, &txs, &[not_found()], 100);
    assert_eq!(state(&ctx, 1), TransactionState::ToDispatch);
    assert_eq!(ctx.storage.get_tx_by_id(id(1)).unwrap().fail_guard_until, Some(106));

    let again = ctx.storage.get_tx_by_id(id(1)).unwrap();
    engine.review_transactions(&mut ctx, &[again], &[not_found()], 103);
    assert_eq!(ctx.storage.get_tx_by_id(id(1)).unwrap().fail_guard_until, Some(106));

    let tx = ctx.storage.get_tx_by_id(id(1)).unwrap();
    let info = FeeInfo { fee: 5, fee_rate: 6, package_fee_rate: 7, weight: 8 };
    let request = ctx.mark_accepted(&tx, 104, info).unwrap();
    assert!(matches!(request, MonitorRequest::Watch { search_in_mempool: true, txids, context, .. }
        if txids == vec![id(1)] && context == "client"));
    let tx = ctx.storage.get_tx_by_id(id(1)).unwrap();
    assert_eq!(tx.fail_guard_until, None);
    assert_eq!(tx.broadcast_block_height, Some(104));
    assert_eq!(tx.fee_info, info);
}

/// The review of one transaction by each status.
#[test]
fn review_by_status() {
    let mut ctx = engine_context(1000);
    let engine = TransactionEngine::new();
    let mut tx = record(1, TransactionState::InMempool, TxKind::Normal);
    tx.broadcast_block_height = Some(10);
    ctx.storage.insert_tx(tx);
    ctx.storage.insert_tx(record(2, TransactionState::ToDispatch, TxKind::Normal));
    let listed = engine.review_active(&mut ctx, 20);
    assert_eq!(listed.len(), 1);
    assert!(engine.searches_mempool(&listed[0]));

    engine.review_transactions(&mut ctx, &listed, &[TxStatus { confirmed: true, ..status() }], 20);
    assert_eq!(state(&ctx, 1), TransactionState::Confirmed);
    engine.review_transactions(&mut ctx, &listed, &[TxStatus { orphan: true, ..status() }], 21);
    assert_eq!(state(&ctx, 1), TransactionState::InMempool);

    let mut confirmed = ctx.storage.get_tx_by_id(id(1)).unwrap();
    confirmed.state = TransactionState::Confirmed;
    engine.review_transactions(
        &mut ctx,
        &[confirmed],
        &[TxStatus { in_mempool: true, ..status() }],
        22,
    );
    let back = ctx.storage.get_tx_by_id(id(1)).unwrap();
    assert_eq!((back.state, back.broadcast_block_height), (TransactionState::InMempool, Some(22)));

    let finalized = TxStatus { confirmed: true, finalized: true, ..status() };
    engine.review_transactions(&mut ctx, &listed, &[finalized], 23);
    let done = ctx.storage.get_tx_by_id(id(1)).unwrap();
    assert_eq!((done.state, done.settled_block_height), (TransactionState::Finalized, Some(23)));

    // A status that says nothing changes nothing, and neither does one that is missing.
    engine.review_transactions(&mut ctx, &listed, &[status()], 24);
    engine.review_transactions(&mut ctx, &listed, &[], 24);
    assert_eq!(state(&ctx, 1), TransactionState::Finalized);
    assert_eq!(state(&ctx, 2), TransactionState::ToDispatch);
}

/// A retry is let through once per interval, and the first attempts of others are not held back.
#[test]
fn retries_wait_for_their_interval() {
    let mut ctx = engine_context(1000);
    let fresh = record(1, TransactionState::ToDispatch, TxKind::Normal);
    let mut tried = record(2, TransactionState::ToDispatch, TxKind::Normal);
    tried.retry_count = 1;
    let both = || vec![fresh.clone(), tried.clone()];
    assert_eq!(ctx.limit_retries(both(), 100).len(), 2);
    assert_eq!(ctx.last_retry_at, Some(100));
    let held = ctx.limit_retries(both(), 104);
    assert_eq!(held.len(), 1);
    assert_eq!(held[0].txid, id(1));
    assert_eq!(ctx.last_retry_at, Some(100));
    // A clock that went back does not let anything through either.
    assert_eq!(ctx.limit_retries(both(), 3).len(), 1);
    assert_eq!(ctx.limit_retries(both(), 105).len(), 2);
    assert_eq!(ctx.last_retry_at, Some(105));

    // By the clock of the machine, which is later than all that.
    assert_eq!(ctx.apply_retry_rate_limit(both()).len(), 2);
    assert!(ctx.last_retry_at.unwrap() > 105);
    assert_eq!(ctx.apply_retry_rate_limit(vec![fresh.clone()]).len(), 1);
}

/// Outcomes for other transactions, fees that do not fit and replacements of no speedup are errors.
#[test]
fn errors_of_dispatch_results() {
    let mut ctx = engine_context(1000);
    let engine = TransactionEngine::new();
    let tx = record(1, TransactionState::ToDispatch, TxKind::Normal);
    ctx.storage.insert_tx(tx.clone());
    let txs = [tx];

    let stranger = engine.settle_dispatched(
        &mut ctx,
        &txs,
        id(9),
        DispatchOutcome::Success,
        &nowhere(),
        1,
        5,
    );
    assert!(matches!(stranger, Err(BitcoinCoordinatorError::InvariantViolation(_))));
    // The engine of the speedups passes over it.
    let ignored = speedup_engine().settle_dispatched(
        &mut ctx,
        &txs,
        id(9),
        DispatchOutcome::Success,
        &nowhere(),
        5,
    );
    assert!(ignored.unwrap().is_none());

    let info = txs[0].fee_info;
    let mixed = ctx.handle_dispatch_result(
        &txs[0],
        id(9),
        DispatchOutcome::Success,
        &nowhere(),
        5,
        info,
    );
    assert!(matches!(mixed, Err(BitcoinCoordinatorError::InvariantViolation(_))));

    let overflow = engine.settle_dispatched(
        &mut ctx,
        &txs,
        id(1),
        DispatchOutcome::Success,
        &nowhere(),
        u64::MAX,
        5,
    );
    match overflow {
        Err(BitcoinCoordinatorError::Internal(m)) => assert_eq!(m, "fee out of range"),
        other => panic!("unexpected {:?}", other),
    }
    assert_eq!(state(&ctx, 1), TransactionState::ToDispatch);

    let replacement = rbf(2, TransactionState::ToDispatch, id(1), vec![], vec![]);
    ctx.storage.insert_speedup(replacement.clone());
    let refused = speedup_engine().settle_dispatched(
        &mut ctx,
        &[replacement],
        id(2),
        DispatchOutcome::Success,
        &nowhere(),
        5,
    );
    assert!(matches!(refused, Err(BitcoinCoordinatorError::InvariantViolation(_))));
    assert_eq!(state(&ctx, 2), TransactionState::ToDispatch);

    // The fee of an accepted transaction is that of its size.
    let accepted = engine.settle_dispatched(
        &mut ctx,
        &txs,
        id(1),
        DispatchOutcome::Success,
        &nowhere(),
        3,
        5,
    );
    assert!(accepted.unwrap().is_some());
    let stored = ctx.storage.get_tx_by_id(id(1)).unwrap();
    assert_eq!(stored.state, TransactionState::InMempool);
    assert_eq!(stored.fee_info.fee, 3 * stored.tx.vsize());
}

// =============================================================================
// Failures
// =============================================================================

/// A failure takes the speedups in the queue with it that depend on the transaction, and no others.
#[test]
fn failures_cascade() {
    let mut ctx = engine_context(1000);
    let parent = record(1, TransactionState::ToDispatch, TxKind::NeedsSpeedup(SpeedupData::new(utxo(1, 0, 600))));
    let other = record(2, TransactionState::InMempool, TxKind::NeedsSpeedup(SpeedupData::new(utxo(2, 0, 600))));
    ctx.storage.insert_tx(parent.clone());
    ctx.storage.insert_tx(other);
    let funding = utxo(50, 0, 20_000);
    ctx.storage.append_funding(funding);
    ctx.storage.set_spent(id(50), true);
    // Covers both parents; is built on by the next one; one that is on its way already; a stranger.
    ctx.storage.insert_speedup(cpfp(3, TransactionState::ToDispatch, vec![id(1), id(2)], vec![funding]));
    ctx.storage.insert_speedup(cpfp(4, TransactionState::ToDispatch, vec![id(3)], vec![utxo(3, 0, 900)]));
    ctx.storage.insert_speedup(cpfp(5, TransactionState::InMempool, vec![id(1)], vec![utxo(60, 0, 900)]));
    ctx.storage.insert_speedup(cpfp(6, TransactionState::ToDispatch, vec![id(7)], vec![utxo(61, 0, 900)]));

    ctx.fail_and_cascade(&parent, 30, false);
    assert_eq!(state(&ctx, 1), TransactionState::Failed);
    assert_eq!(state(&ctx, 3), TransactionState::Failed);
    assert_eq!(state(&ctx, 4), TransactionState::Failed);
    assert_eq!(state(&ctx, 5), TransactionState::InMempool);
    assert_eq!(state(&ctx, 6), TransactionState::ToDispatch);
    assert_eq!(ctx.storage.get_tx_by_id(id(4)).unwrap().settled_block_height, Some(30));

    // The funding is free again and both parents wait, of which the failed one is pruned later.
    assert!(!ctx.storage.get_tx_by_id(id(50)).unwrap().get_funding_info().unwrap().1);
    assert_eq!(ctx.storage.pending_txids(), vec![id(1), id(2)]);
    let ready: Vec<Txid> =
        ctx.storage.get_pending_speedup_parents().iter().map(|tx| tx.txid).collect();
    assert_eq!(ready, vec![id(2)]);
    assert_eq!(
        news(&mut ctx),
        vec![
            CoordinatorNews::DispatchError { txid: id(1), context: "client".to_string() },
            CoordinatorNews::SpeedupDispatchError { txid: id(3), context: "client".to_string() },
            CoordinatorNews::SpeedupDispatchError { txid: id(4), context: "client".to_string() },
        ]
    );
}

/// A replacement that failed gives back what it claimed itself; the inherited input stays claimed, and
/// the speedup that it was to replace is live again.
#[test]
fn failed_replacement_keeps_inherited_claims() {
    let mut ctx = engine_context(1000);
    let inherited = utxo(50, 0, 20_000);
    let own = utxo(51, 0, 30_000);
    for u in [inherited, own] {
        ctx.storage.append_funding(u);
        ctx.storage.set_spent(u.txid, true);
    }
    let mut replaced = cpfp(1, TransactionState::InMempool, vec![], vec![inherited]);
    replaced.speedup_kind_mut().unwrap().context_mut().replaced_by = Some(id(2));
    ctx.storage.insert_speedup(replaced);
    let replacement =
        rbf(2, TransactionState::ToDispatch, id(1), vec![own], vec![inherited, own]);
    ctx.storage.insert_speedup(replacement.clone());

    ctx.fail_and_cascade(&replacement, 30, true);
    let spent = |seed: u8| {
        ctx.storage.get_tx_by_id(id(seed)).unwrap().get_funding_info().unwrap().1
    };
    assert!(spent(50));
    assert!(!spent(51));
    let live = ctx.storage.get_tx_by_id(id(1)).unwrap();
    assert_eq!(live.speedup_kind().unwrap().context().replaced_by, None);
    assert!(ctx.storage.pending_txids().is_empty());
}

/// A speedup that spends from a failed transaction is not sent, and its other parents wait again.
#[test]
fn speedups_are_lost_with_a_parent() {
    let mut ctx = engine_context(1000);
    let engine = speedup_engine();
    ctx.storage.insert_tx(record(1, TransactionState::Failed, TxKind::NeedsSpeedup(SpeedupData::new(utxo(1, 0, 600)))));
    ctx.storage.insert_tx(record(2, TransactionState::InMempool, TxKind::NeedsSpeedup(SpeedupData::new(utxo(2, 0, 600)))));
    let mut lost = cpfp(3, TransactionState::ToDispatch, vec![id(1), id(2)], vec![utxo(50, 0, 900)]);
    lost.tx = spending(vec![input(1, 0), input(2, 0), input(50, 0)], 500);
    let sound = cpfp(4, TransactionState::ToDispatch, vec![id(2)], vec![utxo(51, 0, 900)]);
    let mut heavy = cpfp(5, TransactionState::ToDispatch, vec![], vec![utxo(52, 0, 900)]);
    heavy.tx = spending(vec![], 500);
    for tx in [lost, sound, heavy] {
        ctx.storage.insert_speedup(tx);
    }

    let (txs, run) = engine.dispatch_pending_speedups(&mut ctx, 50);
    assert_eq!(txs.len(), 3);
    assert_eq!(run.queue.len(), 1);
    assert_eq!(run.queue[0].txid, id(4));
    assert_eq!(run.results.len(), 2);
    assert!(matches!(&run.results[0], (t, DispatchOutcome::Fatal(_)) if *t == id(5)));
    assert!(matches!(&run.results[1], (t, DispatchOutcome::ParentFailed) if *t == id(3)));

    assert!(!engine.boost_failed(&ctx, &txs));
    let settled = engine.settle_dispatched(
        &mut ctx,
        &txs,
        id(3),
        DispatchOutcome::ParentFailed,
        &nowhere(),
        40,
    );
    assert!(settled.unwrap().is_none());
    assert_eq!(state(&ctx, 3), TransactionState::Failed);
    assert_eq!(ctx.storage.pending_txids(), vec![id(1), id(2)]);
    // The lost speedup covers no registered transaction by its parent data, so it counts as a boost.
    assert!(engine.boost_failed(&ctx, &txs));
    assert!(engine.boost_if_stale(&ctx, 1_000, true).is_none());
}

// =============================================================================
// Reviewing and building speedups
// =============================================================================

/// A final replacement settles all that it replaced, and a queue that offers no output is an error.
#[test]
fn final_replacements_settle_what_they_replaced() {
    let mut ctx = engine_context(1000);
    let engine = speedup_engine();
    ctx.storage.insert_speedup(cpfp(1, TransactionState::InMempool, vec![], vec![utxo(50, 0, 900)]));
    ctx.storage.insert_speedup(rbf(2, TransactionState::InMempool, id(1), vec![], vec![utxo(50, 0, 900)]));
    ctx.storage.insert_speedup(rbf(3, TransactionState::InMempool, id(2), vec![], vec![utxo(50, 0, 900)]));
    let in_flight = engine.speedups_to_review(&ctx);
    assert_eq!(in_flight.len(), 3);
    let finalized = TxStatus { confirmed: true, finalized: true, ..status() };
    let outcome =
        engine.review_speedups(&mut ctx, &in_flight, &[not_found(), not_found(), finalized], 60);
    assert!(outcome.error.is_none());
    let cancelled: Vec<Vec<Txid>> = outcome
        .requests
        .iter()
        .map(|r| match r {
            MonitorRequest::Cancel { txids, .. } => txids.clone(),
            MonitorRequest::Watch { .. } => vec![],
        })
        .collect();
    assert_eq!(cancelled, vec![vec![id(2)], vec![id(1)]]);
    assert_eq!(state(&ctx, 1), TransactionState::Failed);
    assert_eq!(state(&ctx, 2), TransactionState::Failed);
    assert_eq!(state(&ctx, 3), TransactionState::Finalized);

    // A queued speedup without outputs.
    let mut broken = cpfp(4, TransactionState::Finalized, vec![], vec![utxo(51, 0, 900)]);
    broken.tx.output.clear();
    let tip = cpfp(5, TransactionState::Confirmed, vec![], vec![utxo(52, 0, 900)]);
    let storage = CoordinatorStorage::restore(
        CoordinatorStorageSettings::default(),
        vec![broken, tip],
        vec![],
        vec![id(5)],
        vec![],
        vec![FundingEntry::Record(id(4))],
    );
    let mut ctx = engine_context(1000);
    ctx.storage = storage;
    let in_flight = engine.speedups_to_review(&ctx);
    let outcome = engine.review_speedups(&mut ctx, &in_flight, &[finalized], 60);
    assert!(matches!(outcome.error, Some(BitcoinCoordinatorError::InvariantViolation(_))));
}

/// While a speedup waits to be dispatched, neither a boost nor a CPFP is built; with the slots taken no
/// CPFP is either.
#[test]
fn one_speedup_is_built_ahead() {
    let engine = speedup_engine();
    let mut ctx = engine_context(1000);
    let data = SpeedupData::new(utxo(1, 0, 600));
    ctx.storage.insert_tx(record(1, TransactionState::InMempool, TxKind::NeedsSpeedup(data)));
    ctx.storage.add_pending_speedup_parent(id(1));
    let mut live = cpfp(2, TransactionState::InMempool, vec![], vec![utxo(50, 0, 900)]);
    live.broadcast_block_height = Some(10);
    ctx.storage.insert_speedup(live.clone());

    assert!(engine.boost_if_stale(&ctx, 10, false).is_none(), "not stale yet");
    let plan = engine.boost_if_stale(&ctx, 11, false).unwrap();
    assert_eq!(plan.last.txid, id(2));
    assert_eq!(plan.unconfirmed.len(), 1);
    assert!(!plan.use_rbf);
    assert!(engine.create_cpfp_batch(&mut ctx).is_some());

    ctx.storage.insert_speedup(cpfp(3, TransactionState::ToDispatch, vec![], vec![utxo(51, 0, 900)]));
    assert!(engine.boost_if_stale(&ctx, 11, false).is_none());
    assert!(engine.create_cpfp_batch(&mut ctx).is_none());

    let mut second = cpfp(3, TransactionState::InMempool, vec![], vec![utxo(51, 0, 900)]);
    second.broadcast_block_height = Some(10);
    ctx.storage.update_tx(&second);
    assert!(engine.boost_if_stale(&ctx, 11, false).unwrap().use_rbf);
    assert!(engine.create_cpfp_batch(&mut ctx).is_none());

    // A package at the maximal rate is left alone.
    second.fee_info.package_fee_rate = 1000;
    ctx.storage.update_tx(&second);
    assert!(engine.boost_if_stale(&ctx, 11, false).is_none());
}

fn request(parents: Vec<ParentEntry>, fee_rate: u64) -> BuildRequest {
    BuildRequest { parents, rbf_inputs: None, bump_fee: ONE, fee_rate, chain_diff_fee: 0 }
}

fn entry(seed: u8, vsize: u64) -> ParentEntry {
    ParentEntry { data: SpeedupData::new(utxo(seed, 0, 600)), vsize }
}

/// Sums and products that do not fit in 64 bits are reported.
#[test]
fn builds_out_of_range() {
    let engine = speedup_engine();
    let mut ctx = engine_context(u64::MAX);
    let internal = |e: BitcoinCoordinatorError| match e {
        BitcoinCoordinatorError::Internal(m) => m,
        other => panic!("unexpected {:?}", other),
    };
    let live = cpfp(2, TransactionState::InMempool, vec![], vec![utxo(50, 0, 900)]);
    ctx.storage.insert_speedup(live.clone());
    ctx.storage.insert_tx(record(1, TransactionState::InMempool, TxKind::NeedsSpeedup(SpeedupData::new(utxo(1, 0, 600)))));
    ctx.storage.add_pending_speedup_parent(id(1));
    let mut stale = live.clone();
    stale.broadcast_block_height = Some(0);
    ctx.storage.update_tx(&stale);

    let plan = engine.boost_if_stale(&ctx, 9, false).unwrap();
    let e = engine.boost_request(&mut ctx, &plan, Some(u64::MAX), ONE).unwrap_err();
    assert_eq!(internal(e), "chain fee out of range");
    let cpfp_plan = engine.create_cpfp_batch(&mut ctx).unwrap();
    let e = engine.cpfp_request(&mut ctx, &cpfp_plan, Some(u64::MAX)).unwrap_err();
    assert_eq!(internal(e), "chain fee out of range");
    let huge = vec![entry(1, u64::MAX), entry(2, 1)];
    let e = engine.begin_build(&mut ctx, request(huge, 1)).unwrap_err();
    assert_eq!(internal(e), "parent size out of range");

    let mut build =
        engine.begin_build(&mut ctx, request(vec![entry(1, 100)], u64::MAX)).unwrap().unwrap();
    let e = engine.price_build(&ctx, &mut build, 50).unwrap_err();
    assert_eq!(internal(e), "speedup fee out of range");
    let tx = spending(vec![input(1, 0)], 5);
    let e = engine
        .save_boost(&mut ctx, &plan, &build, tx.clone(), u64::MAX, false, 9)
        .unwrap_err();
    assert_eq!(internal(e), "package fee out of range");
    let e = engine.save_cpfp(&mut ctx, &[], &build, tx, u64::MAX, false, 9).unwrap_err();
    assert_eq!(internal(e), "package fee out of range");
}

/// The steps of a build: price, combine a second input, and give up when that is not enough.
#[test]
fn steps_of_a_build() {
    let engine = speedup_engine();
    let mut ctx = engine_context(1000);
    // Nothing to pay from.
    assert!(engine.begin_build(&mut ctx, request(vec![entry(1, 100)], 10)).unwrap().is_none());
    assert_eq!(news(&mut ctx), vec![CoordinatorNews::FundingNotAvailable]);

    // The change of a speedup comes before the queue, and a queue entry can be combined with it.
    let mut tip = cpfp(2, TransactionState::InMempool, vec![], vec![utxo(50, 0, 9_000)]);
    tip.tx = spending(vec![input(50, 0)], 2_000);
    ctx.storage.insert_speedup(tip);
    ctx.storage.append_funding(utxo(51, 3, 20_000));
    let mut build =
        engine.begin_build(&mut ctx, request(vec![entry(1, 100)], 10)).unwrap().unwrap();
    assert!(build.primary_is_speedup && !build.is_rbf);
    assert_eq!(build.funding_inputs[0].amount, 2_000);
    // (100 + 50) * 10 - 100
    assert_eq!(engine.price_build(&ctx, &mut build, 50).unwrap(), 1_400);
    assert_eq!(build.child_vsize, 50);
    // 2000 - 1400 leaves 600.
    assert_eq!(
        engine.advance_build(&mut ctx, &mut build, 1_400, 600),
        BuildStep::Sign { fee: 1_400, capped: false }
    );
    assert!(engine.finish_build(&mut build, 50));
    assert!(!engine.finish_build(&mut build, 51));
    assert_eq!(build.child_vsize, 51);

    assert_eq!(engine.advance_build(&mut ctx, &mut build, 1_401, 600), BuildStep::Measure);
    assert_eq!(build.funding_inputs.len(), 2);
    assert_eq!(build.funding_inputs[1], utxo(51, 3, 20_000));
    assert_eq!(build.child_vsize, 0);
    assert_eq!(engine.price_build(&ctx, &mut build, 118).unwrap(), 2_080);

    // Both inputs are not enough: what was claimed is released, and that is news.
    assert_eq!(engine.advance_build(&mut ctx, &mut build, 21_401, 600), BuildStep::GiveUp);
    assert_eq!(
        news(&mut ctx),
        vec![CoordinatorNews::InsufficientFunds { available: 22_000, required: 22_001 }]
    );
    let tip = ctx.storage.get_tx_by_id(id(2)).unwrap();
    assert!(!tip.speedup_kind().unwrap().context().spent);
    assert!(!ctx.storage.get_tx_by_id(id(51)).unwrap().get_funding_info().unwrap().1);

    // The fee of a package is cut at the maximal rate: (100 + 118) * 1000 - 100.
    let mut rich: SpeedupBuild = build;
    rich.funding_inputs[1].amount = 1_000_000;
    assert_eq!(
        engine.advance_build(&mut ctx, &mut rich, 300_000, 600),
        BuildStep::Sign { fee: 217_900, capped: true }
    );
}

/// A replacement starts from the inputs and parents of the speedup that it replaces.
#[test]
fn replacements_inherit() {
    let mut engine = speedup_engine();
    engine.settings.max_unconfirmed_speedups = 1;
    let mut ctx = engine_context(1000);
    let data = SpeedupData::new(utxo(1, 0, 600));
    let kind = SpeedupKind::CPFP {
        parents: vec![id(1)],
        context: SpeedupContext {
            parent_data: vec![bitcoin_coordinator::types::ParentData {
                data,
                amount: 600,
                vsize: 100,
            }],
            ..context(vec![utxo(50, 0, 9_000)])
        },
    };
    let mut last = record(2, TransactionState::InMempool, TxKind::Speedup(kind));
    last.broadcast_block_height = Some(0);
    last.fee_info.package_fee_rate = 7;
    ctx.storage.insert_speedup(last);
    let plan = engine.boost_if_stale(&ctx, 9, false).unwrap();
    assert!(plan.use_rbf);
    let request = engine.boost_request(&mut ctx, &plan, Some(5), ONE).unwrap();
    assert_eq!(request.fee_rate, 8);
    assert_eq!(request.parents.len(), 1);
    assert_eq!(request.parents[0].vsize, 100);
    assert_eq!(request.rbf_inputs.as_ref().unwrap()[0], utxo(50, 0, 9_000));
    // The live speedup pays 1 sat/vB and lacks 7 of each of its vbytes.
    let vsize = plan.last.tx.vsize();
    assert_eq!(request.chain_diff_fee, 7 * vsize);

    let build = engine.begin_build(&mut ctx, request).unwrap().unwrap();
    assert!(build.is_rbf && !build.primary_is_speedup);
    assert_eq!(build.inherited, 1);
    let tx = spending(vec![input(1, 0), input(50, 0)], 4_000);
    let txid = tx.compute_txid();
    let watch = engine.save_boost(&mut ctx, &plan, &build, tx, 5_000, true, 9).unwrap();
    assert!(matches!(watch, MonitorRequest::Watch { search_in_mempool: false, txids, .. }
        if txids == vec![txid]));
    let saved = ctx.storage.get_tx_by_id(txid).unwrap();
    assert_eq!(saved.state, TransactionState::ToDispatch);
    match saved.speedup_kind().unwrap() {
        SpeedupKind::RBF { replaces, new_funding_inputs, context } => {
            assert_eq!(*replaces, id(2));
            assert!(new_funding_inputs.is_empty());
            assert_eq!(context.parent_data[0].amount, 600);
        }
        SpeedupKind::CPFP { .. } => panic!("a replacement was due"),
    }
    // Capped: the speedup that is replaced counts as at the maximal rate too, and that is news.
    assert_eq!(ctx.storage.get_tx_by_id(id(2)).unwrap().fee_info.package_fee_rate, 1000);
    let rate = saved.fee_info.package_fee_rate;
    assert_eq!(rate, 5_100 / (saved.tx.vsize() + 100));
    assert!(matches!(&news(&mut ctx)[..],
        [CoordinatorNews::MaxFeeRateReached { txid: t, effective_fee_rate, context }]
            if *t == txid && *effective_fee_rate == rate && *context == saved.context));
}

// =============================================================================
// The coordinator
// =============================================================================

fn coordinator() -> BitcoinCoordinator {
    let storage = CoordinatorStorage::new(CoordinatorStorageSettings::default());
    BitcoinCoordinator::new_with_paths(None, true, storage, 6).unwrap()
}

/// Settings out of range and a node without a transaction index are refused.
#[test]
fn construction_errors() {
    let storage = || CoordinatorStorage::new(CoordinatorStorageSettings::default());
    let message = |r: Result<BitcoinCoordinator, BitcoinCoordinatorError>| match r {
        Err(BitcoinCoordinatorError::InvalidConfiguration(m)) => m,
        other => panic!("unexpected {:?}", other),
    };
    assert_eq!(
        message(BitcoinCoordinator::new_with_paths(None, false, storage(), 6)),
        "the Bitcoin node must run with -txindex=1"
    );
    let mut settings = BitcoinSettings::default();
    settings.dispatcher.max_tx_weight = 0;
    assert_eq!(
        message(BitcoinCoordinator::new_with_paths(Some(settings), false, storage(), 6)),
        "invalid max_tx_weight"
    );
}

/// A registration is prepared once; the record holds what was asked for.
#[test]
fn registrations() {
    let mut c = coordinator();
    let tx = spending(vec![input(1, 0)], 700);
    let txid = tx.compute_txid();
    let data = SpeedupData::new(utxo(9, 0, 600));
    let (request, record) = c
        .dispatch_with_speedup(tx.clone(), data, "a".to_string(), None, Some(4), 33, Some(2))
        .unwrap()
        .unwrap();
    assert!(matches!(request, MonitorRequest::Watch { search_in_mempool: false, confirmation_trigger: Some(4), .. }));
    assert_eq!(record.txid, txid);
    assert_eq!(record.target_block_height, 33);
    assert_eq!(record.fee_info.fee, 2 * tx.vsize());
    assert_eq!(record.stuck_in_mempool_blocks, None);
    c.commit_registration(record);
    assert_eq!(c.ctx.storage.pending_txids(), vec![txid]);
    // Once registered, it is skipped, by whatever way it comes.
    let again = c.dispatch(tx.clone(), None, "b".to_string(), Some(1), None, 33, None).unwrap();
    assert!(again.is_none());

    let plain = spending(vec![input(2, 0)], 700);
    let (_, record) = c
        .dispatch_without_speedup(plain, "c".to_string(), Some(50), None, Some(8), 33, None)
        .unwrap()
        .unwrap();
    assert_eq!((record.target_block_height, record.stuck_in_mempool_blocks), (50, Some(8)));
    c.commit_registration(record);
    assert_eq!(c.ctx.storage.pending_txids(), vec![txid]);

    // A fee that does not fit.
    let mut settings = BitcoinSettings::default();
    settings.fee.max_feerate_sat_vb = u64::MAX;
    c.ctx.fee_manager = FeeManager::new(settings.fee);
    let other = spending(vec![input(3, 0)], 700);
    let e = c.dispatch(other, None, String::new(), None, None, 33, Some(u64::MAX)).unwrap_err();
    assert!(matches!(e, BitcoinCoordinatorError::Internal(m) if m == "fee out of range"));
}

/// The news of the monitor about the coordinator's own speedups is left out.
#[test]
fn internal_news_is_filtered() {
    let mut c = coordinator();
    let mut engine_news: Vec<MonitorNews> = vec![];
    let texts = [
        Some("client"),
        Some(bitcoin_coordinator::settings::CPFP_TRANSACTION_CONTEXT),
        None,
        Some(bitcoin_coordinator::settings::RBF_TRANSACTION_CONTEXT),
        Some(""),
    ];
    for (i, text) in texts.iter().enumerate() {
        engine_news.push(MonitorNews {
            transaction_context: text.map(|t| t.to_string()),
            index: i as u64,
        });
    }
    engine_news.push(MonitorNews {
        transaction_context: Some(format!(
            "x{}y",
            bitcoin_coordinator::settings::CPFP_TRANSACTION_CONTEXT
        )),
        index: 9,
    });
    let shown: Vec<u64> =
        c.get_news(engine_news, 5).monitor_news.iter().map(|n| n.index).collect();
    assert_eq!(shown, vec![0, 2, 4]);
    assert_eq!(c.ack_news(AckNews::Monitor(4), 5), Some(4));
}

/// What was broadcast is counted under the coordinator too.
#[test]
fn broadcasts_are_counted() {
    let mut c = coordinator();
    let tx = spending(vec![input(1, 0)], 700);
    let (_, record) = c
        .dispatch_without_speedup(tx, "s".to_string(), None, None, None, 0, None)
        .unwrap()
        .unwrap();
    c.commit_registration(record);
    // Without anything to send, the estimate is no news.
    let (none, idle, _) = c.tx_engine.dispatch_batch(&mut c.ctx, vec![], Some(2_000), 0);
    assert!(none.is_empty() && idle.is_done());
    assert!(c.ctx.storage.news_items().is_empty());
    let due = c.tx_engine.dispatch_pending(&c.ctx, 0);
    let (_, mut run, fee_rate) = c.tx_engine.dispatch_batch(&mut c.ctx, due, Some(2_000), 0);
    assert_eq!(fee_rate, 1_000);
    assert_eq!(c.ctx.storage.news_items().len(), 1);
    assert!(c.ctx.dispatcher.gate(&mut run, &[]).is_some());
    c.ctx.dispatcher.sent(&mut run, Ok(()), 546);
    assert_eq!(c.broadcast_stats().by_label[0].0, "normal|s");
    assert_eq!(c.broadcast_stats().totals().count, 1);
    assert_eq!(
        c.get_news(vec![], 0).coordinator_news,
        vec![CoordinatorNews::EstimateFeerateTooHigh { estimated_fee_rate: 2_000, max_fee_rate: 1_000 }]
    );
}
