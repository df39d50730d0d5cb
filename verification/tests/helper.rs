use bitcoin_coordinator::dispatcher::DispatchOutcome;
use bitcoin_coordinator::errors::BitcoinCoordinatorError;
use bitcoin_coordinator::helper::{
    clock_secs, find_tx_in_batch, now_secs, verify_single_dispatch_result,
};
use bitcoin_coordinator::primitives::{BlockHeight, Multiplier, PublicKey, Transaction, TxOut, Txid};
use bitcoin_coordinator::settings::MULTIPLIER_ONE;
use bitcoin_coordinator::types::TransactionState::{
    Confirmed, Failed, Finalized, InMempool, ToDispatch,
};
use bitcoin_coordinator::types::{
    CoordinatedTx, FeeInfo, FundingData, News, SpeedupContext, SpeedupData, SpeedupKind,
    TransactionState, TxKind, Utxo,
};

fn txid(seed: u8) -> Txid {
    Txid { bytes: [seed; 32] }
}

fn dummy_pubkey() -> PublicKey {
    PublicKey { compressed: true, parity: 2, x_hi: 0x42, x_lo: 0x42 }
}

fn dummy_tx() -> Transaction {
    Transaction { version: 2, lock_time: 0, input: vec![], output: vec![] }
}

fn normal_coordinated_tx(seed: u8) -> CoordinatedTx {
    CoordinatedTx {
        txid: txid(seed),
        tx: dummy_tx(),
        kind: TxKind::Normal,
        state: TransactionState::ToDispatch,
        broadcast_block_height: None,
        target_block_height: 0,
        stuck_in_mempool_blocks: None,
        confirmation_trigger: None,
        settled_block_height: None,
        fail_guard_until: None,
        retry_count: 0,
        fee_info: FeeInfo { fee: 0, fee_rate: 1, package_fee_rate: 1, weight: 0 },
        context: String::new(),
    }
}

fn cpfp_coordinated_tx(seed: u8, fee_rate: u64) -> CoordinatedTx {
    let mut tx = normal_coordinated_tx(seed);
    tx.kind = TxKind::Speedup(SpeedupKind::CPFP {
        parents: vec![],
        context: SpeedupContext {
            funding_inputs: vec![Utxo::new(txid(seed), 0, 100_000, &dummy_pubkey())],
            replaced_by: None,
            bump_fee_used: Multiplier { bits: MULTIPLIER_ONE },
            parent_data: vec![],
            spent: false,
        },
    });
    tx.state = TransactionState::InMempool;
    tx.fee_info.fee_rate = fee_rate;
    tx
}

#[test]
fn test_is_ready_to_dispatch() {
    let make_tx = |target: BlockHeight| {
        let mut tx = normal_coordinated_tx(0);
        tx.target_block_height = target;
        tx
    };

    assert!(make_tx(100).is_ready_to_dispatch(100));
    assert!(make_tx(100).is_ready_to_dispatch(101));
    assert!(!make_tx(100).is_ready_to_dispatch(99));
}

#[test]
fn test_is_stuck_in_mempool() {
    let make_tx = |broadcast: Option<BlockHeight>, threshold: Option<u32>| {
        let mut tx = normal_coordinated_tx(1);
        tx.state = TransactionState::InMempool;
        tx.broadcast_block_height = broadcast;
        tx.stuck_in_mempool_blocks = threshold;
        tx
    };

    // Threshold disabled.
    assert!(!make_tx(Some(100), None).is_stuck_in_mempool(200));
    // Not yet broadcast.
    assert!(!make_tx(None, Some(10)).is_stuck_in_mempool(200));
    // Below threshold.
    assert!(!make_tx(Some(100), Some(10)).is_stuck_in_mempool(109));
    // Exactly at threshold.
    assert!(make_tx(Some(100), Some(10)).is_stuck_in_mempool(110));
    // Above threshold.
    assert!(make_tx(Some(100), Some(10)).is_stuck_in_mempool(200));
}

#[test]
fn test_speedup_kind_helpers() {
    // Normal tx returns Err for both variants.
    let normal = normal_coordinated_tx(1);
    assert!(normal.speedup_kind().is_err());

    let mut normal_mut = normal_coordinated_tx(2);
    assert!(normal_mut.speedup_kind_mut().is_err());

    // Speedup tx returns Ok.
    let speedup = cpfp_coordinated_tx(3, 1);
    assert!(speedup.speedup_kind().is_ok());

    let mut speedup_mut = cpfp_coordinated_tx(4, 1);
    let k = speedup_mut.speedup_kind_mut().unwrap();
    assert!(!k.is_rbf());

    // RBF: exercises context_mut and parents RBF arms.
    let mut rbf = cpfp_coordinated_tx(5, 1);
    let replaced_txid = rbf.txid;
    let context = match &rbf.kind {
        TxKind::Speedup(SpeedupKind::CPFP { context, .. }) => context.clone(),
        _ => panic!("expected CPFP"),
    };
    rbf.kind = TxKind::Speedup(SpeedupKind::RBF {
        replaces: replaced_txid,
        new_funding_inputs: vec![],
        context,
    });
    let k = rbf.speedup_kind_mut().unwrap();
    assert!(k.is_rbf());
    assert!(k.parents().is_empty());
    k.context_mut().replaced_by = Some(replaced_txid);
    assert_eq!(rbf.speedup_kind().unwrap().context().replaced_by, Some(replaced_txid));
}

#[test]
fn test_last_output() {
    // No outputs returns Err.
    let tx = normal_coordinated_tx(1);
    assert!(tx.last_output().is_err());

    // One output: vout = 0.
    let mut tx = normal_coordinated_tx(2);
    tx.tx.output.push(TxOut { value: 1_000, script_pubkey: vec![] });
    let (out, vout) = tx.last_output().unwrap();
    assert_eq!(vout, 0);
    assert_eq!(out.value, 1_000);

    // Two outputs: vout = 1 (last).
    tx.tx.output.push(TxOut { value: 2_000, script_pubkey: vec![] });
    let (out, vout) = tx.last_output().unwrap();
    assert_eq!(vout, 1);
    assert_eq!(out.value, 2_000);
}

#[test]
fn test_verify_single_dispatch_result() {
    let id = txid(1);
    let other = txid(2);

    // Correct single result returns Ok.
    assert!(verify_single_dispatch_result(id, vec![(id, DispatchOutcome::Success)]).is_ok());

    // Empty returns Err.
    assert!(verify_single_dispatch_result(id, vec![]).is_err());

    // Two results returns Err.
    assert!(verify_single_dispatch_result(
        id,
        vec![(id, DispatchOutcome::Success), (other, DispatchOutcome::Success)]
    )
    .is_err());

    // Wrong txid returns Err.
    assert!(verify_single_dispatch_result(id, vec![(other, DispatchOutcome::Success)]).is_err());
}

#[test]
fn test_find_tx_in_batch() {
    let tx1 = normal_coordinated_tx(1);
    let tx2 = normal_coordinated_tx(2);
    let batch = vec![tx1.clone(), tx2.clone()];

    assert!(find_tx_in_batch(&batch, tx1.txid).is_ok());
    assert!(find_tx_in_batch(&batch, tx2.txid).is_ok());

    let missing = txid(99);
    assert!(find_tx_in_batch(&batch, missing).is_err());
}

#[test]
fn test_verify_tx_id() {
    let tx = normal_coordinated_tx(1);
    assert!(tx.verify_tx_id(tx.txid).is_ok());

    let other = txid(99);
    assert!(tx.verify_tx_id(other).is_err());
}

#[test]
fn test_can_transition_to() {
    // InMempool → Failed is valid (RBF chain cleanup).
    assert!(InMempool.can_transition_to(&Failed));

    // Idempotent transitions are always valid.
    assert!(ToDispatch.can_transition_to(&ToDispatch));
    assert!(Finalized.can_transition_to(&Finalized));

    // Invalid transitions return false.
    assert!(!Finalized.can_transition_to(&ToDispatch));
    assert!(!Finalized.can_transition_to(&InMempool));
    assert!(!Failed.can_transition_to(&InMempool));
    assert!(!Confirmed.can_transition_to(&Failed));
}

/// The complete table of lifecycle steps.
#[test]
fn lifecycle_steps_in_full() {
    let all = [ToDispatch, InMempool, Confirmed, Finalized, Failed];
    let allowed = [
        [true, true, true, true, true],
        [true, true, true, true, true],
        [true, true, true, true, false],
        [false, false, false, true, false],
        [false, false, false, false, true],
    ];
    for (i, from) in all.iter().enumerate() {
        for (j, to) in all.iter().enumerate() {
            assert_eq!(from.can_transition_to(to), allowed[i][j], "{:?} to {:?}", from, to);
        }
    }
}

fn message(e: BitcoinCoordinatorError) -> String {
    match e {
        BitcoinCoordinatorError::InvariantViolation(m) => m,
        other => panic!("unexpected error {:?}", other),
    }
}

/// The error messages name the transactions, in the usual byte order.
#[test]
fn error_messages() {
    let mut bytes = [0u8; 32];
    bytes[0] = 0xab;
    bytes[31] = 0x01;
    let id = Txid { bytes };
    let text = format!("01{}ab", "00".repeat(30));
    assert_eq!(id.to_text(), text);

    let mut tx = normal_coordinated_tx(1);
    tx.txid = id;
    assert_eq!(
        message(tx.speedup_kind().unwrap_err()),
        format!("expected Speedup, got Normal for tx {}", text)
    );
    assert_eq!(message(tx.last_output().unwrap_err()), format!("tx {} has no outputs", text));
    let other = "02".repeat(32);
    assert_eq!(
        message(tx.verify_tx_id(txid(2)).unwrap_err()),
        format!("expected txid {}, got {}", other, text)
    );
    assert_eq!(
        message(find_tx_in_batch(&[], id).unwrap_err()),
        format!("dispatcher returned txid {} not present in dispatch batch", text)
    );
    assert_eq!(
        message(verify_single_dispatch_result(id, vec![]).unwrap_err()),
        format!("dispatch returned 0 results for single tx {}", text)
    );
    assert_eq!(
        message(
            verify_single_dispatch_result(id, vec![(txid(2), DispatchOutcome::Success)])
                .unwrap_err()
        ),
        format!("dispatch returned txid {} but expected {}", other, text)
    );
    assert_eq!(
        BitcoinCoordinatorError::InvariantViolation("x".to_string()).to_text(),
        "Invariant violation: x"
    );
    assert_eq!(
        BitcoinCoordinatorError::Internal("x".to_string()).to_text(),
        "Internal error (programmer bug): x"
    );
    assert_eq!(
        BitcoinCoordinatorError::InvalidConfiguration("x".to_string()).to_text(),
        "Bad configuration: x"
    );
}

/// What the records of each kind offer as funding.
#[test]
fn funding_info_by_kind() {
    let key = dummy_pubkey();
    let mut speedup = cpfp_coordinated_tx(3, 1);
    assert!(speedup.speedup_change_utxo().is_err(), "no output, no change");
    speedup.tx.output.push(TxOut { value: 700, script_pubkey: vec![] });
    speedup.tx.output.push(TxOut { value: 900, script_pubkey: vec![] });
    let change = Utxo::new(txid(3), 1, 900, &key);
    assert_eq!(speedup.speedup_change_utxo().unwrap(), change);
    assert_eq!(speedup.get_funding_info().unwrap(), (change, false));

    let mut funding = normal_coordinated_tx(4);
    let utxo = Utxo::new(txid(4), 7, 5_000, &key);
    funding.kind = TxKind::Funding(FundingData { utxo, spent: true });
    assert_eq!(funding.get_funding_info().unwrap(), (utxo, true));

    assert!(normal_coordinated_tx(5).get_funding_info().is_err());
    let mut parent = normal_coordinated_tx(6);
    parent.kind = TxKind::NeedsSpeedup(SpeedupData::new(utxo));
    assert!(parent.get_funding_info().is_err());
    assert_eq!(parent.kind.label(), "NeedsSpeedup");
}

/// A speedup is being replaced once it is marked, or when a live RBF of it is on record.
#[test]
fn live_replacements() {
    let target = cpfp_coordinated_tx(1, 1);
    let mut rbf = cpfp_coordinated_tx(2, 1);
    let context = target.speedup_kind().unwrap().context().clone();
    rbf.kind = TxKind::Speedup(SpeedupKind::RBF {
        replaces: target.txid,
        new_funding_inputs: vec![],
        context,
    });
    rbf.state = TransactionState::ToDispatch;
    assert!(rbf.is_rbf_of(target.txid));
    assert!(!rbf.is_rbf_of(rbf.txid));
    assert!(target.has_live_replacement(&[rbf.clone()]));
    rbf.state = TransactionState::Failed;
    assert!(!target.has_live_replacement(&[rbf]));

    let mut marked = target.clone();
    marked.speedup_kind_mut().unwrap().context_mut().replaced_by = Some(txid(9));
    assert!(marked.has_live_replacement(&[]));
}

#[test]
fn clock_is_past_2020() {
    assert!(now_secs() > 1_577_836_800);
}

#[test]
fn empty_news() {
    assert!(News { monitor_news: vec![], coordinator_news: vec![] }.is_empty());
}

/// A clock that is set before the epoch reads as zero.
#[test]
fn readings_of_the_clock() {
    assert_eq!(clock_secs(Some(1_700_000_000)), 1_700_000_000);
    assert_eq!(clock_secs(None), 0);
}
