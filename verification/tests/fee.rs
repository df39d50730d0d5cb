use bitcoin_coordinator::config::FeeSettings;
use bitcoin_coordinator::fee::FeeManager;
use bitcoin_coordinator::primitives::{
    Multiplier, OutPoint, PublicKey, Transaction, TxIn, TxOut, Txid, Witness,
};
use bitcoin_coordinator::settings::MULTIPLIER_ONE;
use bitcoin_coordinator::types::{
    CoordinatedTx, CoordinatorNews, FeeInfo, SpeedupContext, SpeedupKind, TransactionState, TxKind,
    Utxo,
};

fn multiplier(value: f64) -> Multiplier {
    Multiplier { bits: value.to_bits() }
}

fn settings(min_safe: u64, max: u64) -> FeeSettings {
    FeeSettings {
        max_feerate_sat_vb: max,
        base_fee_multiplier: multiplier(1.0),
        min_safe_fee_rate: min_safe,
    }
}

fn dummy_tx() -> Transaction {
    Transaction { version: 2, lock_time: 0, input: vec![], output: vec![] }
}

/// One input with an empty script and a witness of two items, and one output.
fn spending_tx() -> Transaction {
    Transaction {
        version: 2,
        lock_time: 0,
        input: vec![TxIn {
            previous_output: OutPoint { txid: Txid { bytes: [7; 32] }, vout: 1 },
            script_sig: vec![],
            sequence: 0xffff_fffd,
            witness: Witness::new(vec![vec![1; 71], vec![2; 33]]).unwrap(),
        }],
        output: vec![TxOut { value: 50_000, script_pubkey: vec![0; 22] }],
    }
}

fn cpfp_coordinated_tx(seed: u8, fee_rate: u64) -> CoordinatedTx {
    let txid = Txid { bytes: [seed; 32] };
    let key = PublicKey { compressed: true, parity: 2, x_hi: 0x42, x_lo: 0x42 };
    CoordinatedTx {
        txid,
        tx: dummy_tx(),
        kind: TxKind::Speedup(SpeedupKind::CPFP {
            parents: vec![],
            context: SpeedupContext {
                funding_inputs: vec![Utxo::new(txid, 0, 100_000, &key)],
                replaced_by: None,
                bump_fee_used: Multiplier { bits: MULTIPLIER_ONE },
                parent_data: vec![],
                spent: false,
            },
        }),
        state: TransactionState::InMempool,
        broadcast_block_height: None,
        target_block_height: 0,
        stuck_in_mempool_blocks: None,
        confirmation_trigger: None,
        settled_block_height: None,
        fail_guard_until: None,
        retry_count: 0,
        fee_info: FeeInfo { fee: 0, fee_rate, package_fee_rate: fee_rate, weight: 0 },
        context: String::new(),
    }
}

/// The fee of a speedup with its multiplier applied.
fn compute_speedup_fee(
    manager: &FeeManager,
    parents: &[(u64, u64)],
    child_vsize: u64,
    bump_fee: f64,
    fee_rate: u64,
    is_rbf: bool,
    chain_diff_fee: u64,
    chain_vsize: u64,
) -> u64 {
    let base = manager
        .speedup_fee_before_bump(
            parents,
            child_vsize,
            multiplier(bump_fee),
            fee_rate,
            is_rbf,
            chain_diff_fee,
            chain_vsize,
        )
        .unwrap();
    (base as f64 * bump_fee).ceil() as u64
}

#[test]
fn test_compute_fee_for_tx() {
    let manager = FeeManager::new(settings(1, 1000));
    let tx = dummy_tx();
    let vsize = tx.vsize();
    let fee_info = manager.compute_fee_for_tx(&tx, 10);
    assert_eq!(fee_info.fee, vsize * 10);
    assert_eq!(fee_info.fee_rate, 10);
    assert_eq!(fee_info.weight, tx.weight());
}

#[test]
fn test_get_network_fee_rate_below_max() {
    let manager = FeeManager::new(settings(10, 100));
    let (fee_rate, news) = manager.get_network_fee_rate(None);
    assert!(fee_rate <= 100);
    assert!(news.is_none());
}

/// `get_network_fee_rate` lifts a low network estimate (or the
/// fallback when no estimate is available) up to `min_safe_fee_rate`.
#[test]
fn test_get_network_fee_rate_honors_min_safe_floor() {
    let manager = FeeManager::new(FeeSettings {
        max_feerate_sat_vb: 1000,
        base_fee_multiplier: multiplier(1.0),
        min_safe_fee_rate: 25,
    });
    for estimate in [None, Some(0), Some(24), Some(25), Some(26)] {
        let (fee_rate, _) = manager.get_network_fee_rate(estimate);
        assert!(
            fee_rate >= 25,
            "get_network_fee_rate must clamp up to min_safe_fee_rate; got {}",
            fee_rate
        );
    }
}

#[test]
fn test_chain_fee_diff() {
    let manager = FeeManager::new(settings(1, 1000));

    // Empty input returns (0, 0).
    assert_eq!(manager.chain_fee_diff(10, &[]), (0, 0));

    let tx = cpfp_coordinated_tx(1, 10);
    let tx_vsize = tx.tx.vsize();

    // Same rate: 0 fee diff, correct chain vsize.
    let (diff, vsize) = manager.chain_fee_diff(10, &[tx.clone()]);
    assert_eq!(diff, 0);
    assert_eq!(vsize, tx_vsize);

    // Rate increase 5 to 10: diff = vsize * (10 - 5).
    let tx2 = cpfp_coordinated_tx(2, 5);
    let (diff, chain_vsize) = manager.chain_fee_diff(10, &[tx2]);
    assert_eq!(diff, tx_vsize * (10 - 5));
    assert_eq!(chain_vsize, tx_vsize);

    // Two txs at old rate: cumulative diff and vsize.
    let tx3 = cpfp_coordinated_tx(3, 5);
    let tx4 = cpfp_coordinated_tx(4, 5); // Both are expected to have the same fee rate
    let (diff, chain_vsize) = manager.chain_fee_diff(10, &[tx3, tx4]);
    assert_eq!(diff, 2 * tx_vsize * (10 - 5));
    assert_eq!(chain_vsize, 2 * tx_vsize);
}

#[test]
fn test_compute_speedup_fee() {
    let manager = FeeManager::new(FeeSettings {
        max_feerate_sat_vb: 1000,
        base_fee_multiplier: multiplier(1.0),
        min_safe_fee_rate: 1,
    });

    // Basic CPFP: parent 100 vB / 500 sat output; child 50 vB; rate 5; bump 1.0.
    // parent_total=500, child_total=250, total=750; fee = 750-500-100 = 150.
    let fee = compute_speedup_fee(&manager, &[(500, 100)], 50, 1.0, 5, false, 0, 0);
    assert_eq!(fee, 150);

    // RBF bandwidth policy: total_fee(150) < child_total*2(500) -> floor lifted to 500.
    let fee = compute_speedup_fee(&manager, &[(500, 100)], 50, 1.0, 5, true, 0, 0);
    assert_eq!(fee, 500);

    // Bump multiplier 1.5: ceil(150 * 1.5) = 225
    let fee = compute_speedup_fee(&manager, &[(500, 100)], 50, 1.5, 5, false, 0, 0);
    assert_eq!(fee, 225);
}

/// Sizes and txids are those of the serialised transaction.
#[test]
fn sizes_and_txids_of_known_transactions() {
    // Version, lock time and two empty counts: ten bytes of four weight units each. Without
    // inputs the two marker bytes of a witness are written too.
    let empty = dummy_tx();
    assert_eq!(empty.weight(), 42);
    assert_eq!(empty.vsize(), 11);
    assert_eq!(
        empty.compute_txid().to_text(),
        "4ebd325a4b394cff8c57e8317ccf5a8d0e2bdf1b8526f8aad6c8e43d8240621a"
    );

    // 82 bytes without the witness, and two marker bytes plus 1 + 1 + 71 + 1 + 33 of witness.
    let tx = spending_tx();
    assert_eq!(tx.weight(), 82 * 4 + 109);
    assert_eq!(tx.vsize(), 110);

    // The txid does not cover the witness, but everything else.
    let id = tx.compute_txid();
    let mut other = spending_tx();
    other.input[0].witness = Witness::new(vec![]).unwrap();
    assert_eq!(other.compute_txid(), id);
    other.output[0].value += 1;
    assert_ne!(other.compute_txid(), id);
    let mut other = spending_tx();
    other.input[0].previous_output.vout = 2;
    assert_ne!(other.compute_txid(), id);
    let mut other = spending_tx();
    other.lock_time = 5;
    assert_ne!(other.compute_txid(), id);
    let mut other = spending_tx();
    other.version = 1;
    assert_ne!(other.compute_txid(), id);
}

/// An estimate above the maximum is cut, and that is news.
#[test]
fn estimate_above_the_maximum() {
    let manager = FeeManager::new(settings(10, 100));
    let (rate, news) = manager.get_network_fee_rate(Some(101));
    assert_eq!(rate, 100);
    assert_eq!(
        news,
        Some(CoordinatorNews::EstimateFeerateTooHigh { estimated_fee_rate: 101, max_fee_rate: 100 })
    );
    assert_eq!(manager.get_network_fee_rate(Some(100)), (100, None));
    assert_eq!(manager.get_network_fee_rate(Some(11)), (11, None));
    assert_eq!(manager.get_network_fee_rate(Some(9)), (10, None));
}

/// What the chain lacks and the incentive of a bumped speedup come on top.
#[test]
fn chain_terms_of_a_speedup_fee() {
    let manager = FeeManager::new(settings(1, 1000));
    let base = |bump: f64, diff: u64, chain: u64| {
        manager.speedup_fee_before_bump(&[(500, 100)], 50, multiplier(bump), 5, false, diff, chain)
    };
    assert_eq!(base(1.0, 70, 300), Some(220));
    assert_eq!(base(1.5, 70, 300), Some(520));
    assert_eq!(base(1.5, 0, 0), Some(150));
    // Parents that pay for themselves leave nothing to pay.
    assert_eq!(
        manager.speedup_fee_before_bump(&[(5_000, 100)], 50, multiplier(1.0), 5, false, 0, 0),
        Some(0)
    );
    // Out of range.
    assert_eq!(
        manager.speedup_fee_before_bump(&[], u64::MAX, multiplier(1.0), 2, false, 0, 0),
        None
    );
    assert_eq!(base(1.0, u64::MAX, 0), None);
}

/// The package pays at most the maximal rate.
#[test]
fn capped_speedup_fees() {
    let manager = FeeManager::new(settings(1, 10));
    // (100 + 50) * 10 - 100 = 1400.
    assert_eq!(manager.cap_speedup_fee(1_400, 100, 50), (1_400, false));
    assert_eq!(manager.cap_speedup_fee(1_401, 100, 50), (1_400, true));
    let wide = FeeManager::new(settings(1, u64::MAX));
    assert_eq!(wide.cap_speedup_fee(u64::MAX, u64::MAX, u64::MAX), (u64::MAX, false));
}

#[test]
fn boosts_outbid_their_predecessor() {
    assert_eq!(FeeManager::boost_fee_rate(5, 9), 10);
    assert_eq!(FeeManager::boost_fee_rate(9, 9), 10);
    assert_eq!(FeeManager::boost_fee_rate(12, 9), 12);
}

/// The package rate counts what the parents paid themselves.
#[test]
fn fee_info_of_a_paid_speedup() {
    let manager = FeeManager::new(settings(1, 1000));
    let info = manager.fee_info_for_paid_speedup(&spending_tx(), 1_000, 200);
    assert_eq!(info.fee, 1_000);
    assert_eq!(info.fee_rate, 9);
    assert_eq!(info.package_fee_rate, 1_200 / 310);
    assert_eq!(info.weight, 437);
}

#[test]
fn fees_that_do_not_fit() {
    let manager = FeeManager::new(settings(1, 1000));
    assert!(manager.try_fee_for_tx(&dummy_tx(), u64::MAX).is_none());
    assert_eq!(manager.try_fee_for_tx(&dummy_tx(), 3).unwrap().fee, 33);
    assert!(manager.try_chain_fee_diff(u64::MAX, &[cpfp_coordinated_tx(1, 0)]).is_none());
    let mut tx = cpfp_coordinated_tx(2, 0);
    tx.tx = spending_tx();
    assert_eq!(manager.compute_fee(&tx, 2).fee, 220);
}

/// Multipliers are compared as doubles are: below zero, both zeros, infinities and no numbers at all.
#[test]
fn multipliers_are_ordered_as_doubles() {
    let values = [
        f64::NEG_INFINITY,
        -2.0,
        -0.5,
        -0.0,
        0.0,
        f64::MIN_POSITIVE,
        0.5,
        1.0,
        2.0,
        f64::INFINITY,
        f64::NAN,
        -f64::NAN,
    ];
    for a in values {
        for b in values {
            assert_eq!(multiplier(a).exceeds(multiplier(b)), a > b, "{} > {}", a, b);
        }
    }
    // Only a bump above the base multiplier adds the incentive.
    let manager = FeeManager::new(settings(1, 100));
    let fee = |bump: f64| manager.speedup_fee_before_bump(&[], 50, multiplier(bump), 5, false, 0, 40);
    assert_eq!(fee(4.0), Some(290));
    assert_eq!(fee(-4.0), Some(250));
    assert_eq!(fee(f64::NAN), Some(250));
}

/// The items of a witness come out as they went in.
#[test]
fn witness_keeps_its_items() {
    let items = vec![vec![1, 2], vec![], vec![3]];
    assert_eq!(Witness::new(items.clone()).unwrap().items(), &items);
    assert_eq!(Witness::new(items.clone()).unwrap().clone(), Witness::new(items).unwrap());
}

/// A capped speedup is recorded at the cap while the size that was priced is close to the signed one.
#[test]
fn capped_speedups_are_recorded_at_the_cap() {
    let manager = FeeManager::new(settings(1, 10));
    let recorded = |priced: u64| {
        let (paid, capped) = manager.cap_speedup_fee(1_000_000, 200, priced);
        assert!(capped);
        manager.fee_info_for_paid_speedup(&spending_tx(), paid, 200).package_fee_rate
    };
    assert_eq!(spending_tx().vsize(), 110);
    assert_eq!(recorded(110), 10);
    assert_eq!(recorded(140), 10);
    assert_eq!(recorded(141), 11);
}
