use crate::config::{FeeSettings, SpeedupSettings};
use crate::coordinator::registers;
use crate::dispatcher::rejected;
use crate::engine_context::{has_retries, is_first_attempt, verdict_of, EngineContext, NodeState};
use crate::errors::BitcoinCoordinatorError;
use crate::fee::{chain_shortfall, fee_ceiling, monus, network_rate, rate, speedup_fee};
use crate::laws::law_report_is_stored;
use crate::lemmas::{lemma_filter_members, lemma_present_members};
use crate::lifecycle::Verdict;
use crate::model::{other_than, StoreView};
use crate::primitives::{tx_id, tx_weight, BlockHeight, OutPoint, TransactionView, Txid};
use crate::speedup_builder::{
    boost_rate, capped_fee, paid_fee_info, txids_of, BoostPlan, SpeedupBuild,
};
use crate::speedup_model::{any_waiting, boost_target};
use crate::types::{
    CoordinatedTx, CoordinatedTxView, CoordinatorNewsView, FeeInfo, MonitorRequest, TxStatus,
};
use vstd::prelude::*;

verus! {

// The fail guard

/// The guard is anchored once: losing the transaction again does not move its deadline.
pub proof fn law_guard_is_anchored_once(
    store: StoreView,
    id: Txid,
    first: BlockHeight,
    second: BlockHeight,
)
    requires
        store.is_keyed(),
        store.can_requeue(id),
        store.txs[id].fail_guard_until is None,
    ensures
        store.requeue_not_found(id, first).txs[id].fail_guard_until == Some(first),
        store.requeue_not_found(id, first).requeue_not_found(id, second).txs[id].fail_guard_until == Some(
            first,
        ),
{
}

/// While the guard is armed, a missing input never makes a transaction fail; past the deadline it always
/// does.
pub proof fn law_guard_defers_failure(
    tx: CoordinatedTxView,
    gone: Seq<OutPoint>,
    height: BlockHeight,
    attempts: u32,
    deadline: BlockHeight,
)
    requires
        tx.fail_guard_until == Some(deadline),
        tx.missing_input(gone) is Some,
    ensures
        height < deadline ==> tx.refused(None, gone, height, attempts) is Retry,
        height >= deadline ==> tx.refused(None, gone, height, attempts) is Failed,
{
}

/// A transaction that is back on the node, in the mempool or on chain, has its guard disarmed.
pub proof fn law_recovery_disarms_the_guard(
    store: StoreView,
    tx: CoordinatedTxView,
    height: BlockHeight,
    fee_info: FeeInfo,
)
    ensures
        store.apply_verdict(tx, Verdict::Accepted, height, fee_info).txs[tx.txid].fail_guard_until is None,
        store.apply_verdict(
            tx,
            Verdict::AlreadyConfirmed,
            height,
            fee_info,
        ).txs[tx.txid].fail_guard_until is None,
{
}

/// A node that has the transaction never lets it fail, whatever became of its inputs.
pub proof fn law_presence_outweighs_missing_inputs(
    tx: CoordinatedTxView,
    confirmations: u32,
    gone: Seq<OutPoint>,
    height: BlockHeight,
    attempts: u32,
)
    ensures
        tx.refused(Some(confirmations), gone, height, attempts) == if confirmations == 0 {
            Verdict::Accepted
        } else {
            Verdict::AlreadyConfirmed
        },
{
}

/// A transaction that can never be valid fails at once, whatever the node says and whether or not its
/// guard is armed.
pub proof fn law_structural_problems_need_no_node(
    tx: CoordinatedTxView,
    max_weight: u64,
    node: NodeState,
    height: BlockHeight,
    attempts: u32,
)
    requires
        tx.tx.input.len() == 0 || tx_weight(tx.tx) > max_weight,
    ensures
        match rejected(max_weight)(tx) {
            Some((id, outcome)) => id == tx.txid && verdict_of(tx, outcome, node, height, attempts) == (
            Verdict::Failed { funding_missing: false }),
            None => false,
        },
{
}

/// With its inputs intact, a transaction is retried exactly until its attempts are used up.
pub proof fn law_retry_budget(
    tx: CoordinatedTxView,
    gone: Seq<OutPoint>,
    height: BlockHeight,
    attempts: u32,
)
    requires
        tx.missing_input(gone) is None,
    ensures
        tx.refused(None, gone, height, attempts) is Retry <==> tx.retry_count + 1 < attempts,
        tx.refused(None, gone, height, attempts) is Failed <==> tx.retry_count + 1 >= attempts,
{
}

/// A batch of retries that was let through keeps the next one back until the interval has passed, for
/// both engines alike; first attempts are never held back.
pub proof fn law_retries_keep_their_distance(
    ctx: EngineContext,
    after: EngineContext,
    txs: Seq<CoordinatedTxView>,
    kept: Seq<CoordinatedTxView>,
    now: u64,
    later: u64,
    i: int,
)
    requires
        ctx.holds_back(after, txs, kept, now),
        0 <= i < txs.len(),
    ensures
        ctx.retry_is_due(now) && has_retries(txs) ==> (after.retry_is_due(later) <==> monus(
            later as int,
            now as int,
        ) >= ctx.coordinator_config.retry_interval_seconds),
        txs[i].retry_count == 0 ==> kept.contains(txs[i]),
        txs[i].retry_count > 0 && !ctx.retry_is_due(now) ==> !kept.contains(txs[i]),
{
    lemma_filter_members(txs, is_first_attempt());
    assert(txs.contains(txs[i]));
}

// Reviews

/// The review of a transaction touches no other record and none of the lists.
pub proof fn law_review_is_local(
    store: StoreView,
    tx: CoordinatedTxView,
    other: Txid,
    status: TxStatus,
    height: BlockHeight,
    max_confirmations: u32,
)
    requires
        store.is_keyed(),
        other != tx.txid,
    ensures
        ({
            let after = store.review_transaction(tx, status, height, max_confirmations);
            &&& after.txs.get(other) == store.txs.get(other)
            &&& after.speedups == store.speedups
            &&& after.pending == store.pending
            &&& after.funding == store.funding
        }),
{
}

/// A confirmed transaction, speedup or not, that reappears in the mempool is back to `InMempool`,
/// broadcast anew.
pub proof fn law_reorg_brings_back_to_mempool(
    store: StoreView,
    tx: CoordinatedTxView,
    all: Seq<CoordinatedTxView>,
    status: TxStatus,
    height: BlockHeight,
    max_confirmations: u32,
)
    requires
        status.in_mempool,
        tx.state is Confirmed,
    ensures
        ({
            let after = store.review_transaction(tx, status, height, max_confirmations);
            &&& after == store.review_speedup(tx, all, status, height, max_confirmations)
            &&& after.txs[tx.txid].state is InMempool
            &&& after.txs[tx.txid].broadcast_block_height == Some(height)
        }),
{
}

/// A transaction whose block was orphaned stays, or is again, in the mempool.
pub proof fn law_orphans_stay_in_the_mempool(
    store: StoreView,
    tx: CoordinatedTxView,
    all: Seq<CoordinatedTxView>,
    status: TxStatus,
    height: BlockHeight,
    max_confirmations: u32,
)
    requires
        store.txs.contains_key(tx.txid),
        store.txs[tx.txid] == tx,
        tx.state is InMempool || tx.state is Confirmed,
        status.orphan,
        !status.in_mempool && !status.not_found && !status.finalized && !status.confirmed,
    ensures
        ({
            let after = store.review_transaction(tx, status, height, max_confirmations);
            &&& after == store.review_speedup(tx, all, status, height, max_confirmations)
            &&& after.txs[tx.txid].state is InMempool
        }),
{
}

/// A transaction that is gone from chain and mempool is queued to be sent again, with its guard armed,
/// and is still on record under its txid. The only exception is a speedup that was replaced.
pub proof fn law_lost_transactions_are_sent_again(
    store: StoreView,
    tx: CoordinatedTxView,
    all: Seq<CoordinatedTxView>,
    status: TxStatus,
    height: BlockHeight,
    max_confirmations: u32,
)
    requires
        store.txs.contains_key(tx.txid),
        store.txs[tx.txid] == tx,
        tx.state is InMempool || tx.state is Confirmed,
        status.not_found,
        !status.in_mempool,
        height + max_confirmations <= u32::MAX,
    ensures
        ({
            let after = store.review_transaction(tx, status, height, max_confirmations);
            &&& after.is_waiting(tx.txid)
            &&& after.txs[tx.txid].tx == tx.tx
            &&& after.txs[tx.txid].fail_guard_until == Some(
                match tx.fail_guard_until {
                    Some(anchored) => anchored,
                    None => (height + max_confirmations) as u32,
                },
            )
            &&& store.review_speedup(tx, all, status, height, max_confirmations)
                == if tx.has_live_replacement(all) {
                store
            } else {
                after
            }
        }),
{
}

/// A transaction that has been in the mempool for longer than its limit is reported, and only reported.
pub proof fn law_stuck_transactions_are_reported(
    store: StoreView,
    tx: CoordinatedTxView,
    status: TxStatus,
    height: BlockHeight,
    max_confirmations: u32,
)
    requires
        tx.state is InMempool,
        status.in_mempool,
        tx.is_stuck_in_mempool(height),
    ensures
        ({
            let after = store.review_transaction(tx, status, height, max_confirmations);
            &&& after.knows_news(
                CoordinatorNewsView::TransactionStuckInMempool { txid: tx.txid, context: tx.context },
            )
            &&& after == (StoreView { news: after.news, ..store })
        }),
{
    law_report_is_stored(
        store,
        CoordinatorNewsView::TransactionStuckInMempool { txid: tx.txid, context: tx.context },
    );
}

// Fees

/// A boost always outbids the speedup that it boosts, and pays at least the network rate.
pub proof fn law_boost_outbids(network: u64, predecessor: u64)
    ensures
        boost_rate(network, predecessor) > predecessor,
        boost_rate(network, predecessor) >= network,
{
}

/// The rate in use stays between the least safe rate and the maximal one, whatever the node estimates.
pub proof fn law_network_rate_is_bounded(settings: FeeSettings, estimate: Option<u64>)
    requires
        settings.min_safe_fee_rate <= settings.max_feerate_sat_vb,
    ensures
        settings.min_safe_fee_rate <= network_rate(settings, estimate) <= settings.max_feerate_sat_vb,
{
}

/// A replacement pays at least twice its own cost at the fee rate, on top of what the chain lacks.
pub proof fn law_replacement_pays_its_bandwidth(
    entries: Seq<(u64, u64)>,
    child_vsize: u64,
    fee_rate: u64,
    chain_diff_fee: u64,
    incentive: int,
)
    requires
        0 <= incentive,
    ensures
        speedup_fee(entries, child_vsize, fee_rate, true, chain_diff_fee, incentive) >= child_vsize
            * fee_rate * 2 + chain_diff_fee,
{
}

/// The cap bounds what a package pays: a speedup and its parents never pay more than the maximal rate.
pub proof fn law_cap_bounds_the_package_rate(
    fee: u64,
    max_feerate: u64,
    parent_vbytes: u64,
    child_vsize: u64,
)
    requires
        max_feerate > 0,
    ensures
        ({
            let paid = capped_fee(fee, max_feerate, parent_vbytes, child_vsize).0;
            rate(paid + parent_vbytes, child_vsize + parent_vbytes) <= max_feerate && paid <= fee
        }),
{
    let paid = capped_fee(fee, max_feerate, parent_vbytes, child_vsize).0;
    let vbytes = parent_vbytes + child_vsize;
    assert(vbytes * max_feerate >= vbytes) by (nonlinear_arith)
        requires
            max_feerate > 0,
            vbytes >= 0,
    ;
    assert(paid + parent_vbytes <= vbytes * max_feerate);
    if vbytes > 0 {
        assert((paid + parent_vbytes) / vbytes <= max_feerate) by (nonlinear_arith)
            requires
                vbytes > 0,
                paid + parent_vbytes <= vbytes * max_feerate,
        ;
    }
}

/// A speedup whose fee was cut is recorded at the maximal package rate or above: exactly at it unless
/// the size that was priced exceeds the signed size by so much that the difference pays another sat/vB.
pub proof fn law_capped_speedup_is_recorded_at_the_cap(
    fee: u64,
    max_feerate: u64,
    parent_vbytes: u64,
    child_vsize: u64,
    tx: TransactionView,
)
    requires
        max_feerate > 0,
        tx.vsize() <= child_vsize,
        parent_vbytes + tx.vsize() > 0,
        capped_fee(fee, max_feerate, parent_vbytes, child_vsize).1,
    ensures
        ({
            let paid = capped_fee(fee, max_feerate, parent_vbytes, child_vsize).0;
            let recorded = rate(paid + parent_vbytes, tx.vsize() + parent_vbytes);
            &&& recorded >= max_feerate
            &&& recorded == max_feerate <==> (child_vsize - tx.vsize()) * max_feerate < parent_vbytes
                + tx.vsize()
            &&& recorded <= u64::MAX ==> paid_fee_info(tx, paid as u64, parent_vbytes).package_fee_rate
                == recorded
        }),
{
    let paid = capped_fee(fee, max_feerate, parent_vbytes, child_vsize).0;
    let vbytes = parent_vbytes + child_vsize;
    let signed = parent_vbytes + tx.vsize();
    let extra = child_vsize - tx.vsize();
    assert(vbytes * max_feerate >= vbytes) by (nonlinear_arith)
        requires
            max_feerate > 0,
            vbytes >= 0,
    ;
    let total = vbytes * max_feerate;
    assert(paid + parent_vbytes == total);
    assert(total == signed * max_feerate + extra * max_feerate) by (nonlinear_arith)
        requires
            total == vbytes * max_feerate,
            vbytes == signed + extra,
    ;
    assert(extra * max_feerate >= 0) by (nonlinear_arith)
        requires
            extra >= 0,
    ;
    let more = extra * max_feerate;
    assert(total / signed >= max_feerate) by (nonlinear_arith)
        requires
            total == signed * max_feerate + more,
            more >= 0,
            signed > 0,
    ;
    assert(total / signed == max_feerate <==> more < signed) by (nonlinear_arith)
        requires
            total == signed * max_feerate + more,
            more >= 0,
            signed > 0,
    ;
}

/// A fee that was not cut is paid in full, and one that was cut is the most that may be paid.
pub proof fn law_cap_cuts_only_what_exceeds_it(
    fee: u64,
    max_feerate: u64,
    parent_vbytes: u64,
    child_vsize: u64,
)
    ensures
        ({
            let (paid, capped) = capped_fee(fee, max_feerate, parent_vbytes, child_vsize);
            let ceiling = fee_ceiling(max_feerate, parent_vbytes, child_vsize);
            &&& capped <==> fee > ceiling
            &&& !capped ==> paid == fee
            &&& capped ==> paid == ceiling
        }),
{
}

/// A chain that already pays the new rate lacks nothing.
pub proof fn law_paid_chain_lacks_nothing(new_fee_rate: u64, txs: Seq<CoordinatedTxView>)
    requires
        txs.len() > 0 ==> new_fee_rate <= txs.last().fee_info.fee_rate,
    ensures
        chain_shortfall(new_fee_rate, txs) == 0,
{
}

// Building

/// A boost that was saved waits to be dispatched.
pub proof fn law_saved_boost_waits(
    store: StoreView,
    plan: BoostPlan,
    build: SpeedupBuild,
    tx: TransactionView,
    fee: u64,
    capped: bool,
    height: BlockHeight,
    max_feerate: u64,
)
    requires
        store.is_keyed(),
    ensures
        any_waiting(
            store.save_boost(plan, build, tx, fee, capped, height, max_feerate).speedup_records(),
        ),
{
    let after = store.save_boost(plan, build, tx, fee, capped, height, max_feerate);
    let id = tx_id(tx);
    assert(after.txs.contains_key(id) && after.txs[id].state is ToDispatch);
    assert(after.speedups.contains(id)) by {
        if !store.speedups.contains(id) {
            assert(after.speedups[store.speedups.len() as int] == id);
        }
    }
    lemma_waiting_is_listed(after, id);
}

proof fn lemma_waiting_is_listed(store: StoreView, id: Txid)
    requires
        store.txs.contains_key(id),
        store.txs[id].state is ToDispatch,
        store.speedups.contains(id),
    ensures
        any_waiting(store.speedup_records()),
{
    let all = store.speedup_records();
    lemma_present_members(store.txs, store.speedups);
    let k = choose|k: int| 0 <= k < store.speedups.len() && store.speedups[k] == id;
    assert(store.txs.contains_key(store.speedups[k]) && store.txs[store.speedups[k]] == store.txs[id]);
    assert(all.contains(store.txs[id]));
    let i = choose|i: int| 0 <= i < all.len() && all[i] == store.txs[id];
    assert(all[i].state is ToDispatch);
}

/// So does a CPFP.
pub proof fn law_saved_cpfp_waits(
    store: StoreView,
    batch: Seq<CoordinatedTxView>,
    build: SpeedupBuild,
    tx: TransactionView,
    fee: u64,
    capped: bool,
    height: BlockHeight,
)
    ensures
        any_waiting(store.save_cpfp(batch, build, tx, fee, capped, height).speedup_records()),
{
    let after = store.save_cpfp(batch, build, tx, fee, capped, height);
    let id = tx_id(tx);
    lemma_unlisting_keeps_records(store, txids_of(batch));
    assert(after.txs.contains_key(id) && after.txs[id].state is ToDispatch);
    assert(after.speedups.contains(id)) by {
        if !store.speedups.contains(id) {
            assert(after.speedups[store.speedups.len() as int] == id);
        }
    }
    lemma_waiting_is_listed(after, id);
}

/// While a speedup waits to be dispatched, nothing is boosted.
pub proof fn law_boosts_yield_to_a_waiting_speedup(
    all: Seq<CoordinatedTxView>,
    height: BlockHeight,
    speedup: SpeedupSettings,
    fee: FeeSettings,
)
    requires
        any_waiting(all),
    ensures
        boost_target(all, height, speedup, fee) is None,
{
}

/// At most one speedup is built ahead: a builder that finds none waiting leaves its own as the only one.
pub proof fn law_one_speedup_is_built_ahead(
    store: StoreView,
    plan: BoostPlan,
    build: SpeedupBuild,
    tx: TransactionView,
    fee: u64,
    capped: bool,
    height: BlockHeight,
    max_feerate: u64,
    id: Txid,
)
    requires
        store.is_keyed(),
        !any_waiting(store.speedup_records()),
        ({
            let after = store.save_boost(plan, build, tx, fee, capped, height, max_feerate);
            after.speedups.contains(id) && after.is_waiting(id)
        }),
    ensures
        id == tx_id(tx),
{
    let after = store.save_boost(plan, build, tx, fee, capped, height, max_feerate);
    let new_id = tx_id(tx);
    if id != new_id {
        assert(store.speedups.contains(id)) by {
            let k = choose|k: int| 0 <= k < after.speedups.len() && after.speedups[k] == id;
            if !store.speedups.contains(new_id) && k < store.speedups.len() {
                assert(store.speedups[k] == id);
            }
        }
        assert(store.txs.contains_key(id) && store.txs[id].state is ToDispatch);
        lemma_waiting_is_listed(store, id);
    }
}

/// The same for a CPFP of protocol parents.
pub proof fn law_one_cpfp_is_built_ahead(
    store: StoreView,
    batch: Seq<CoordinatedTxView>,
    build: SpeedupBuild,
    tx: TransactionView,
    fee: u64,
    capped: bool,
    height: BlockHeight,
    id: Txid,
)
    requires
        store.is_keyed(),
        !any_waiting(store.speedup_records()),
        ({
            let after = store.save_cpfp(batch, build, tx, fee, capped, height);
            after.speedups.contains(id) && after.is_waiting(id)
        }),
    ensures
        id == tx_id(tx),
{
    let after = store.save_cpfp(batch, build, tx, fee, capped, height);
    let new_id = tx_id(tx);
    lemma_unlisting_keeps_records(store, txids_of(batch));
    if id != new_id {
        assert(store.speedups.contains(id)) by {
            let k = choose|k: int| 0 <= k < after.speedups.len() && after.speedups[k] == id;
            if !store.speedups.contains(new_id) && k < store.speedups.len() {
                assert(store.speedups[k] == id);
            }
        }
        assert(store.txs.contains_key(id) && store.txs[id].state is ToDispatch);
        lemma_waiting_is_listed(store, id);
    }
}

/// Taking parents off the pending list changes nothing else, and they are off it.
proof fn lemma_unlisting_keeps_records(store: StoreView, ids: Seq<Txid>)
    ensures
        ({
            let after = store.unlist_pending(ids);
            &&& after == (StoreView { pending: after.pending, ..store })
            &&& forall|x: Txid| #[trigger]
                after.pending.contains(x) <==> store.pending.contains(x) && !ids.contains(x)
        }),
    decreases ids.len(),
{
    if ids.len() > 0 {
        let rest = ids.drop_last();
        let before = store.unlist_pending(rest);
        lemma_unlisting_keeps_records(store, rest);
        lemma_filter_members(before.pending, other_than(ids.last()));
        let after = store.unlist_pending(ids);
        assert forall|x: Txid| #[trigger] after.pending.contains(x) <==> store.pending.contains(x)
            && !ids.contains(x) by {
            assert(ids[ids.len() - 1] == ids.last());
            if rest.contains(x) {
                let k = choose|k: int| 0 <= k < rest.len() && rest[k] == x;
                assert(ids[k] == x);
            }
            if ids.contains(x) && x != ids.last() {
                let k = choose|k: int| 0 <= k < ids.len() && ids[k] == x;
                assert(rest[k] == x);
            }
        }
    }
}

/// The parents of a CPFP that was saved no longer wait for one.
pub proof fn law_covered_parents_stop_waiting(
    store: StoreView,
    batch: Seq<CoordinatedTxView>,
    build: SpeedupBuild,
    tx: TransactionView,
    fee: u64,
    capped: bool,
    height: BlockHeight,
    i: int,
)
    requires
        0 <= i < batch.len(),
    ensures
        !store.save_cpfp(batch, build, tx, fee, capped, height).pending.contains(batch[i].txid),
{
    let ids = txids_of(batch);
    lemma_unlisting_keeps_records(store, ids);
    assert(ids[i] == batch[i].txid);
    assert(ids.contains(batch[i].txid));
}

// Registering

/// A transaction that is registered is on record, waits to be dispatched, and is not registered a second
/// time; one that needs a speedup waits for a CPFP too.
pub proof fn law_registered_transactions_wait(
    store: StoreView,
    tx: CoordinatedTxView,
    again: Result<Option<(MonitorRequest, CoordinatedTx)>, BitcoinCoordinatorError>,
    fee_rate: u64,
)
    requires
        tx.state is ToDispatch,
        registers(again, store.register(tx), tx, fee_rate),
    ensures
        store.register(tx).is_waiting(tx.txid),
        tx.kind is NeedsSpeedup ==> store.register(tx).pending.contains(tx.txid),
        again matches Ok(None),
{
    if tx.kind is NeedsSpeedup && !store.pending.contains(tx.txid) {
        assert(store.register(tx).pending[store.pending.len() as int] == tx.txid);
    }
}

// Cancelling

proof fn lemma_refusals_keep_records(store: StoreView, ids: Seq<Txid>)
    ensures
        store.report_refusals(ids) == (StoreView { news: store.report_refusals(ids).news, ..store }),
    decreases ids.len(),
{
    if ids.len() > 0 {
        lemma_refusals_keep_records(store, ids.drop_last());
    }
}

/// What is left once records were removed, one after the other.
pub proof fn lemma_remove_each(store: StoreView, ids: Seq<Txid>)
    ensures
        forall|x: Txid| #[trigger]
            store.remove_each(ids).txs.get(x) == if ids.contains(x) {
                None
            } else {
                store.txs.get(x)
            },
        store.remove_each(ids).pending == store.pending,
        store.remove_each(ids).funding == store.funding,
    decreases ids.len(),
{
    if ids.len() > 0 {
        let rest = ids.drop_last();
        lemma_remove_each(store, rest);
        assert forall|x: Txid| #[trigger] store.remove_each(ids).txs.get(x) == if ids.contains(x) {
            None
        } else {
            store.txs.get(x)
        } by {
            assert(ids[ids.len() - 1] == ids.last());
            let before = store.remove_each(rest).txs;
            assert(before.get(x) == if rest.contains(x) {
                None
            } else {
                store.txs.get(x)
            });
            if rest.contains(x) {
                let k = choose|k: int| 0 <= k < rest.len() && rest[k] == x;
                assert(ids[k] == x);
            }
            if ids.contains(x) && x != ids.last() {
                let k = choose|k: int| 0 <= k < ids.len() && ids[k] == x;
                assert(rest[k] == x);
            }
        }
    }
}

/// The store after `ids` were cancelled.
pub open spec fn cancelled(store: StoreView, ids: Seq<Txid>) -> StoreView {
    let eligible = ids.filter(store.is_cancellable());
    store.report_refusals(ids).unlist_pending(eligible).remove_each(eligible)
}

/// Cancelling removes exactly what can be cancelled: a listed transaction that the client registered and
/// that was not dispatched is gone and waits for no CPFP; every other record stays as it was.
pub proof fn law_cancel_removes_only_what_is_cancellable(store: StoreView, ids: Seq<Txid>, id: Txid)
    ensures
        ids.contains(id) && store.cancel_refusal(id) is None ==> !cancelled(store, ids).txs.contains_key(id)
            && !cancelled(store, ids).pending.contains(id),
        !ids.contains(id) || store.cancel_refusal(id) is Some ==> cancelled(store, ids).txs.get(id)
            == store.txs.get(id),
{
    let can = store.is_cancellable();
    let eligible = ids.filter(can);
    lemma_filter_members(ids, can);
    lemma_refusals_keep_records(store, ids);
    let reported = store.report_refusals(ids);
    lemma_unlisting_keeps_records(reported, eligible);
    lemma_remove_each(reported.unlist_pending(eligible), eligible);
    assert(eligible.contains(id) <==> ids.contains(id) && can(id));
    assert(cancelled(store, ids).txs.get(id) == if eligible.contains(id) {
        None
    } else {
        store.txs.get(id)
    });
}

/// A transaction that was already dispatched is never cancelled, and neither is a speedup or a funding
/// UTXO.
pub proof fn law_dispatched_transactions_are_not_cancelled(store: StoreView, id: Txid)
    requires
        store.txs.contains_key(id),
        !(store.txs[id].state is ToDispatch) || store.txs[id].kind is Speedup
            || store.txs[id].kind is Funding,
    ensures
        store.cancel_refusal(id) is Some,
{
}

/// Every refusal is reported.
pub proof fn law_refusals_are_reported(store: StoreView, ids: Seq<Txid>, i: int)
    requires
        0 <= i < ids.len(),
        store.cancel_refusal(ids[i]) is Some,
    ensures
        store.report_refusals(ids).knows_news(
            CoordinatorNewsView::InvalidCancel {
                txid: ids[i],
                reason: store.cancel_refusal(ids[i])->0,
            },
        ),
    decreases ids.len(),
{
    let news = CoordinatorNewsView::InvalidCancel {
        txid: ids[i],
        reason: store.cancel_refusal(ids[i])->0,
    };
    let rest = ids.drop_last();
    let before = store.report_refusals(rest);
    if i == ids.len() - 1 {
        law_report_is_stored(before, news);
    } else {
        assert(rest[i] == ids[i]);
        law_refusals_are_reported(store, rest, i);
        let k = choose|k: int| 0 <= k < before.news.len() && (#[trigger] before.news[k]).news == news;
        assert(store.report_refusals(ids).news[k] == before.news[k]);
    }
}

} // verus!
