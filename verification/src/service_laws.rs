use crate::build_laws::{
    is_new_speedup, law_saved_boost_holds_its_build, law_saved_cpfp_holds_its_build,
    law_saving_a_boost_is_local, law_saving_a_cpfp_is_local,
};
use crate::client_laws::{law_registering_is_local, law_settings_within_limits_are_valid};
use crate::config::BitcoinSettings;
use crate::coordinator::{is_for_client, BitcoinCoordinator, TickStep};
use crate::dispatch_laws::lemma_remove_each;
use crate::dispatcher::{
    is_sendable, outcomes, DispatchOutcome, DispatchOutcomeView, DispatchRun, Dispatcher,
};
use crate::engine_context::{is_first_attempt, EngineContext, NodeState};
use crate::errors::BitcoinCoordinatorError;
use crate::fee::{chain_vsize, total_amount, total_vsize, FeeManager};
use crate::funding::{FundingManager, FundingStorage};
use crate::helper::verify_single_dispatch_result;
use crate::lemmas::{lemma_filter_map_members, lemma_filter_map_step, lemma_filter_members};
use crate::model::{due_item, NewsItemView, StoreView};
use crate::offer_laws::{
    context_of, is_claimed_entry, is_free_at, law_free_change_is_offered,
    law_no_funding_when_all_is_claimed,
};
use crate::pricing_laws::{
    law_cap_leaves_the_maximal_package, law_estimate_is_used_within_bounds,
    law_fee_is_what_the_package_lacks, law_multipliers_are_ordered_by_their_bits,
    law_shortfall_lifts_the_whole_chain, lemma_totals_are_positive,
};
use crate::primitives::{
    tx_id, tx_weight, views, BlockHeight, Multiplier, OutPoint, Transaction, Txid,
};
use crate::record_laws::{
    is_still_covered, law_only_old_records_are_evicted, law_settled_records_are_evicted,
};
use crate::send_laws::{
    law_due_transactions_are_dispatched, law_outcome_finds_its_transaction,
    law_reachable_parents_open_the_way, law_refusal_is_judged_by_the_node,
    law_retries_wait_for_the_interval, law_tracked_parents_are_looked_up,
    law_valid_transactions_are_sent, lost_funding, lost_input,
};
use crate::speedup_builder::{protocol_entry, BoostPlan, BuildRequest, CpfpPlan, SpeedupBuild};
use crate::speedup_engine::{ReviewOutcome, SpeedupEngine};
use crate::speedup_model::{parent_vbytes, review_speedups, waits, ParentEntry};
use crate::storage::CoordinatorStorage;
use crate::transaction_engine::TransactionEngine;
use crate::types::{
    AckNews, CoordinatedTx, CoordinatedTxView, CoordinatorNews, CoordinatorNewsView, FeeInfo,
    FundingEntry, MonitorNews, MonitorRequest, MonitorRequestView, News, SpeedupKindView,
    TransactionState, TxKindView, TxStatus, Utxo,
};
use vstd::prelude::*;

verus! {

// Requests for speedups

/// A call of `boost_request` asks for a rate above that of the speedup that it boosts: the network rate when
/// that is higher, and else one sat/vB more. A replacement takes over all the parents and all the inputs of
/// its predecessor; a CPFP on top of it has neither. The multiplier is the escalated one.
pub proof fn law_boost_asks_for_more(
    engine: &SpeedupEngine,
    ctx: &mut EngineContext,
    plan: &BoostPlan,
    estimate: u64,
    next_bump: Multiplier,
    request: BuildRequest,
    i: int,
)
    requires
        call_ensures(
            SpeedupEngine::boost_request,
            (engine, ctx, plan, Some(estimate), next_bump),
            Ok::<BuildRequest, BitcoinCoordinatorError>(request),
        ),
        plan.last@.kind is Speedup,
        plan.last.fee_info.package_fee_rate < u64::MAX,
        old(ctx).fee_manager.settings.min_safe_fee_rate <= estimate
            <= old(ctx).fee_manager.settings.max_feerate_sat_vb,
    ensures
        ({
            let paid = plan.last.fee_info.package_fee_rate;
            let context = context_of(plan.last@);
            let chain = views(plan.unconfirmed@);
            &&& request.fee_rate == if estimate > paid {
                estimate as int
            } else {
                paid + 1
            }
            &&& request.bump_fee == next_bump
            &&& plan.use_rbf ==> request.parents@.len() == context.parent_data.len() && (
            request.rbf_inputs matches Some(inputs) && inputs@ == context.funding_inputs)
            &&& plan.use_rbf && 0 <= i < context.parent_data.len() ==> request.parents@[i].data
                == context.parent_data[i].data && request.parents@[i].vsize
                == context.parent_data[i].vsize
            &&& !plan.use_rbf ==> request.parents@.len() == 0 && request.rbf_inputs is None
            &&& chain.len() > 0 && request.fee_rate >= chain.last().fee_info.fee_rate ==> chain_vsize(chain)
                * chain.last().fee_info.fee_rate + request.chain_diff_fee == chain_vsize(chain)
                * request.fee_rate
            &&& chain.len() == 0 ==> request.chain_diff_fee == 0
            &&& final(ctx).storage@ == old(ctx).storage@
        }),
{
    let chain = views(plan.unconfirmed@);
    law_estimate_is_used_within_bounds(old(ctx).fee_manager.settings, estimate);
    if chain.len() > 0 && request.fee_rate >= chain.last().fee_info.fee_rate {
        law_shortfall_lifts_the_whole_chain(request.fee_rate, chain);
    }
}

proof fn lemma_all_are_entries(batch: Seq<CoordinatedTxView>)
    requires
        forall|i: int| 0 <= i < batch.len() ==> (#[trigger] batch[i]).kind is NeedsSpeedup,
    ensures
        batch.filter_map(protocol_entry()) == Seq::new(
            batch.len(),
            |i: int|
                ParentEntry {
                    data: batch[i].kind->NeedsSpeedup_0,
                    vsize: batch[i].tx.vsize() as u64,
                },
        ),
    decreases batch.len(),
{
    let all = Seq::new(
        batch.len(),
        |i: int|
            ParentEntry {
                data: batch[i].kind->NeedsSpeedup_0,
                vsize: batch[i].tx.vsize() as u64,
            },
    );
    if batch.len() == 0 {
        lemma_filter_map_members(batch, protocol_entry());
        let none = batch.filter_map(protocol_entry());
        if none.len() > 0 {
            assert(none.contains(none[0]));
        }
        assert(none =~= all);
    } else {
        let rest = batch.drop_last();
        let n = batch.len() - 1;
        assert forall|i: int| 0 <= i < rest.len() implies (#[trigger] rest[i]).kind is NeedsSpeedup by {
            assert(batch[i].kind is NeedsSpeedup);
        }
        lemma_all_are_entries(rest);
        lemma_filter_map_step(batch, protocol_entry(), n);
        assert(batch.take(n) =~= rest);
        assert(batch.take(n + 1) =~= batch);
        assert(batch[n].kind is NeedsSpeedup);
        assert(batch.filter_map(protocol_entry()) =~= all);
    }
}

/// A call of `cpfp_request` asks for the network rate with the base multiplier, for a batch of the parents
/// that were planned, from the front. Each of them is paid for, with its own data and its own size.
pub proof fn law_cpfp_asks_for_each_parent(
    engine: &SpeedupEngine,
    ctx: &mut EngineContext,
    plan: &CpfpPlan,
    estimate: u64,
    batch: Vec<CoordinatedTx>,
    request: BuildRequest,
    i: int,
)
    requires
        call_ensures(
            SpeedupEngine::cpfp_request,
            (engine, ctx, plan, Some(estimate)),
            Ok::<Option<(Vec<CoordinatedTx>, BuildRequest)>, BitcoinCoordinatorError>(
                Some((batch, request)),
            ),
        ),
        old(ctx).fee_manager.settings.min_safe_fee_rate <= estimate
            <= old(ctx).fee_manager.settings.max_feerate_sat_vb,
        forall|j: int| 0 <= j < batch@.len() ==> (#[trigger] batch@[j])@.kind is NeedsSpeedup,
        0 <= i < batch@.len(),
    ensures
        request.fee_rate == estimate,
        request.bump_fee == old(ctx).fee_manager.settings.base_fee_multiplier,
        request.rbf_inputs is None,
        request.parents@.len() == batch@.len(),
        batch@[i]@.kind matches TxKindView::NeedsSpeedup(data) && request.parents@[i].data == data,
        request.parents@[i].vsize == batch@[i]@.tx.vsize(),
        final(ctx).storage@ == old(ctx).storage@,
{
    law_estimate_is_used_within_bounds(old(ctx).fee_manager.settings, estimate);
    let all = views(batch@);
    assert forall|j: int| 0 <= j < all.len() implies (#[trigger] all[j]).kind is NeedsSpeedup by {
        assert(batch@[j]@.kind is NeedsSpeedup);
    }
    lemma_all_are_entries(all);
    assert(all[i] == batch@[i]@);
}

/// A call of `begin_build` for a replacement starts from the inputs that it inherits, and claims nothing.
pub proof fn law_replacement_starts_from_its_inheritance(
    engine: &SpeedupEngine,
    ctx: &mut EngineContext,
    request: BuildRequest,
    inputs: Vec<Utxo>,
    r: Result<Option<SpeedupBuild>, BitcoinCoordinatorError>,
)
    requires
        call_ensures(SpeedupEngine::begin_build, (engine, ctx, request), r),
        request.rbf_inputs == Some(inputs),
        inputs@.len() > 0,
        parent_vbytes(request.parents@) <= u64::MAX,
    ensures
        r matches Ok(Some(build)) && build.funding_inputs@ == inputs@ && build.inherited == inputs@.len()
            && build.is_rbf && build.parents@ == request.parents@ && build.fee_rate == request.fee_rate
            && build.chain_diff_fee == request.chain_diff_fee && build.bump_fee == request.bump_fee,
        final(ctx).storage@ == old(ctx).storage@,
{
}

/// For any other speedup it claims the change of the last free speedup.
pub proof fn law_speedup_starts_from_free_change(
    engine: &SpeedupEngine,
    ctx: &mut EngineContext,
    request: BuildRequest,
    r: Result<Option<SpeedupBuild>, BitcoinCoordinatorError>,
    i: int,
)
    requires
        call_ensures(SpeedupEngine::begin_build, (engine, ctx, request), r),
        request.rbf_inputs is None,
        parent_vbytes(request.parents@) <= u64::MAX,
        ({
            let all = old(ctx).storage@.speedup_records();
            &&& forall|j: int| 0 <= j < all.len() ==> (#[trigger] all[j]).kind is Speedup
            &&& is_free_at(all, i)
            &&& forall|j: int| i < j < all.len() ==> !#[trigger] is_free_at(all, j)
            &&& all[i].tx.output.len() > 0
            &&& context_of(all[i]).funding_inputs.len() > 0
        }),
    ensures
        ({
            let tip = old(ctx).storage@.speedup_records()[i];
            let vout = (tip.tx.output.len() - 1) as u32;
            &&& r matches Ok(Some(build)) && build.funding_inputs@ == seq![
                Utxo {
                    txid: tip.txid,
                    vout,
                    amount: tip.tx.output.last().value,
                    pub_key: context_of(tip).funding_inputs[0].pub_key,
                },
            ] && build.inherited == 0 && !build.is_rbf && build.primary_is_speedup && build.parents@
                == request.parents@ && build.fee_rate == request.fee_rate && build.chain_diff_fee
                == request.chain_diff_fee && build.bump_fee == request.bump_fee
            &&& final(ctx).storage@ == old(ctx).storage@.mark_output(tip.txid, vout, true)
        }),
{
    let store = old(ctx).storage@;
    law_free_change_is_offered(store.speedup_records(), store, i);
}

/// When everything is claimed it builds nothing, and tells the client that there is no funding.
pub proof fn law_missing_funding_is_reported(
    engine: &SpeedupEngine,
    ctx: &mut EngineContext,
    request: BuildRequest,
    r: Result<Option<SpeedupBuild>, BitcoinCoordinatorError>,
)
    requires
        call_ensures(SpeedupEngine::begin_build, (engine, ctx, request), r),
        request.rbf_inputs is None,
        parent_vbytes(request.parents@) <= u64::MAX,
        ({
            let all = old(ctx).storage@.speedup_records();
            let queue = old(ctx).storage@.funding_records();
            &&& forall|j: int| 0 <= j < all.len() ==> (#[trigger] all[j]).kind is Speedup
            &&& forall|j: int| 0 <= j < all.len() ==> !#[trigger] is_free_at(all, j)
            &&& forall|j: int| 0 <= j < queue.len() ==> is_claimed_entry(#[trigger] queue[j])
        }),
    ensures
        r matches Ok(None),
        final(ctx).storage@ == old(ctx).storage@.report(CoordinatorNewsView::FundingNotAvailable),
{
    let store = old(ctx).storage@;
    law_no_funding_when_all_is_claimed(store.speedup_records(), store);
}

/// A call of `save_boost` leaves the boost on record as it was built, waiting to be dispatched, and asks the
/// monitor to follow it. A fee that was cut is news, and puts a replaced predecessor at the maximal rate.
pub proof fn law_boost_is_saved(
    engine: &SpeedupEngine,
    ctx: &mut EngineContext,
    plan: &BoostPlan,
    build: &SpeedupBuild,
    tx: Transaction,
    fee: u64,
    capped: bool,
    height: BlockHeight,
    request: MonitorRequest,
)
    requires
        call_ensures(
            SpeedupEngine::save_boost,
            (engine, ctx, plan, build, tx, fee, capped, height),
            Ok::<MonitorRequest, BitcoinCoordinatorError>(request),
        ),
        old(ctx).storage@.is_keyed(),
        build.wf(),
        plan.last@.txid != tx_id(tx@),
    ensures
        ({
            let before = old(ctx).storage@;
            let after = final(ctx).storage@;
            let last = plan.last@.txid;
            let record = after.txs[tx_id(tx@)];
            &&& capped && plan.use_rbf && before.txs.contains_key(last)
                ==> after.txs[last].fee_info.package_fee_rate
                == old(ctx).fee_manager.settings.max_feerate_sat_vb
            &&& !(capped && plan.use_rbf) ==> after.txs.get(last) == before.txs.get(last)
            &&& !capped ==> after.news == before.news
            &&& after.txs.contains_key(tx_id(tx@))
            &&& is_new_speedup(record, tx@, *build, fee, height)
            &&& plan.use_rbf <==> (record.kind matches TxKindView::Speedup(
                SpeedupKindView::RBF { replaces, .. },
            ) && replaces == plan.last@.txid)
            &&& after.speedups.contains(tx_id(tx@))
            &&& request@ matches MonitorRequestView::Watch { txids, search_in_mempool, .. } && txids == seq![
                tx_id(tx@),
            ] && !search_in_mempool
        }),
{
    law_saved_boost_holds_its_build(
        old(ctx).storage@,
        *plan,
        *build,
        tx@,
        fee,
        capped,
        height,
        old(ctx).fee_manager.settings.max_feerate_sat_vb,
    );
    law_saving_a_boost_is_local(
        old(ctx).storage@,
        *plan,
        *build,
        tx@,
        fee,
        capped,
        height,
        old(ctx).fee_manager.settings.max_feerate_sat_vb,
        plan.last@.txid,
    );
}

/// A call of `save_cpfp` does the same for a CPFP, which covers every transaction of its batch; none of them
/// waits for a CPFP any more, and the others still do.
pub proof fn law_cpfp_is_saved(
    engine: &SpeedupEngine,
    ctx: &mut EngineContext,
    batch: &[CoordinatedTx],
    build: &SpeedupBuild,
    tx: Transaction,
    fee: u64,
    capped: bool,
    height: BlockHeight,
    request: MonitorRequest,
    i: int,
    other: Txid,
)
    requires
        call_ensures(
            SpeedupEngine::save_cpfp,
            (engine, ctx, batch, build, tx, fee, capped, height),
            Ok::<MonitorRequest, BitcoinCoordinatorError>(request),
        ),
        build.wf(),
        0 <= i < batch@.len(),
        other != tx_id(tx@),
        forall|k: int| 0 <= k < batch@.len() ==> (#[trigger] batch@[k])@.txid != other,
    ensures
        ({
            let after = final(ctx).storage@;
            let record = after.txs[tx_id(tx@)];
            &&& after.txs.contains_key(tx_id(tx@))
            &&& is_new_speedup(record, tx@, *build, fee, height)
            &&& record.kind matches TxKindView::Speedup(SpeedupKindView::CPFP { parents, .. })
                && parents.len() == batch@.len() && parents[i] == batch@[i]@.txid
            &&& after.speedups.contains(tx_id(tx@))
            &&& !after.pending.contains(batch@[i]@.txid)
            &&& after.pending.contains(other) <==> old(ctx).storage@.pending.contains(other)
            &&& after.txs.get(other) == old(ctx).storage@.txs.get(other)
        }),
{
    let store = old(ctx).storage@;
    let all = views(batch@);
    assert(all[i] == batch@[i]@);
    law_saved_cpfp_holds_its_build(store, all, *build, tx@, fee, capped, height, i);
    law_saving_a_cpfp_is_local(store, all, *build, tx@, fee, capped, height, other);
    let ids = Seq::new(all.len(), |k: int| all[k].txid);
    let keep = |x: Txid| !ids.contains(x);
    lemma_filter_members(store.pending, keep);
    assert(ids[i] == batch@[i]@.txid);
    assert(ids.contains(batch@[i]@.txid));
    assert(!ids.contains(other)) by {
        if ids.contains(other) {
            let k = choose|k: int| 0 <= k < ids.len() && ids[k] == other;
            assert(batch@[k]@.txid != other);
        }
    }
}

// Reviews

/// What becomes of the record of a transaction under review, by what the monitor says of it.
pub open spec fn followed_up(
    tx: CoordinatedTxView,
    status: TxStatus,
    height: BlockHeight,
    max_confirmations: u32,
) -> CoordinatedTxView {
    if status.in_mempool && tx.state is Confirmed {
        CoordinatedTxView {
            state: TransactionState::InMempool,
            broadcast_block_height: Some(height),
            ..tx
        }
    } else if status.in_mempool {
        tx
    } else if status.not_found {
        CoordinatedTxView {
            state: TransactionState::ToDispatch,
            fail_guard_until: Some(
                match tx.fail_guard_until {
                    Some(armed) => armed,
                    None => (height + max_confirmations) as u32,
                },
            ),
            ..tx
        }
    } else if status.finalized {
        CoordinatedTxView {
            state: TransactionState::Finalized,
            settled_block_height: Some(height),
            ..tx
        }
    } else if status.confirmed {
        CoordinatedTxView { state: TransactionState::Confirmed, ..tx }
    } else if status.orphan {
        CoordinatedTxView { state: TransactionState::InMempool, ..tx }
    } else {
        tx
    }
}

proof fn lemma_review_follows_up(
    store: StoreView,
    txs: Seq<CoordinatedTxView>,
    statuses: Seq<TxStatus>,
    height: BlockHeight,
    max_confirmations: u32,
    i: int,
)
    requires
        store.is_keyed(),
        statuses.len() <= txs.len(),
        forall|a: int, b: int|
            0 <= a < b < txs.len() ==> (#[trigger] txs[a]).txid != (#[trigger] txs[b]).txid,
        0 <= i < txs.len(),
        store.txs.contains_key(txs[i].txid),
        store.txs[txs[i].txid] == txs[i],
        txs[i].state is InMempool || txs[i].state is Confirmed,
    ensures
        ({
            let after = store.review_transactions(txs, statuses, height, max_confirmations);
            &&& after.is_keyed()
            &&& after.txs.contains_key(txs[i].txid)
            &&& after.txs[txs[i].txid] == if i < statuses.len() {
                followed_up(txs[i], statuses[i], height, max_confirmations)
            } else {
                txs[i]
            }
        }),
    decreases statuses.len(),
{
    if statuses.len() > 0 {
        let rest = statuses.drop_last();
        lemma_review_follows_up(store, txs, rest, height, max_confirmations, i);
        let before = store.review_transactions(txs, rest, height, max_confirmations);
        let n = statuses.len() - 1;
        let after = store.review_transactions(txs, statuses, height, max_confirmations);
        assert(after == before.review_transaction(txs[n], statuses[n], height, max_confirmations));
        if n < i {
            assert(txs[n].txid != txs[i].txid);
        }
        if i < n {
            assert(txs[i].txid != txs[n].txid);
            assert(rest[i] == statuses[i]);
        }
    }
}

/// A call of `review_transactions` moves each transaction along by its own status, and by nothing else: back to
/// the mempool, back to the queue, on to the chain or to its end.
pub proof fn law_each_transaction_follows_its_status(
    engine: &TransactionEngine,
    ctx: &mut EngineContext,
    txs: &[CoordinatedTx],
    statuses: &[TxStatus],
    height: BlockHeight,
    i: int,
)
    requires
        call_ensures(
            TransactionEngine::review_transactions,
            (engine, ctx, txs, statuses, height),
            (),
        ),
        old(ctx).storage@.is_keyed(),
        statuses@.len() <= txs@.len(),
        forall|a: int, b: int|
            0 <= a < b < txs@.len() ==> (#[trigger] txs@[a]).txid != (#[trigger] txs@[b]).txid,
        0 <= i < statuses@.len(),
        old(ctx).storage@.txs.contains_key(txs@[i].txid),
        old(ctx).storage@.txs[txs@[i].txid] == txs@[i]@,
        txs@[i].state is InMempool || txs@[i].state is Confirmed,
    ensures
        final(ctx).storage@.txs.contains_key(txs@[i].txid),
        final(ctx).storage@.txs[txs@[i].txid] == followed_up(
            txs@[i]@,
            statuses@[i],
            height,
            old(ctx).max_monitoring_confirmations,
        ),
{
    let all = views(txs@);
    assert(all[i] == txs@[i]@);
    assert forall|a: int, b: int| 0 <= a < b < all.len() implies (#[trigger] all[a]).txid != (
    #[trigger] all[b]).txid by {
        assert(txs@[a].txid != txs@[b].txid);
    }
    lemma_review_follows_up(
        old(ctx).storage@,
        all,
        statuses@,
        height,
        old(ctx).max_monitoring_confirmations,
        i,
    );
}

proof fn lemma_speedup_review_follows_up(
    store: StoreView,
    in_flight: Seq<CoordinatedTxView>,
    all: Seq<CoordinatedTxView>,
    statuses: Seq<TxStatus>,
    height: BlockHeight,
    max_confirmations: u32,
    i: int,
)
    requires
        store.is_keyed(),
        statuses.len() <= in_flight.len(),
        forall|a: int, b: int|
            0 <= a < b < in_flight.len() ==> (#[trigger] in_flight[a]).txid != (#[trigger] in_flight[b]).txid,
        forall|k: int| 0 <= k < statuses.len() ==> !(#[trigger] statuses[k]).finalized,
        0 <= i < in_flight.len(),
        store.txs.contains_key(in_flight[i].txid),
        store.txs[in_flight[i].txid] == in_flight[i],
        in_flight[i].state is InMempool || in_flight[i].state is Confirmed,
    ensures
        ({
            let review = review_speedups(store, in_flight, all, statuses, height, max_confirmations);
            let tx = in_flight[i];
            let vanished = i < statuses.len() && statuses[i].not_found && !statuses[i].in_mempool
                && tx.has_live_replacement(all);
            &&& review.failure is None
            &&& review.cancels.len() == 0
            &&& review.store.is_keyed()
            &&& review.store.txs.contains_key(tx.txid)
            &&& review.store.txs[tx.txid] == if i < statuses.len() && !vanished {
                followed_up(tx, statuses[i], height, max_confirmations)
            } else {
                tx
            }
        }),
    decreases statuses.len(),
{
    if statuses.len() > 0 {
        let rest = statuses.drop_last();
        let n = statuses.len() - 1;
        assert forall|k: int| 0 <= k < rest.len() implies !(#[trigger] rest[k]).finalized by {
            assert(!statuses[k].finalized);
        }
        lemma_speedup_review_follows_up(store, in_flight, all, rest, height, max_confirmations, i);
        assert(statuses[n] == statuses.last());
        assert(!statuses[n].finalized);
        if n < i {
            assert(in_flight[n].txid != in_flight[i].txid);
        }
        if i < n {
            assert(in_flight[i].txid != in_flight[n].txid);
            assert(rest[i] == statuses[i]);
        }
    }
}

/// A call of `review_speedups` in which none is final moves each speedup along by its own status, like any
/// other transaction; only one that vanished while a replacement of it is live is left as it is.
pub proof fn law_each_speedup_follows_its_status(
    engine: &SpeedupEngine,
    ctx: &mut EngineContext,
    in_flight: &[CoordinatedTx],
    statuses: &[TxStatus],
    height: BlockHeight,
    r: ReviewOutcome,
    i: int,
)
    requires
        call_ensures(
            SpeedupEngine::review_speedups,
            (engine, ctx, in_flight, statuses, height),
            r,
        ),
        old(ctx).storage@.is_keyed(),
        statuses@.len() <= in_flight@.len(),
        forall|a: int, b: int|
            0 <= a < b < in_flight@.len() ==> (#[trigger] in_flight@[a]).txid != (
            #[trigger] in_flight@[b]).txid,
        forall|k: int| 0 <= k < statuses@.len() ==> !(#[trigger] statuses@[k]).finalized,
        0 <= i < statuses@.len(),
        old(ctx).storage@.txs.contains_key(in_flight@[i].txid),
        old(ctx).storage@.txs[in_flight@[i].txid] == in_flight@[i]@,
        in_flight@[i].state is InMempool || in_flight@[i].state is Confirmed,
    ensures
        ({
            let tx = in_flight@[i]@;
            let vanished = statuses@[i].not_found && !statuses@[i].in_mempool && tx.has_live_replacement(
                old(ctx).storage@.speedup_records(),
            );
            &&& r.error is None
            &&& r.requests@.len() == 0
            &&& final(ctx).storage@.txs.contains_key(tx.txid)
            &&& vanished ==> final(ctx).storage@.txs[tx.txid] == tx
            &&& !vanished ==> final(ctx).storage@.txs[tx.txid] == followed_up(
                tx,
                statuses@[i],
                height,
                old(ctx).max_monitoring_confirmations,
            )
        }),
{
    let flying = views(in_flight@);
    assert(flying[i] == in_flight@[i]@);
    assert forall|a: int, b: int| 0 <= a < b < flying.len() implies (#[trigger] flying[a]).txid != (
    #[trigger] flying[b]).txid by {
        assert(in_flight@[a].txid != in_flight@[b].txid);
    }
    lemma_speedup_review_follows_up(
        old(ctx).storage@,
        flying,
        old(ctx).storage@.speedup_records(),
        statuses@,
        height,
        old(ctx).max_monitoring_confirmations,
        i,
    );
    assert(views(r.requests@).len() == r.requests@.len());
}

// Outcomes

/// A call of `handle_dispatch_result` for a transaction that the node took, or has in its mempool, puts it
/// on record as such and has it followed, in the mempool too.
pub proof fn law_taken_transaction_is_on_record(
    ctx: &mut EngineContext,
    tx: &CoordinatedTx,
    outcome: DispatchOutcome,
    node: &NodeState,
    height: BlockHeight,
    fee_info: FeeInfo,
    r: Result<Option<MonitorRequest>, BitcoinCoordinatorError>,
)
    requires
        call_ensures(
            EngineContext::handle_dispatch_result,
            (ctx, tx, tx.txid, outcome, node, height, fee_info),
            r,
        ),
        outcome@ is Success || (outcome@ is DispatchError && node.confirmations == Some(0u32)),
        tx@.kind matches TxKindView::Speedup(SpeedupKindView::RBF { replaces, .. }) ==> (
        old(ctx).storage@.txs.contains_key(replaces) ==> old(ctx).storage@.txs[replaces].kind is Speedup),
    ensures
        ({
            let after = final(ctx).storage@;
            &&& after.txs.contains_key(tx.txid)
            &&& after.txs[tx.txid] == (CoordinatedTxView {
                state: TransactionState::InMempool,
                broadcast_block_height: Some(height),
                fail_guard_until: None,
                fee_info,
                ..tx@
            })
            &&& r matches Ok(Some(request)) && request@ == (MonitorRequestView::Watch {
                txids: seq![tx.txid],
                context: tx@.context,
                confirmation_trigger: tx@.confirmation_trigger,
                search_in_mempool: true,
            })
        }),
{
}

/// For one that the node refused, with all inputs intact and attempts left, or with its guard up, it counts
/// the attempt and queues the transaction again.
pub proof fn law_refused_transaction_is_tried_again(
    ctx: &mut EngineContext,
    tx: &CoordinatedTx,
    outcome: DispatchOutcome,
    node: &NodeState,
    height: BlockHeight,
    fee_info: FeeInfo,
    r: Result<Option<MonitorRequest>, BitcoinCoordinatorError>,
)
    requires
        call_ensures(
            EngineContext::handle_dispatch_result,
            (ctx, tx, tx.txid, outcome, node, height, fee_info),
            r,
        ),
        outcome@ is DispatchError,
        node.confirmations is None,
        ({
            let lost = lost_funding(tx@, node.gone@) || lost_input(tx@, node.gone@);
            let guarded = tx@.fail_guard_until matches Some(deadline) && height < deadline;
            &&& lost ==> guarded
            &&& !lost ==> tx.retry_count + 1 < old(ctx).coordinator_config.retry_attempts_sending_tx
        }),
        old(ctx).storage@.is_keyed(),
        old(ctx).storage@.txs.contains_key(tx.txid),
        old(ctx).storage@.txs[tx.txid] == tx@,
        tx@.state is ToDispatch,
        tx.retry_count < u32::MAX,
    ensures
        final(ctx).storage@ == old(ctx).storage@.put(
            CoordinatedTxView { retry_count: (tx.retry_count + 1) as u32, ..tx@ },
        ),
        r matches Ok(None),
{
    let message = outcome@->DispatchError_0;
    law_refusal_is_judged_by_the_node(
        tx@,
        message,
        *node,
        height,
        old(ctx).coordinator_config.retry_attempts_sending_tx,
    );
}

/// For one that can never be valid, or was refused with an input gone for good or its attempts used up, it
/// settles the failure and what depends on it.
pub proof fn law_hopeless_transaction_fails(
    ctx: &mut EngineContext,
    tx: &CoordinatedTx,
    outcome: DispatchOutcome,
    node: &NodeState,
    height: BlockHeight,
    fee_info: FeeInfo,
    r: Result<Option<MonitorRequest>, BitcoinCoordinatorError>,
)
    requires
        call_ensures(
            EngineContext::handle_dispatch_result,
            (ctx, tx, tx.txid, outcome, node, height, fee_info),
            r,
        ),
        ({
            let lost = lost_funding(tx@, node.gone@) || lost_input(tx@, node.gone@);
            let guarded = tx@.fail_guard_until matches Some(deadline) && height < deadline;
            let spent = tx.retry_count + 1 >= old(ctx).coordinator_config.retry_attempts_sending_tx;
            outcome@ is Fatal || outcome@ is ParentFailed || (outcome@ is DispatchError
                && node.confirmations is None && ((lost && !guarded) || (!lost && spent)))
        }),
    ensures
        ({
            let missing = outcome@ is ParentFailed || (outcome@ is DispatchError && lost_funding(
                tx@,
                node.gone@,
            ));
            final(ctx).storage@ == old(ctx).storage@.fail_and_cascade(tx@, height, missing)
        }),
        r matches Ok(None),
{
    if outcome@ is DispatchError {
        law_refusal_is_judged_by_the_node(
            tx@,
            outcome@->DispatchError_0,
            *node,
            height,
            old(ctx).coordinator_config.retry_attempts_sending_tx,
        );
    }
}

/// A transaction that the node took is recorded with the fee of its size at the rate of the batch.
pub proof fn law_taken_transaction_pays_the_rate(
    engine: &TransactionEngine,
    ctx: &mut EngineContext,
    txs: &[CoordinatedTx],
    txid: Txid,
    outcome: DispatchOutcome,
    node: &NodeState,
    fee_rate: u64,
    height: BlockHeight,
    r: Result<Option<MonitorRequest>, BitcoinCoordinatorError>,
    i: int,
)
    requires
        call_ensures(
            TransactionEngine::settle_dispatched,
            (engine, ctx, txs, txid, outcome, node, fee_rate, height),
            r,
        ),
        outcome@ is Success,
        0 <= i < txs@.len(),
        txs@[i].txid == txid,
        forall|j: int| 0 <= j < i ==> (#[trigger] txs@[j]).txid != txid,
        !(txs@[i]@.kind is Speedup),
        txs@[i]@.tx.vsize() * fee_rate <= u64::MAX,
    ensures
        ({
            let tx = txs@[i]@;
            &&& r is Ok
            &&& final(ctx).storage@.txs[txid] == (CoordinatedTxView {
                state: TransactionState::InMempool,
                broadcast_block_height: Some(height),
                fail_guard_until: None,
                fee_info: FeeInfo {
                    fee: (tx.tx.vsize() * fee_rate) as u64,
                    fee_rate,
                    package_fee_rate: fee_rate,
                    weight: tx_weight(tx.tx),
                },
                ..tx
            })
        }),
{
    let all = views(txs@);
    assert(all[i] == txs@[i]@);
    assert forall|j: int| 0 <= j < i implies (#[trigger] all[j]).txid != txid by {
        assert(txs@[j].txid != txid);
    }
    law_outcome_finds_its_transaction(all, txid, i);
}

/// A speedup that the node took keeps the fee that it was built with.
pub proof fn law_taken_speedup_keeps_its_fee(
    engine: &SpeedupEngine,
    ctx: &mut EngineContext,
    txs: &[CoordinatedTx],
    txid: Txid,
    outcome: DispatchOutcome,
    node: &NodeState,
    height: BlockHeight,
    r: Result<Option<MonitorRequest>, BitcoinCoordinatorError>,
    i: int,
)
    requires
        call_ensures(
            SpeedupEngine::settle_dispatched,
            (engine, ctx, txs, txid, outcome, node, height),
            r,
        ),
        outcome@ is Success,
        0 <= i < txs@.len(),
        txs@[i].txid == txid,
        forall|j: int| 0 <= j < i ==> (#[trigger] txs@[j]).txid != txid,
        txs@[i]@.kind matches TxKindView::Speedup(SpeedupKindView::CPFP { .. }),
    ensures
        r is Ok,
        final(ctx).storage@.txs[txid] == (CoordinatedTxView {
            state: TransactionState::InMempool,
            broadcast_block_height: Some(height),
            fail_guard_until: None,
            ..txs@[i]@
        }),
{
    let all = views(txs@);
    assert(all[i] == txs@[i]@);
    assert forall|j: int| 0 <= j < i implies (#[trigger] all[j]).txid != txid by {
        assert(txs@[j].txid != txid);
    }
    law_outcome_finds_its_transaction(all, txid, i);
}

// Sending

/// A call of `gate` sends the next transaction of the run exactly when every parent that was looked up is in
/// the mempool, confirmed or final; otherwise the run goes on without it.
pub proof fn law_gate_opens_for_reachable_parents(
    dispatcher: &Dispatcher,
    run: &mut DispatchRun,
    statuses: &[TxStatus],
    r: Option<Transaction>,
)
    requires
        call_ensures(Dispatcher::gate, (dispatcher, run, statuses), r),
    ensures
        ({
            let reachable = forall|j: int|
                0 <= j < statuses@.len() ==> (#[trigger] statuses@[j]).in_mempool || statuses@[j].confirmed
                    || statuses@[j].finalized;
            &&& reachable <==> r is Some
            &&& r matches Some(tx) ==> tx@ == old(run).queue@[old(run).next as int]@.tx && final(run).next
                == old(run).next
            &&& r is None ==> final(run).next == old(run).next + 1
            &&& final(run).queue == old(run).queue && final(run).results == old(run).results
        }),
{
    let reachable = forall|j: int|
        0 <= j < statuses@.len() ==> (#[trigger] statuses@[j]).in_mempool || statuses@[j].confirmed
            || statuses@[j].finalized;
    if reachable {
        law_reachable_parents_open_the_way(statuses@, 0);
    } else {
        let j = choose|j: int|
            0 <= j < statuses@.len() && !((#[trigger] statuses@[j]).in_mempool || statuses@[j].confirmed
                || statuses@[j].finalized);
        law_reachable_parents_open_the_way(statuses@, j);
    }
}

/// A call of `sent` records what the node said of the transaction that was sent, and moves on.
pub proof fn law_reply_is_recorded(
    dispatcher: &mut Dispatcher,
    run: &mut DispatchRun,
    reply: Result<(), String>,
    dust_limit: u64,
)
    requires
        call_ensures(Dispatcher::sent, (dispatcher, run, reply, dust_limit), ()),
    ensures
        ({
            let id = old(run).queue@[old(run).next as int].txid;
            let before = outcomes(old(run).results@);
            &&& final(run).next == old(run).next + 1
            &&& final(run).queue == old(run).queue
            &&& reply is Ok ==> outcomes(final(run).results@) == before.push(
                (id, DispatchOutcomeView::Success),
            )
            &&& reply matches Err(message) ==> outcomes(final(run).results@) == before.push(
                (id, DispatchOutcomeView::DispatchError(message@)),
            )
            &&& reply is Err ==> final(dispatcher).stats == old(dispatcher).stats
        }),
{
}

/// A call of `dispatch_pending` returns every transaction that is due, and no other.
pub proof fn law_due_transactions_are_returned(
    engine: &TransactionEngine,
    ctx: &EngineContext,
    height: BlockHeight,
    r: Vec<CoordinatedTx>,
    id: Txid,
)
    requires
        call_ensures(TransactionEngine::dispatch_pending, (engine, ctx, height), r),
        ctx.storage@.is_keyed(),
        ctx.storage@.txs.contains_key(id),
    ensures
        ({
            let tx = ctx.storage@.txs[id];
            views(r@).contains(tx) <==> tx.state is ToDispatch && height >= tx.target_block_height && !(
            tx.kind is Speedup)
        }),
{
    law_due_transactions_are_dispatched(views(r@), ctx.storage@.txs, height, id);
}

/// A call of `limit_retries` holds nothing back when the interval has passed, and only retries before that.
pub proof fn law_retries_are_held_back(
    ctx: &mut EngineContext,
    txs: Vec<CoordinatedTx>,
    now: u64,
    r: Vec<CoordinatedTx>,
)
    requires
        call_ensures(EngineContext::limit_retries, (ctx, txs, now), r),
        old(ctx).coordinator_config.retry_interval_seconds > 0,
    ensures
        ({
            let due = match old(ctx).last_retry_at {
                None => true,
                Some(last) => now >= last + old(ctx).coordinator_config.retry_interval_seconds,
            };
            &&& due ==> views(r@) == views(txs@)
            &&& !due ==> views(r@) == views(txs@).filter(|tx: CoordinatedTxView| tx.retry_count == 0)
            &&& !due ==> final(ctx).last_retry_at == old(ctx).last_retry_at
        }),
{
    law_retries_wait_for_the_interval(*old(ctx), *final(ctx), views(txs@), views(r@), now);
}

/// A call of `dispatch_batch` sends every transaction of the batch that can be valid and was never tried
/// before, whatever the time; an estimate is used as it is within the bounds.
pub proof fn law_first_attempts_are_sent(
    engine: &TransactionEngine,
    ctx: &mut EngineContext,
    txs: Vec<CoordinatedTx>,
    estimate: u64,
    now: u64,
    r: (Vec<CoordinatedTx>, DispatchRun, u64),
    i: int,
)
    requires
        call_ensures(TransactionEngine::dispatch_batch, (engine, ctx, txs, Some(estimate), now), r),
        old(ctx).fee_manager.settings.min_safe_fee_rate <= estimate
            <= old(ctx).fee_manager.settings.max_feerate_sat_vb,
        0 <= i < txs@.len(),
        txs@[i].retry_count == 0 || old(ctx).last_retry_at is None,
        txs@[i]@.tx.input.len() > 0,
        tx_weight(txs@[i]@.tx) <= old(ctx).dispatcher.settings.max_tx_weight,
    ensures
        views(r.0@).contains(txs@[i]@),
        views(r.1.queue@).contains(txs@[i]@),
        r.1.next == 0,
        r.2 == estimate,
        final(ctx).storage@ == old(ctx).storage@,
{
    let all = views(txs@);
    let max = old(ctx).dispatcher.settings.max_tx_weight;
    law_estimate_is_used_within_bounds(old(ctx).fee_manager.settings, estimate);
    assert(all[i] == txs@[i]@);
    assert(all.contains(all[i]));
    lemma_filter_members(all, is_first_attempt());
    lemma_filter_members(views(r.0@), is_sendable(max));
    law_valid_transactions_are_sent(txs@[i]@, max);
}

/// A call of `dispatch_pending_speedups` sends every listed speedup, CPFP or RBF, that waits to be dispatched,
/// can be valid, was never tried before and spends from nothing that has failed.
pub proof fn law_waiting_speedups_are_sent(
    engine: &SpeedupEngine,
    ctx: &mut EngineContext,
    now: u64,
    r: (Vec<CoordinatedTx>, DispatchRun),
    i: int,
)
    requires
        call_ensures(SpeedupEngine::dispatch_pending_speedups, (engine, ctx, now), r),
        ({
            let store = old(ctx).storage@;
            let all = store.speedup_records();
            &&& 0 <= i < all.len()
            &&& all[i].state is ToDispatch
            &&& all[i].retry_count == 0 || old(ctx).last_retry_at is None
            &&& all[i].tx.input.len() > 0
            &&& tx_weight(all[i].tx) <= old(ctx).dispatcher.settings.max_tx_weight
            &&& forall|k: int|
                0 <= k < all[i].tx.input.len() ==> !(store.txs.contains_key(
                    (#[trigger] all[i].tx.input[k]).previous_output.txid,
                ) && store.txs[all[i].tx.input[k].previous_output.txid].state is Failed)
        }),
    ensures
        ({
            let tx = old(ctx).storage@.speedup_records()[i];
            &&& views(r.0@).contains(tx)
            &&& views(r.1.queue@).contains(tx)
            &&& r.1.next == 0
            &&& final(ctx).storage == old(ctx).storage
        }),
{
    let store = old(ctx).storage@;
    let all = store.speedup_records();
    let tx = all[i];
    let max = old(ctx).dispatcher.settings.max_tx_weight;
    assert(all.contains(tx));
    lemma_filter_members(all, waits());
    let pending = all.filter(waits());
    lemma_filter_members(pending, is_first_attempt());
    let intact = views(r.0@).filter(store.has_intact_parents());
    lemma_filter_members(views(r.0@), store.has_intact_parents());
    lemma_filter_members(intact, is_sendable(max));
    assert(views(r.0@).contains(tx));
    assert(store.has_intact_parents()(tx));
    law_valid_transactions_are_sent(tx, max);
}

/// A call of `tracked_parents` returns each transaction that an input spends from and that is on record as
/// anything but a funding UTXO, and no other.
pub proof fn law_parents_on_record_are_looked_up(
    dispatcher: &Dispatcher,
    tx: &CoordinatedTx,
    storage: &CoordinatorStorage,
    r: Vec<Txid>,
    id: Txid,
)
    requires
        call_ensures(Dispatcher::tracked_parents::<CoordinatorStorage>, (dispatcher, tx, storage), r),
    ensures
        r@.contains(id) <==> storage@.txs.contains_key(id) && !(storage@.txs[id].kind is Funding)
            && exists|i: int|
            0 <= i < tx@.tx.input.len() && (#[trigger] tx@.tx.input[i]).previous_output.txid == id,
{
    law_tracked_parents_are_looked_up(*storage, tx@, 0, id);
    if exists|i: int|
        0 <= i < tx@.tx.input.len() && (#[trigger] tx@.tx.input[i]).previous_output.txid == id {
        let i = choose|i: int|
            0 <= i < tx@.tx.input.len() && (#[trigger] tx@.tx.input[i]).previous_output.txid == id;
        law_tracked_parents_are_looked_up(*storage, tx@, i, id);
    }
}

// Fees

/// A call of `get_network_fee_rate` uses the estimate as it is within the bounds.
pub proof fn law_estimate_is_taken_over(
    manager: &FeeManager,
    estimate: u64,
    r: (u64, Option<CoordinatorNews>),
)
    requires
        call_ensures(FeeManager::get_network_fee_rate, (manager, Some(estimate)), r),
        manager.settings.min_safe_fee_rate <= estimate <= manager.settings.max_feerate_sat_vb,
    ensures
        r.0 == estimate,
        r.1 is None,
{
    law_estimate_is_used_within_bounds(manager.settings, estimate);
}

/// A call of `cap_speedup_fee` cuts a fee to what makes the package pay the maximal rate.
pub proof fn law_fee_is_cut_to_the_maximal_rate(
    manager: &FeeManager,
    fee: u64,
    parent_vbytes: u64,
    child_vsize: u64,
    r: (u64, bool),
)
    requires
        call_ensures(FeeManager::cap_speedup_fee, (manager, fee, parent_vbytes, child_vsize), r),
        manager.settings.max_feerate_sat_vb >= 1,
    ensures
        ({
            let package = (parent_vbytes + child_vsize) * manager.settings.max_feerate_sat_vb;
            &&& r.1 <==> fee + parent_vbytes > package
            &&& r.1 ==> r.0 + parent_vbytes == package
            &&& !r.1 ==> r.0 == fee
        }),
{
    law_cap_leaves_the_maximal_package(
        fee,
        manager.settings.max_feerate_sat_vb,
        parent_vbytes,
        child_vsize,
    );
}

/// A call of `speedup_fee_before_bump` for a CPFP of parents whose outputs are not credited makes the package
/// pay the fee rate, with the 1 sat/vB of the parents; a speedup that is bumped above the base multiplier
/// pays for the size of its chain besides.
pub proof fn law_bumped_fee_adds_an_incentive(
    manager: &FeeManager,
    entries: &[(u64, u64)],
    child_vsize: u64,
    bump: Multiplier,
    fee_rate: u64,
    chain_diff_fee: u64,
    chain_vsize: u64,
    fee: u64,
)
    requires
        call_ensures(
            FeeManager::speedup_fee_before_bump,
            (manager, entries, child_vsize, bump, fee_rate, false, chain_diff_fee, chain_vsize),
            Some(fee),
        ),
        total_amount(entries@) == 0,
        fee_rate >= 1,
        bump.bits <= 0x7FF0_0000_0000_0000,
        manager.settings.base_fee_multiplier.bits <= 0x7FF0_0000_0000_0000,
    ensures
        fee + total_vsize(entries@) == (total_vsize(entries@) + child_vsize) * fee_rate + chain_diff_fee
            + if bump.bits > manager.settings.base_fee_multiplier.bits {
            chain_vsize as int
        } else {
            0
        },
{
    law_multipliers_are_ordered_by_their_bits(bump, manager.settings.base_fee_multiplier);
    let incentive = if bump.greater_than(manager.settings.base_fee_multiplier) {
        chain_vsize as int
    } else {
        0
    };
    law_fee_is_what_the_package_lacks(
        entries@,
        child_vsize,
        fee_rate,
        false,
        chain_diff_fee,
        incentive,
    );
    let all = total_vsize(entries@) + child_vsize;
    lemma_totals_are_positive(entries@);
    assert(all * fee_rate >= all) by (nonlinear_arith)
        requires
            all >= 0,
            fee_rate >= 1,
    ;
}

/// A call of `chain_fee_diff` returns what lifts the whole chain from the rate of its last link to the new
/// one, and the size of the chain.
pub proof fn law_chain_is_lifted_as_a_whole(
    manager: &FeeManager,
    new_fee_rate: u64,
    chain: &[CoordinatedTx],
    r: (u64, u64),
)
    requires
        call_ensures(FeeManager::chain_fee_diff, (manager, new_fee_rate, chain), r),
        chain@.len() > 0,
        new_fee_rate >= chain@.last().fee_info.fee_rate,
    ensures
        r.1 == chain_vsize(views(chain@)),
        r.1 * chain@.last().fee_info.fee_rate + r.0 == r.1 * new_fee_rate,
{
    let all = views(chain@);
    assert(all.last() == chain@.last()@);
    law_shortfall_lifts_the_whole_chain(new_fee_rate, all);
}

/// A call of `boost_fee_rate` outbids the predecessor by the least that also pays the network rate.
pub proof fn law_boost_fee_rate_outbids(network: u64, predecessor: u64, r: u64)
    requires
        call_ensures(FeeManager::boost_fee_rate, (network, predecessor), r),
        predecessor < u64::MAX,
    ensures
        r > predecessor,
        r >= network,
        r == network || r == predecessor + 1,
{
}

// Records

/// A call of `evict_stale_txs` removes every record that was settled for long enough and is not needed, and
/// no other.
pub proof fn law_eviction_removes_the_old(
    storage: &mut CoordinatorStorage,
    height: BlockHeight,
    id: Txid,
    settled: BlockHeight,
)
    requires
        call_ensures(CoordinatorStorage::evict_stale_txs, (storage, height), ()),
        old(storage)@.txs.contains_key(id),
        old(storage)@.txs[id].settled_block_height == Some(settled),
        old(storage).max_tracking() > 0,
    ensures
        ({
            let store = old(storage)@;
            let tx = store.txs[id];
            let needed = store.funding.contains(FundingEntry::Record(id)) || (tx.kind is NeedsSpeedup && (
            store.pending.contains(id) || is_still_covered(store, id)));
            let old_enough = (tx.state is Finalized || tx.state is Failed) && height >= settled
                + old(storage).max_tracking();
            &&& old_enough && !needed ==> !final(storage)@.txs.contains_key(id)
            &&& !old_enough || needed ==> final(storage)@.txs.contains_key(id) && final(storage)@.txs[id]
                == tx
        }),
{
    let store = old(storage)@;
    let tracking = old(storage).max_tracking();
    let tx = store.txs[id];
    let needed = store.funding.contains(FundingEntry::Record(id)) || (tx.kind is NeedsSpeedup && (
    store.pending.contains(id) || is_still_covered(store, id)));
    let old_enough = (tx.state is Finalized || tx.state is Failed) && height >= settled + tracking;
    if old_enough && !needed {
        law_settled_records_are_evicted(store, id, height, tracking, settled);
    } else if store.evictable(height, tracking).contains(id) {
        law_only_old_records_are_evicted(store, id, height, tracking);
    }
}

/// A call of `get_pending_speedup_parents` returns every parent that waits for a CPFP and was broadcast, and
/// drops from the list only those that are gone or have failed.
pub proof fn law_broadcast_parents_are_returned(
    storage: &mut CoordinatorStorage,
    r: Vec<CoordinatedTx>,
    id: Txid,
)
    requires
        call_ensures(CoordinatorStorage::get_pending_speedup_parents, (storage,), r),
        old(storage)@.pending.contains(id),
        old(storage)@.txs.contains_key(id),
    ensures
        ({
            let tx = old(storage)@.txs[id];
            &&& tx.state is InMempool || tx.state is Confirmed || tx.state is Finalized ==> views(
                r@,
            ).contains(tx)
            &&& final(storage)@.pending.contains(id) <==> !(tx.state is Failed)
            &&& final(storage)@.txs == old(storage)@.txs
        }),
{
    let store = old(storage)@;
    lemma_filter_members(store.pending, store.is_not_dead());
    lemma_filter_map_members(store.pending, store.broadcast_parent());
    let k = choose|k: int| 0 <= k < store.pending.len() && store.pending[k] == id;
    let tx = store.txs[id];
    if tx.state is InMempool || tx.state is Confirmed || tx.state is Finalized {
        assert(store.broadcast_parent()(store.pending[k]) == Some(tx));
    }
}

/// A call of `searches_mempool` holds exactly for what was broadcast, and one of `has_funding` exactly when the
/// queue stands for anything.
pub proof fn law_what_is_looked_for<S: FundingStorage>(
    engine: &TransactionEngine,
    tx: &CoordinatedTx,
    searched: bool,
    manager: &FundingManager,
    storage: &S,
    funded: bool,
)
    requires
        call_ensures(TransactionEngine::searches_mempool, (engine, tx), searched),
        call_ensures(FundingManager::has_funding::<S>, (manager, storage), funded),
    ensures
        searched <==> tx.broadcast_block_height is Some,
        funded <==> storage.store().funding_records().len() > 0,
{
}

/// A call of `add_news` stores news that is not known yet, last, and nothing else.
pub proof fn law_unknown_news_is_added(
    storage: &mut CoordinatorStorage,
    news: CoordinatorNews,
    r: bool,
)
    requires
        call_ensures(CoordinatorStorage::add_news, (storage, news), r),
    ensures
        ({
            let before = old(storage)@;
            let known = exists|i: int|
                0 <= i < before.news.len() && (#[trigger] before.news[i]).news == news@;
            &&& r <==> !known
            &&& known ==> final(storage)@ == before
            &&& !known ==> final(storage)@ == (StoreView {
                news: before.news.push(
                    NewsItemView { news: news@, acked_at_block: None, shown_at_block: None },
                ),
                ..before
            })
        }),
{
}

// Single records

/// A call of `can_transition_to` allows every step between states that are not terminal, every step from the
/// queue or the mempool, and the step from the chain to final; a state may always be kept.
pub proof fn law_allowed_steps(from: &TransactionState, next: &TransactionState, r: bool)
    requires
        call_ensures(TransactionState::can_transition_to, (from, next), r),
    ensures
        r <==> *from == *next || *from is ToDispatch || *from is InMempool || (*from is Confirmed && !(
        *next is Failed)),
{
}

/// A call of `get_funding_info` returns the UTXO of a funding record, or the change of a speedup of either
/// kind, with its claim mark; other records offer nothing.
pub proof fn law_funding_of_a_record(
    tx: &CoordinatedTx,
    r: Result<(Utxo, bool), BitcoinCoordinatorError>,
)
    requires
        call_ensures(CoordinatedTx::get_funding_info, (tx,), r),
    ensures
        match tx@.kind {
            TxKindView::Funding(data) => r matches Ok(info) && info.0 == data.utxo && info.1 == data.spent,
            TxKindView::Speedup(_) => {
                let context = context_of(tx@);
                if tx@.tx.output.len() > 0 && context.funding_inputs.len() > 0 {
                    r matches Ok(info) && info.0 == (Utxo {
                        txid: tx.txid,
                        vout: (tx@.tx.output.len() - 1) as u32,
                        amount: tx@.tx.output.last().value,
                        pub_key: context.funding_inputs[0].pub_key,
                    }) && info.1 == context.spent
                } else {
                    r is Err
                }
            },
            _ => r is Err,
        },
{
}

/// A call of `is_ready_to_dispatch` holds from the target height on, and one of `is_stuck_in_mempool` from as
/// many blocks after the broadcast as the limit says.
pub proof fn law_heights_decide(
    tx: &CoordinatedTx,
    height: BlockHeight,
    ready: bool,
    stuck: bool,
)
    requires
        call_ensures(CoordinatedTx::is_ready_to_dispatch, (tx, height), ready),
        call_ensures(CoordinatedTx::is_stuck_in_mempool, (tx, height), stuck),
    ensures
        ready <==> height >= tx.target_block_height,
        stuck <==> (tx.stuck_in_mempool_blocks matches Some(limit)
            && tx.broadcast_block_height matches Some(broadcast) && (limit == 0 || height >= broadcast
            + limit)),
{
}

/// A call of `has_live_replacement` holds exactly when the speedup is marked as replaced or an RBF of it on
/// the list has not failed.
pub proof fn law_replacement_is_noticed(tx: &CoordinatedTx, all: &[CoordinatedTx], r: bool)
    requires
        call_ensures(CoordinatedTx::has_live_replacement, (tx, all), r),
        tx@.kind is Speedup,
    ensures
        r <==> context_of(tx@).replaced_by is Some || exists|i: int|
            0 <= i < all@.len() && !((#[trigger] all@[i])@.state is Failed) && (
            all@[i]@.kind matches TxKindView::Speedup(SpeedupKindView::RBF { replaces, .. }) && replaces
                == tx.txid),
{
    let listed = views(all@);
    if r && context_of(tx@).replaced_by is None {
        let i = choose|i: int|
            0 <= i < listed.len() && !((#[trigger] listed[i]).state is Failed) && listed[i].is_rbf_of(
                tx.txid,
            );
        assert(listed[i] == all@[i]@);
    }
    if exists|i: int|
        0 <= i < all@.len() && !((#[trigger] all@[i])@.state is Failed) && (
        all@[i]@.kind matches TxKindView::Speedup(SpeedupKindView::RBF { replaces, .. }) && replaces
            == tx.txid) {
        let i = choose|i: int|
            0 <= i < all@.len() && !((#[trigger] all@[i])@.state is Failed) && (
            all@[i]@.kind matches TxKindView::Speedup(SpeedupKindView::RBF { replaces, .. }) && replaces
                == tx.txid);
        assert(listed[i].is_rbf_of(tx.txid) && !(listed[i].state is Failed));
    }
}

/// A call of `is_speedup_derived` holds exactly when the outpoint belongs to a speedup on record.
pub proof fn law_speedup_outputs_are_recognised(storage: &CoordinatorStorage, outpoint: &OutPoint, r: bool)
    requires
        call_ensures(CoordinatorStorage::is_speedup_derived, (storage, outpoint), r),
    ensures
        r <==> storage@.txs.contains_key(outpoint.txid) && storage@.txs[outpoint.txid].kind is Speedup,
{
}

/// A call of `verify_single_dispatch_result` accepts exactly one outcome, for the expected transaction.
pub proof fn law_single_outcome_is_expected(
    expected: Txid,
    results: Vec<(Txid, DispatchOutcome)>,
    r: Result<(Txid, DispatchOutcome), BitcoinCoordinatorError>,
)
    requires
        call_ensures(verify_single_dispatch_result, (expected, results), r),
    ensures
        r is Ok <==> results@.len() == 1 && results@[0].0 == expected,
        r matches Ok(entry) ==> entry == results@[0],
{
}

// The client

/// A call of `get_news` returns the coordinator's news that is neither acknowledged nor shown at this block,
/// and all of the monitor's news that is not about the coordinator's own speedups.
pub proof fn law_news_reaches_the_client(
    coordinator: &mut BitcoinCoordinator,
    monitor_news: Vec<MonitorNews>,
    height: BlockHeight,
    r: News,
    i: int,
    k: int,
)
    requires
        call_ensures(BitcoinCoordinator::get_news, (coordinator, monitor_news, height), r),
        0 <= i < old(coordinator).ctx.storage@.news.len(),
        0 <= k < monitor_news@.len(),
    ensures
        ({
            let item = old(coordinator).ctx.storage@.news[i];
            let now = final(coordinator).ctx.storage@.news;
            &&& item.acked_at_block is None && item.shown_at_block != Some(height) ==> views(
                r.coordinator_news@,
            ).contains(item.news) && now[i].shown_at_block == Some(height)
            &&& now.len() == old(coordinator).ctx.storage@.news.len()
            &&& now[i].news == item.news && now[i].acked_at_block == item.acked_at_block
            &&& monitor_news@[k]@.transaction_context is None ==> views(r.monitor_news@).contains(
                monitor_news@[k]@,
            )
            &&& final(coordinator).ctx.storage@ == (StoreView {
                news: now,
                ..old(coordinator).ctx.storage@
            })
        }),
{
    let items = old(coordinator).ctx.storage@.news;
    lemma_filter_map_members(items, due_item(height));
    if items[i].acked_at_block is None && items[i].shown_at_block != Some(height) {
        assert(due_item(height)(items[i]) == Some(items[i].news));
    }
    let all = views(monitor_news@);
    lemma_filter_members(all, is_for_client());
    assert(all[k] == monitor_news@[k]@);
    assert(all.contains(all[k]));
}

/// A call of `ack_news` hands an item of the monitor back, untouched, and keeps one of the coordinator.
pub proof fn law_monitor_news_is_handed_back(
    coordinator: &mut BitcoinCoordinator,
    news: AckNews,
    height: BlockHeight,
    r: Option<u64>,
)
    requires
        call_ensures(BitcoinCoordinator::ack_news, (coordinator, news, height), r),
    ensures
        news matches AckNews::Monitor(index) ==> r == Some(index) && final(coordinator).ctx.storage@
            == old(coordinator).ctx.storage@,
        news matches AckNews::Coordinator(item) ==> r is None && final(coordinator).ctx.storage@ == old(
            coordinator,
        ).ctx.storage@.acknowledge(item@, height),
{
}

/// A call of `tick` runs nothing while the monitor is not synced, and otherwise all the steps, in this order.
pub proof fn law_tick_runs_when_ready(coordinator: &BitcoinCoordinator, ready: bool, r: Vec<TickStep>)
    requires
        call_ensures(BitcoinCoordinator::tick, (coordinator, ready), r),
    ensures
        !ready ==> r@.len() == 0,
        ready ==> r@ == seq![
            TickStep::CleanupNews,
            TickStep::ReviewTransactions,
            TickStep::ReviewSpeedups,
            TickStep::DispatchTransactions,
            TickStep::DispatchSpeedups,
            TickStep::Boost,
            TickStep::CreateCpfp,
        ],
{
}

/// A call of `new_with_paths` succeeds exactly when every setting is within its limits and the node has a
/// transaction index; the coordinator then works with these settings, on the storage that it was given.
pub proof fn law_valid_settings_make_a_coordinator(
    settings: BitcoinSettings,
    txindex: bool,
    storage: CoordinatorStorage,
    confirmations: u32,
    r: Result<BitcoinCoordinator, BitcoinCoordinatorError>,
)
    requires
        call_ensures(
            BitcoinCoordinator::new_with_paths,
            (Some(settings), txindex, storage, confirmations),
            r,
        ),
    ensures
        r is Ok <==> txindex && {
            &&& 1 <= settings.speedup.max_unconfirmed_speedups <= 25
            &&& 1 <= settings.dispatcher.max_tx_weight <= 400_000
            &&& 1 <= settings.speedup.max_rbf_attempts <= 20
            &&& 10_000 <= settings.funding.min_funding_amount_sats
            &&& 0x3FF0_0000_0000_0000 <= settings.speedup.rbf_fee_multiplier.bits <= 0x4008_0000_0000_0000
            &&& 1 <= settings.speedup.min_blocks_before_resend_speedup <= 3
            &&& 1 <= settings.fee.max_feerate_sat_vb <= 1000
            &&& 1 <= settings.fee.base_fee_multiplier.bits <= 0x4059_0000_0000_0000
            &&& 0x3FF0_0000_0000_0000 <= settings.speedup.bump_fee_percentage.bits
                <= 0x4059_0000_0000_0000
            &&& 1 <= settings.coordinator.retry_interval_seconds <= 300
            &&& 1 <= settings.fee.min_safe_fee_rate <= settings.fee.max_feerate_sat_vb
        },
        r matches Ok(c) ==> c.ctx.storage == storage && c.ctx.fee_manager.settings == settings.fee
            && c.ctx.funding_manager.settings == settings.funding && c.ctx.dispatcher.settings
            == settings.dispatcher && c.ctx.coordinator_config == settings.coordinator
            && c.speedup_engine.settings == settings.speedup && c.ctx.max_monitoring_confirmations
            == confirmations,
{
    law_settings_within_limits_are_valid(settings);
}

/// A call of `commit_registration` stores the record as it is and nothing else; one that needs a speedup waits
/// for a CPFP from then on.
pub proof fn law_committed_registration_is_stored(
    coordinator: &mut BitcoinCoordinator,
    record: CoordinatedTx,
    other: Txid,
)
    requires
        call_ensures(BitcoinCoordinator::commit_registration, (coordinator, record), ()),
        other != record.txid,
    ensures
        ({
            let before = old(coordinator).ctx.storage@;
            let after = final(coordinator).ctx.storage@;
            &&& after.txs.contains_key(record.txid) && after.txs[record.txid] == record@
            &&& after.txs.get(other) == before.txs.get(other)
            &&& record@.kind is NeedsSpeedup ==> after.pending.contains(record.txid)
            &&& !(record@.kind is NeedsSpeedup) ==> after.pending == before.pending
            &&& before.pending.contains(other) ==> after.pending.contains(other)
            &&& after.news == before.news
        }),
{
    let before = old(coordinator).ctx.storage@;
    let after = final(coordinator).ctx.storage@;
    law_registering_is_local(before, record@, other);
    if record@.kind is NeedsSpeedup && !before.pending.contains(record.txid) {
        assert(after.pending[before.pending.len() as int] == record.txid);
    }
    if before.pending.contains(other) {
        let k = choose|k: int| 0 <= k < before.pending.len() && before.pending[k] == other;
        assert(after.pending[k] == other);
    }
}

/// A call of `commit_cancel` removes each transaction that it is given.
pub proof fn law_committed_cancel_removes(
    coordinator: &mut BitcoinCoordinator,
    txids: &[Txid],
    id: Txid,
)
    requires
        call_ensures(BitcoinCoordinator::commit_cancel, (coordinator, txids), ()),
    ensures
        txids@.contains(id) ==> !final(coordinator).ctx.storage@.txs.contains_key(id),
        !txids@.contains(id) ==> final(coordinator).ctx.storage@.txs.get(id) == old(
            coordinator,
        ).ctx.storage@.txs.get(id),
        final(coordinator).ctx.storage@.pending == old(coordinator).ctx.storage@.pending,
{
    lemma_remove_each(old(coordinator).ctx.storage@, txids@);
    let after = final(coordinator).ctx.storage@.txs;
    assert(after.get(id) == if txids@.contains(id) {
        None
    } else {
        old(coordinator).ctx.storage@.txs.get(id)
    });
}

} // verus!
