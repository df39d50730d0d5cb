use crate::boost_laws::{
    are_places, is_live_at, law_boost_replaces_when_slots_run_out,
    law_cpfp_is_built_for_a_broadcast_parent, law_stale_speedups_are_boosted,
    lemma_filter_is_places, lemma_live_at,
};
use crate::client_laws::{
    is_undispatched, law_cancel_grants_the_undispatched, law_granted_cancels_are_silent,
    law_unlisting_keeps_the_others_in_order,
};
use crate::coordinator::BitcoinCoordinator;
use crate::dispatcher::{
    counted, dust_of, is_sendable, label_of, outcomes, rejected, sum_count, sum_dust, sum_vbytes,
    tally, BroadcastStats, DispatchOutcome, Dispatcher,
};
use crate::engine_context::EngineContext;
use crate::errors::BitcoinCoordinatorError;
use crate::funding::{release, FundingManager, FundingStorage};
use crate::lemmas::{lemma_filter_all, lemma_filter_map_members, lemma_filter_members};
use crate::model::StoreView;
use crate::offer_laws::{
    context_of, is_claimed_entry, is_free_at, law_first_unclaimed_utxo_is_combined,
    law_free_change_is_offered, law_no_funding_when_all_is_claimed, law_queue_pays_in_order,
};
use crate::pricing_laws::{
    law_cap_leaves_the_maximal_package, law_child_pays_for_all_its_parents,
    law_one_more_parent_raises_the_price, law_price_is_found_where_it_fits,
    law_replacement_pays_for_all_its_parents,
};
use crate::primitives::{tx_id, tx_weight, views, BlockHeight, Transaction, Txid};
use crate::speedup_builder::{BoostPlan, BuildStep, CpfpPlan, SpeedupBuild};
use crate::speedup_engine::SpeedupEngine;
use crate::speedup_model::{is_live, parent_vbytes, total_funding, ParentEntry};
use crate::types::{
    CoordinatedTx, CoordinatedTxView, CoordinatorNewsView, MonitorRequest, MonitorRequestView,
    SpeedupData, TxKindView, Utxo,
};
use vstd::prelude::*;

verus! {

// Pricing

/// What a call of `price_build` returns for a CPFP makes the whole package pay the fee rate: all of the
/// parents, with the 1 sat/vB that they paid themselves, and the child, at its measured size; on top comes
/// what the chain lacks. There is no price only where that does not fit in 64 bits.
pub proof fn law_priced_cpfp_pays_for_the_package(
    engine: &SpeedupEngine,
    ctx: &EngineContext,
    build: &mut SpeedupBuild,
    measured: u64,
    r: Result<u64, BitcoinCoordinatorError>,
)
    requires
        call_ensures(SpeedupEngine::price_build, (engine, ctx, build, measured), r),
        old(build).wf(),
        !old(build).is_rbf,
        old(build).fee_rate >= 1,
    ensures
        ({
            let child = if old(build).child_vsize == 0 {
                measured
            } else {
                old(build).child_vsize
            };
            let size = parent_vbytes(old(build).parents@);
            let package = (size + child) * old(build).fee_rate + old(build).chain_diff_fee;
            &&& r matches Ok(fee) ==> fee + size == package
            &&& r is Err ==> package > u64::MAX
            &&& *final(build) == (SpeedupBuild { child_vsize: child, ..*old(build) })
        }),
{
    law_child_pays_for_all_its_parents(*final(build));
    if r is Err && (parent_vbytes(final(build).parents@) + final(build).child_vsize)
        * final(build).fee_rate + final(build).chain_diff_fee <= u64::MAX {
        law_price_is_found_where_it_fits(*final(build));
    }
}

/// For a replacement it is the same, or twice the cost of the replacement itself when that is more.
pub proof fn law_priced_replacement_pays_for_the_package(
    engine: &SpeedupEngine,
    ctx: &EngineContext,
    build: &mut SpeedupBuild,
    measured: u64,
    fee: u64,
)
    requires
        call_ensures(
            SpeedupEngine::price_build,
            (engine, ctx, build, measured),
            Ok::<u64, BitcoinCoordinatorError>(fee),
        ),
        old(build).wf(),
        old(build).is_rbf,
        old(build).fee_rate >= 1,
    ensures
        ({
            let child = if old(build).child_vsize == 0 {
                measured
            } else {
                old(build).child_vsize
            };
            let size = parent_vbytes(old(build).parents@);
            let package = (size + child) * old(build).fee_rate - size;
            let twice = child * old(build).fee_rate * 2;
            &&& fee >= package + old(build).chain_diff_fee
            &&& fee >= twice + old(build).chain_diff_fee
            &&& fee == package + old(build).chain_diff_fee || fee == twice + old(build).chain_diff_fee
        }),
{
    law_replacement_pays_for_all_its_parents(*final(build));
}

/// Two calls of `price_build` for the same CPFP, one with another parent at the end, differ by the size of
/// that parent at the fee rate, less the 1 sat/vB that it paid itself.
pub proof fn law_priced_parent_raises_the_fee(
    engine: &SpeedupEngine,
    ctx: &EngineContext,
    build: &mut SpeedupBuild,
    larger: &mut SpeedupBuild,
    measured: u64,
    more: ParentEntry,
    fee: u64,
    more_fee: u64,
)
    requires
        call_ensures(
            SpeedupEngine::price_build,
            (engine, ctx, build, measured),
            Ok::<u64, BitcoinCoordinatorError>(fee),
        ),
        call_ensures(
            SpeedupEngine::price_build,
            (engine, ctx, larger, measured),
            Ok::<u64, BitcoinCoordinatorError>(more_fee),
        ),
        old(build).wf() && old(larger).wf(),
        !old(build).is_rbf && !old(larger).is_rbf,
        old(build).fee_rate >= 1,
        old(larger).parents@ == old(build).parents@.push(more),
        old(larger).child_vsize == old(build).child_vsize,
        old(larger).fee_rate == old(build).fee_rate,
        old(larger).chain_diff_fee == old(build).chain_diff_fee,
    ensures
        more_fee == fee + more.vsize * (old(build).fee_rate - 1),
{
    law_one_more_parent_raises_the_price(*final(build), *final(larger), more);
}

// Building

/// A build is signed as soon as its inputs pay the fee and leave at least the dust limit, whatever the
/// fee; it is neither changed by that nor is the store.
pub proof fn law_paid_build_is_signed(
    engine: &SpeedupEngine,
    ctx: &mut EngineContext,
    build: &mut SpeedupBuild,
    bumped_fee: u64,
    dust_limit: u64,
    r: BuildStep,
)
    requires
        call_ensures(SpeedupEngine::advance_build, (engine, ctx, build, bumped_fee, dust_limit), r),
        old(build).wf(),
        old(ctx).fee_manager.settings.max_feerate_sat_vb >= 1,
    ensures
        ({
            let package = (old(build).parent_vbytes + old(build).child_vsize)
                * old(ctx).fee_manager.settings.max_feerate_sat_vb;
            let cut = bumped_fee + old(build).parent_vbytes > package;
            let fee = if cut {
                package - old(build).parent_vbytes
            } else {
                bumped_fee as int
            };
            let held = total_funding(old(build).funding_inputs@);
            let pays = held >= fee + dust_limit || (dust_limit == 0 && held <= fee);
            &&& pays <==> r is Sign
            &&& r matches BuildStep::Sign { fee: paid, capped } ==> paid == fee && capped == cut
                && *final(build) == *old(build) && final(ctx).storage@ == old(ctx).storage@
        }),
{
    law_cap_leaves_the_maximal_package(
        bumped_fee,
        old(ctx).fee_manager.settings.max_feerate_sat_vb,
        old(build).parent_vbytes,
        old(build).child_vsize,
    );
}

/// A build that cannot pay gets a second input whenever there is one for it: its only input comes from a
/// speedup and the queue holds an unclaimed funding UTXO, which is then claimed. Otherwise it is given up
/// and what it claimed is released.
pub proof fn law_unpaid_build_combines_or_gives_up(
    engine: &SpeedupEngine,
    ctx: &mut EngineContext,
    build: &mut SpeedupBuild,
    bumped_fee: u64,
    dust_limit: u64,
    r: BuildStep,
    i: int,
)
    requires
        call_ensures(SpeedupEngine::advance_build, (engine, ctx, build, bumped_fee, dust_limit), r),
        old(build).wf(),
        !(r is Sign),
        0 <= i <= old(ctx).storage@.funding_records().len(),
        forall|j: int|
            0 <= j < i ==> ((
            #[trigger] old(ctx).storage@.funding_records()[j]).kind matches TxKindView::Funding(data)
                ==> data.spent),
        i < old(ctx).storage@.funding_records().len() ==> (
        old(ctx).storage@.funding_records()[i].kind matches TxKindView::Funding(data) && !data.spent),
    ensures
        ({
            let store = old(ctx).storage@;
            let spare = old(build).funding_inputs@.len() == 1 && old(build).primary_is_speedup && i
                < store.funding_records().len();
            let utxo = store.funding_records()[i].kind->Funding_0.utxo;
            &&& spare ==> r is Measure && final(build).funding_inputs@ == old(
                build,
            ).funding_inputs@.push(utxo) && final(build).child_vsize == 0 && final(ctx).storage@
                == store.mark_output(store.funding_records()[i].txid, utxo.vout, true)
            &&& !spare ==> r is GiveUp && *final(build) == *old(build)
        }),
{
    law_first_unclaimed_utxo_is_combined(old(ctx).storage@, i);
}

/// A build that is given up releases what it claimed itself, and only that, and tells the client what it had
/// and what it needed: the fee, cut to the maximal rate, and the dust limit.
pub proof fn law_abandoned_build_says_what_it_lacked(
    engine: &SpeedupEngine,
    ctx: &mut EngineContext,
    build: &mut SpeedupBuild,
    bumped_fee: u64,
    dust_limit: u64,
)
    requires
        call_ensures(
            SpeedupEngine::advance_build,
            (engine, ctx, build, bumped_fee, dust_limit),
            BuildStep::GiveUp,
        ),
        old(build).wf(),
        old(ctx).fee_manager.settings.max_feerate_sat_vb >= 1,
    ensures
        ({
            let package = (old(build).parent_vbytes + old(build).child_vsize)
                * old(ctx).fee_manager.settings.max_feerate_sat_vb;
            let fee = if bumped_fee + old(build).parent_vbytes > package {
                package - old(build).parent_vbytes
            } else {
                bumped_fee as int
            };
            let own = old(build).funding_inputs@.skip(old(build).inherited as int);
            final(ctx).storage@ == release(old(ctx).storage@, own).report(
                CoordinatorNewsView::InsufficientFunds {
                    available: total_funding(old(build).funding_inputs@) as u64,
                    required: (fee + dust_limit) as u64,
                },
            )
        }),
{
    law_cap_leaves_the_maximal_package(
        bumped_fee,
        old(ctx).fee_manager.settings.max_feerate_sat_vb,
        old(build).parent_vbytes,
        old(build).child_vsize,
    );
}

/// A speedup is done when the signed transaction is no larger than what was priced; a larger one is priced
/// again at its size.
pub proof fn law_larger_transaction_is_priced_again(
    engine: &SpeedupEngine,
    build: &mut SpeedupBuild,
    final_vsize: u64,
    r: bool,
)
    requires
        call_ensures(SpeedupEngine::finish_build, (engine, build, final_vsize), r),
    ensures
        r <==> final_vsize <= old(build).child_vsize,
        r ==> *final(build) == *old(build),
        !r ==> *final(build) == (SpeedupBuild { child_vsize: final_vsize, ..*old(build) }),
{
}

// Boosting

/// A call of `boost_if_stale` boosts the last live speedup, CPFP or RBF, when no boost failed in this tick,
/// no speedup waits to be dispatched, and that one is as old as the settings ask and below the maximal rate.
/// The boost has to lift all live speedups, and replaces that one exactly when they use up the slots.
pub proof fn law_stale_speedup_gets_its_boost(
    engine: &SpeedupEngine,
    ctx: &EngineContext,
    height: BlockHeight,
    r: Option<BoostPlan>,
    broadcast: BlockHeight,
    places: Seq<int>,
)
    requires
        call_ensures(SpeedupEngine::boost_if_stale, (engine, ctx, height, false), r),
        ({
            let all = ctx.storage@.speedup_records();
            &&& are_places(places, all.len())
            &&& places.len() > 0
            &&& forall|i: int| #[trigger] is_live_at(all, i) <==> places.contains(i)
            &&& forall|j: int| 0 <= j < all.len() ==> !((#[trigger] all[j]).state is ToDispatch)
            &&& all[places.last()].kind is Speedup
            &&& all[places.last()].broadcast_block_height == Some(broadcast)
            &&& height >= broadcast + engine.settings.min_blocks_before_resend_speedup
            &&& all[places.last()].fee_info.package_fee_rate
                < ctx.fee_manager.settings.max_feerate_sat_vb
        }),
    ensures
        ({
            let all = ctx.storage@.speedup_records();
            &&& r matches Some(plan) && plan.last@ == all[places.last()] && views(plan.unconfirmed@)
                == Seq::new(places.len(), |k: int| all[places[k]]) && (plan.use_rbf <==> places.len()
                >= engine.settings.max_unconfirmed_speedups)
        }),
{
    let all = ctx.storage@.speedup_records();
    let i = places.last();
    assert(places[places.len() - 1] == i);
    assert(places.contains(i));
    assert forall|j: int| i < j < all.len() implies !#[trigger] is_live_at(all, j) by {
        if is_live_at(all, j) {
            let k = choose|k: int| 0 <= k < places.len() && places[k] == j;
            if k < places.len() - 1 {
                assert(places[k] < places[places.len() - 1]);
            }
        }
    }
    law_stale_speedups_are_boosted(
        all,
        i,
        height,
        engine.settings,
        ctx.fee_manager.settings,
        broadcast,
    );
    assert forall|k: int| 0 <= k < places.len() implies is_live_at(all, #[trigger] places[k]) by {
        assert(places.contains(places[k]));
    }
    law_boost_replaces_when_slots_run_out(all, engine.settings, places);
    lemma_live_places(all, places);
}

proof fn lemma_live_places(all: Seq<CoordinatedTxView>, places: Seq<int>)
    requires
        are_places(places, all.len()),
        forall|i: int| #[trigger] is_live_at(all, i) <==> places.contains(i),
    ensures
        all.filter(is_live(all)) == Seq::new(places.len(), |k: int| all[places[k]]),
{
    assert forall|i: int| 0 <= i < all.len() implies (is_live(all)(#[trigger] all[i]) <==> places.contains(
        i,
    )) by {
        lemma_live_at(all, i);
        assert(is_live_at(all, i) <==> places.contains(i));
    }
    lemma_filter_is_places(all, is_live(all), places);
}

/// Nothing is boosted in a tick in which a boost failed.
pub proof fn law_failed_boost_waits_for_the_next_tick(
    engine: &SpeedupEngine,
    ctx: &EngineContext,
    height: BlockHeight,
    r: Option<BoostPlan>,
)
    requires
        call_ensures(SpeedupEngine::boost_if_stale, (engine, ctx, height, true), r),
    ensures
        r is None,
{
}

/// A call of `create_cpfp_batch` plans a CPFP when a parent that waits for one was broadcast, no speedup
/// waits to be dispatched and the live speedups leave a slot. The plan holds every such parent, and all
/// live speedups.
pub proof fn law_broadcast_parent_gets_its_cpfp(
    engine: &SpeedupEngine,
    ctx: &mut EngineContext,
    r: Option<CpfpPlan>,
    id: Txid,
    places: Seq<int>,
)
    requires
        call_ensures(SpeedupEngine::create_cpfp_batch, (engine, ctx), r),
        ({
            let store = old(ctx).storage@;
            let all = store.speedup_records();
            &&& store.pending.contains(id)
            &&& store.txs.contains_key(id)
            &&& store.txs[id].state is InMempool || store.txs[id].state is Confirmed
                || store.txs[id].state is Finalized
            &&& forall|j: int| 0 <= j < all.len() ==> !((#[trigger] all[j]).state is ToDispatch)
            &&& are_places(places, all.len())
            &&& forall|i: int| #[trigger] is_live_at(all, i) <==> places.contains(i)
            &&& places.len() < engine.settings.max_unconfirmed_speedups
        }),
    ensures
        ({
            let all = old(ctx).storage@.speedup_records();
            r matches Some(plan) && views(plan.parents@).contains(old(ctx).storage@.txs[id]) && views(
                plan.unconfirmed@,
            ) == Seq::new(places.len(), |k: int| all[places[k]])
        }),
{
    let store = old(ctx).storage@;
    let all = store.speedup_records();
    assert forall|k: int| 0 <= k < places.len() implies is_live_at(all, #[trigger] places[k]) by {
        assert(places.contains(places[k]));
    }
    assert forall|i: int| is_live_at(all, i) implies #[trigger] places.contains(i) by {}
    law_cpfp_is_built_for_a_broadcast_parent(store, engine.settings, id, places);
    lemma_live_places(all, places);
}

// Funding

/// A call of `get_funding` hands out the change of the last free speedup, CPFP or RBF, and claims it: its
/// last output, under the key of its first input.
pub proof fn law_free_change_is_handed_out<S: FundingStorage>(
    manager: &FundingManager,
    storage: &mut S,
    speedups: &[CoordinatedTx],
    r: Result<Option<(Utxo, bool)>, BitcoinCoordinatorError>,
    i: int,
)
    requires
        call_ensures(FundingManager::get_funding::<S>, (manager, storage, speedups), r),
        ({
            let all = views(speedups@);
            &&& forall|j: int| 0 <= j < all.len() ==> (#[trigger] all[j]).kind is Speedup
            &&& is_free_at(all, i)
            &&& forall|j: int| i < j < all.len() ==> !#[trigger] is_free_at(all, j)
            &&& all[i].tx.output.len() > 0
            &&& context_of(all[i]).funding_inputs.len() > 0
        }),
    ensures
        ({
            let tip = speedups@[i]@;
            let vout = (tip.tx.output.len() - 1) as u32;
            &&& r matches Ok(Some((utxo, from_speedup))) && from_speedup && utxo == (Utxo {
                txid: tip.txid,
                vout,
                amount: tip.tx.output.last().value,
                pub_key: context_of(tip).funding_inputs[0].pub_key,
            })
            &&& final(storage).store() == old(storage).store().mark_output(tip.txid, vout, true)
        }),
{
    let all = views(speedups@);
    law_free_change_is_offered(all, old(storage).store(), i);
    assert(all[i] == speedups@[i]@);
}

/// Without free change it hands out the first unclaimed funding UTXO of the queue, and claims it.
pub proof fn law_first_unclaimed_utxo_is_handed_out<S: FundingStorage>(
    manager: &FundingManager,
    storage: &mut S,
    speedups: &[CoordinatedTx],
    r: Result<Option<(Utxo, bool)>, BitcoinCoordinatorError>,
    i: int,
    utxo: Utxo,
)
    requires
        call_ensures(FundingManager::get_funding::<S>, (manager, storage, speedups), r),
        ({
            let all = views(speedups@);
            let queue = old(storage).store().funding_records();
            &&& forall|j: int| 0 <= j < all.len() ==> (#[trigger] all[j]).kind is Speedup
            &&& forall|j: int| 0 <= j < all.len() ==> !#[trigger] is_free_at(all, j)
            &&& 0 <= i < queue.len()
            &&& forall|j: int| 0 <= j < i ==> is_claimed_entry(#[trigger] queue[j])
            &&& queue[i].kind matches TxKindView::Funding(data) && !data.spent && data.utxo == utxo
        }),
    ensures
        r matches Ok(Some((output, from_speedup))) && output == utxo && !from_speedup,
        final(storage).store() == old(storage).store().mark_output(
            old(storage).store().funding_records()[i].txid,
            utxo.vout,
            true,
        ),
{
    law_queue_pays_in_order(views(speedups@), old(storage).store(), i);
}

/// It hands out nothing, and claims nothing, only when everything is claimed.
pub proof fn law_nothing_is_handed_out_when_all_is_claimed<S: FundingStorage>(
    manager: &FundingManager,
    storage: &mut S,
    speedups: &[CoordinatedTx],
    r: Result<Option<(Utxo, bool)>, BitcoinCoordinatorError>,
)
    requires
        call_ensures(FundingManager::get_funding::<S>, (manager, storage, speedups), r),
        ({
            let all = views(speedups@);
            let queue = old(storage).store().funding_records();
            &&& forall|j: int| 0 <= j < all.len() ==> (#[trigger] all[j]).kind is Speedup
            &&& forall|j: int| 0 <= j < all.len() ==> !#[trigger] is_free_at(all, j)
            &&& forall|j: int| 0 <= j < queue.len() ==> is_claimed_entry(#[trigger] queue[j])
        }),
    ensures
        r matches Ok(None),
        final(storage).store() == old(storage).store(),
{
    law_no_funding_when_all_is_claimed(views(speedups@), old(storage).store());
}

/// A call of `get_combine_funding` hands out the first unclaimed funding UTXO of the queue, and claims it; it
/// hands out nothing only when there is none.
pub proof fn law_second_input_is_handed_out<S: FundingStorage>(
    manager: &FundingManager,
    storage: &mut S,
    r: Option<Utxo>,
    i: int,
)
    requires
        call_ensures(FundingManager::get_combine_funding::<S>, (manager, storage), r),
        ({
            let queue = old(storage).store().funding_records();
            &&& 0 <= i <= queue.len()
            &&& forall|j: int|
                0 <= j < i ==> ((#[trigger] queue[j]).kind matches TxKindView::Funding(data) ==> data.spent)
            &&& i < queue.len() ==> (queue[i].kind matches TxKindView::Funding(data) && !data.spent)
        }),
    ensures
        ({
            let queue = old(storage).store().funding_records();
            &&& i < queue.len() ==> r == Some(queue[i].kind->Funding_0.utxo) && final(storage).store()
                == old(storage).store().mark_output(
                queue[i].txid,
                queue[i].kind->Funding_0.utxo.vout,
                true,
            )
            &&& i == queue.len() ==> r is None && final(storage).store() == old(storage).store()
        }),
{
    law_first_unclaimed_utxo_is_combined(old(storage).store(), i);
}

/// A funding UTXO of at least the minimal amount is queued, and only a smaller one is refused, with news of
/// both amounts.
pub proof fn law_sufficient_funding_is_queued(
    coordinator: &mut BitcoinCoordinator,
    utxo: Utxo,
)
    requires
        call_ensures(BitcoinCoordinator::add_funding, (coordinator, utxo), ()),
    ensures
        ({
            let least = old(coordinator).ctx.funding_manager.settings.min_funding_amount_sats;
            let store = old(coordinator).ctx.storage@;
            &&& utxo.amount >= least ==> final(coordinator).ctx.storage@ == store.append_funding(utxo)
            &&& utxo.amount < least ==> final(coordinator).ctx.storage@ == store.report(
                CoordinatorNewsView::InvalidFundingUtxo { amount: utxo.amount, min_required: least },
            )
        }),
{
}

// Sending

/// A call of `validate` lets every transaction through that has an input and is within the weight limit, and
/// gives every other one a fatal outcome.
pub proof fn law_validation_lets_the_valid_through(
    dispatcher: &Dispatcher,
    txs: Vec<CoordinatedTx>,
    r: (Vec<CoordinatedTx>, Vec<(Txid, DispatchOutcome)>),
    i: int,
)
    requires
        call_ensures(Dispatcher::validate, (dispatcher, txs), r),
        0 <= i < txs@.len(),
    ensures
        ({
            let tx = txs@[i]@;
            let valid = tx.tx.input.len() > 0 && tx_weight(tx.tx) <= dispatcher.settings.max_tx_weight;
            &&& valid <==> views(r.0@).contains(tx)
            &&& !valid ==> exists|k: int|
                0 <= k < r.1@.len() && (#[trigger] r.1@[k]).0 == tx.txid && r.1@[k].1@ is Fatal
            &&& (forall|j: int|
                0 <= j < txs@.len() ==> (#[trigger] txs@[j])@.tx.input.len() > 0 && tx_weight(txs@[j]@.tx)
                    <= dispatcher.settings.max_tx_weight) ==> r.1@.len() == 0 && views(r.0@) == views(txs@)
        }),
{
    let all = views(txs@);
    let max = dispatcher.settings.max_tx_weight;
    let sendable = is_sendable(max);
    let reject = rejected(max);
    lemma_filter_members(all, sendable);
    lemma_filter_map_members(all, reject);
    assert(all[i] == txs@[i]@);
    assert(all.contains(all[i]));
    if !sendable(all[i]) {
        let outcome = reject(all[i])->0;
        assert(outcomes(r.1@).contains(outcome));
        let k = choose|k: int| 0 <= k < outcomes(r.1@).len() && outcomes(r.1@)[k] == outcome;
        assert(r.1@[k].0 == txs@[i]@.txid);
    }
    if forall|j: int|
        0 <= j < txs@.len() ==> (#[trigger] txs@[j])@.tx.input.len() > 0 && tx_weight(txs@[j]@.tx)
            <= dispatcher.settings.max_tx_weight {
        assert forall|j: int| 0 <= j < all.len() implies sendable(#[trigger] all[j]) by {
            assert(txs@[j]@.tx.input.len() > 0);
        }
        lemma_filter_all(all, sendable);
        if r.1@.len() > 0 {
            assert(outcomes(r.1@).contains(outcomes(r.1@)[0]));
            let k = choose|k: int| 0 <= k < all.len() && reject(#[trigger] all[k]) == Some(outcomes(r.1@)[0]);
            assert(sendable(all[k]));
        }
    }
}

// Cancelling

/// A call of `cancel_transactions` grants the request for every transaction that it names and that was not
/// dispatched: it is handed back for removal, the monitor is asked to stop following it, and it waits for
/// no CPFP any more. When everything is granted, nobody is told.
pub proof fn law_undispatched_transactions_are_cancelled(
    coordinator: &mut BitcoinCoordinator,
    txids: &[Txid],
    context: String,
    trigger: Option<u32>,
    r: Option<(Vec<Txid>, MonitorRequest)>,
    id: Txid,
)
    requires
        call_ensures(BitcoinCoordinator::cancel_transactions, (coordinator, txids, context, trigger), r),
        txids@.contains(id),
        is_undispatched(old(coordinator).ctx.storage@, id),
    ensures
        ({
            let store = old(coordinator).ctx.storage@;
            let after = final(coordinator).ctx.storage@;
            &&& r matches Some((ids, request)) && ids@.contains(id) && ids@ == txids@.filter(
                |x: Txid| is_undispatched(store, x),
            ) && request@ == (MonitorRequestView::Cancel {
                txids: ids@,
                context: context@,
                confirmation_trigger: trigger,
            })
            &&& !after.pending.contains(id)
            &&& after.txs == store.txs
            &&& (forall|i: int| 0 <= i < txids@.len() ==> is_undispatched(store, #[trigger] txids@[i]))
                ==> after.news == store.news
        }),
{
    let store = old(coordinator).ctx.storage@;
    law_cancel_grants_the_undispatched(store, txids@);
    let granted = txids@.filter(store.is_cancellable());
    lemma_filter_members(txids@, store.is_cancellable());
    assert(granted.contains(id));
    let reported = store.report_refusals(txids@);
    law_unlisting_keeps_the_others_in_order(reported, granted);
    lemma_filter_members(reported.pending, |x: Txid| !granted.contains(x));
    lemma_refusals_keep_records(store, txids@);
    if forall|i: int| 0 <= i < txids@.len() ==> is_undispatched(store, #[trigger] txids@[i]) {
        law_granted_cancels_are_silent(store, txids@);
    }
}

proof fn lemma_refusals_keep_records(store: StoreView, ids: Seq<Txid>)
    ensures
        store.report_refusals(ids).txs == store.txs,
    decreases ids.len(),
{
    if ids.len() > 0 {
        lemma_refusals_keep_records(store, ids.drop_last());
    }
}

// Registering

/// A call of `dispatch_without_speedup` for a transaction that is not on record prepares a record of it that
/// waits for its target height, or for nothing when there is none, with all that was asked.
pub proof fn law_registered_transaction_holds_what_was_asked(
    coordinator: &BitcoinCoordinator,
    tx: Transaction,
    context: String,
    target: Option<u32>,
    trigger: Option<u32>,
    stuck: Option<u32>,
    height: BlockHeight,
    estimate: u64,
    r: Result<Option<(MonitorRequest, CoordinatedTx)>, BitcoinCoordinatorError>,
)
    requires
        call_ensures(
            BitcoinCoordinator::dispatch_without_speedup,
            (coordinator, tx, context, target, trigger, stuck, height, Some(estimate)),
            r,
        ),
        coordinator.ctx.fee_manager.settings.min_safe_fee_rate <= estimate
            <= coordinator.ctx.fee_manager.settings.max_feerate_sat_vb,
        !coordinator.ctx.storage@.txs.contains_key(tx_id(tx@)),
        tx@.vsize() * estimate <= u64::MAX,
    ensures
        r matches Ok(Some((request, record))) && {
            &&& record@.txid == tx_id(tx@)
            &&& record@.tx == tx@
            &&& record@.kind is Normal
            &&& record@.state is ToDispatch
            &&& record@.target_block_height == match target {
                Some(wanted) => wanted,
                None => height,
            }
            &&& record@.confirmation_trigger == trigger
            &&& record@.stuck_in_mempool_blocks == stuck
            &&& record@.context == context@
            &&& record@.fee_info.fee_rate == estimate
            &&& record@.fee_info.fee == tx@.vsize() * estimate
            &&& request@ == (MonitorRequestView::Watch {
                txids: seq![tx_id(tx@)],
                context: context@,
                confirmation_trigger: trigger,
                search_in_mempool: false,
            })
        },
{
    assert(tx@.vsize() * estimate >= 0) by (nonlinear_arith)
        requires
            tx@.vsize() >= 0,
            estimate >= 0,
    ;
}

/// A call of `dispatch_with_speedup` does the same for a transaction that is kept moving with speedups; it is
/// never reported as stuck.
pub proof fn law_sped_up_transaction_holds_what_was_asked(
    coordinator: &BitcoinCoordinator,
    tx: Transaction,
    data: SpeedupData,
    context: String,
    target: Option<u32>,
    trigger: Option<u32>,
    height: BlockHeight,
    estimate: u64,
    r: Result<Option<(MonitorRequest, CoordinatedTx)>, BitcoinCoordinatorError>,
)
    requires
        call_ensures(
            BitcoinCoordinator::dispatch_with_speedup,
            (coordinator, tx, data, context, target, trigger, height, Some(estimate)),
            r,
        ),
        coordinator.ctx.fee_manager.settings.min_safe_fee_rate <= estimate
            <= coordinator.ctx.fee_manager.settings.max_feerate_sat_vb,
        !coordinator.ctx.storage@.txs.contains_key(tx_id(tx@)),
        tx@.vsize() * estimate <= u64::MAX,
    ensures
        r matches Ok(Some((request, record))) && {
            &&& record@.txid == tx_id(tx@)
            &&& record@.tx == tx@
            &&& record@.kind == TxKindView::NeedsSpeedup(data)
            &&& record@.state is ToDispatch
            &&& record@.target_block_height == match target {
                Some(wanted) => wanted,
                None => height,
            }
            &&& record@.confirmation_trigger == trigger
            &&& record@.stuck_in_mempool_blocks is None
            &&& record@.context == context@
        },
{
}

/// A transaction that is on record, in whatever state, is not registered again.
pub proof fn law_known_transaction_is_not_registered_again(
    coordinator: &BitcoinCoordinator,
    tx: Transaction,
    context: String,
    target: Option<u32>,
    trigger: Option<u32>,
    stuck: Option<u32>,
    height: BlockHeight,
    estimate: Option<u64>,
    r: Result<Option<(MonitorRequest, CoordinatedTx)>, BitcoinCoordinatorError>,
)
    requires
        call_ensures(
            BitcoinCoordinator::dispatch_without_speedup,
            (coordinator, tx, context, target, trigger, stuck, height, estimate),
            r,
        ),
        coordinator.ctx.storage@.txs.contains_key(tx_id(tx@)),
    ensures
        r matches Ok(None),
{
}

/// A call of `dispatch` registers a transaction for speedups when there is data for them, and as a plain one
/// when there is none; either way it is never reported as stuck.
pub proof fn law_speedup_data_decides_the_kind(
    coordinator: &BitcoinCoordinator,
    tx: Transaction,
    data: Option<SpeedupData>,
    context: String,
    target: Option<u32>,
    trigger: Option<u32>,
    height: BlockHeight,
    estimate: u64,
    r: Result<Option<(MonitorRequest, CoordinatedTx)>, BitcoinCoordinatorError>,
)
    requires
        call_ensures(
            BitcoinCoordinator::dispatch,
            (coordinator, tx, data, context, target, trigger, height, Some(estimate)),
            r,
        ),
        coordinator.ctx.fee_manager.settings.min_safe_fee_rate <= estimate
            <= coordinator.ctx.fee_manager.settings.max_feerate_sat_vb,
        !coordinator.ctx.storage@.txs.contains_key(tx_id(tx@)),
        tx@.vsize() * estimate <= u64::MAX,
    ensures
        r matches Ok(Some((request, record))) && {
            &&& record@.txid == tx_id(tx@)
            &&& record@.tx == tx@
            &&& data matches Some(given) ==> record@.kind == TxKindView::NeedsSpeedup(given)
            &&& data is None ==> record@.kind is Normal
            &&& record@.state is ToDispatch
            &&& record@.target_block_height == match target {
                Some(wanted) => wanted,
                None => height,
            }
            &&& record@.confirmation_trigger == trigger
            &&& record@.stuck_in_mempool_blocks is None
            &&& record@.context == context@
        },
{
}

/// A transaction whose fee at the rate in use does not fit in 64 bits is refused with an error, and not
/// passed over.
pub proof fn law_unpayable_transaction_is_an_error(
    coordinator: &BitcoinCoordinator,
    tx: Transaction,
    context: String,
    target: Option<u32>,
    trigger: Option<u32>,
    stuck: Option<u32>,
    height: BlockHeight,
    estimate: u64,
    r: Result<Option<(MonitorRequest, CoordinatedTx)>, BitcoinCoordinatorError>,
)
    requires
        call_ensures(
            BitcoinCoordinator::dispatch_without_speedup,
            (coordinator, tx, context, target, trigger, stuck, height, Some(estimate)),
            r,
        ),
        coordinator.ctx.fee_manager.settings.min_safe_fee_rate <= estimate
            <= coordinator.ctx.fee_manager.settings.max_feerate_sat_vb,
        !coordinator.ctx.storage@.txs.contains_key(tx_id(tx@)),
        tx@.vsize() * estimate > u64::MAX,
    ensures
        r matches Err(e) && e.is_internal("fee out of range"@),
{
}

// Counting

/// A call of `record` counts one broadcast under its label, with its size and its dust, and nothing under any
/// other label.
pub proof fn law_recorded_broadcast_is_counted(
    stats: &mut BroadcastStats,
    label: String,
    vbytes: u64,
    dust_sats: u64,
    other: Seq<char>,
)
    requires
        call_ensures(BroadcastStats::record, (stats, label, vbytes, dust_sats), ()),
        counted(tally(old(stats).by_label@), label@).count < u64::MAX,
        counted(tally(old(stats).by_label@), label@).vbytes + vbytes <= u64::MAX,
        counted(tally(old(stats).by_label@), label@).dust_sats + dust_sats <= u64::MAX,
        other != label@,
    ensures
        ({
            let before = tally(old(stats).by_label@);
            let after = tally(final(stats).by_label@);
            &&& after.contains_key(label@)
            &&& before.contains_key(label@) ==> after[label@].count == before[label@].count + 1
                && after[label@].vbytes == before[label@].vbytes + vbytes && after[label@].dust_sats
                == before[label@].dust_sats + dust_sats
            &&& !before.contains_key(label@) ==> after[label@].count == 1 && after[label@].vbytes == vbytes
                && after[label@].dust_sats == dust_sats
            &&& after.contains_key(other) == before.contains_key(other)
            &&& before.contains_key(other) ==> after[other] == before[other]
        }),
{
}

/// A call of `count_broadcast` counts the transaction under its kind and context, as long as the totals fit in
/// 64 bits; otherwise nothing is counted.
pub proof fn law_broadcast_is_counted_under_its_label(
    dispatcher: &mut Dispatcher,
    tx: &CoordinatedTx,
    dust_limit: u64,
    r: bool,
)
    requires
        call_ensures(Dispatcher::count_broadcast, (dispatcher, tx, dust_limit), r),
        old(dispatcher).wf(),
    ensures
        ({
            let entries = old(dispatcher).stats.by_label@;
            let before = counted(tally(entries), label_of(tx@));
            let after = tally(final(dispatcher).stats.by_label@);
            let dust = dust_of(tx@.tx.output, dust_limit);
            &&& r <==> sum_count(entries) < u64::MAX && sum_vbytes(entries) + tx@.tx.vsize() <= u64::MAX
                && sum_dust(entries) + dust <= u64::MAX
            &&& r ==> after.contains_key(label_of(tx@)) && after[label_of(tx@)].count == (before.count
                + 1) as u64 && after[label_of(tx@)].vbytes == (before.vbytes + tx@.tx.vsize()) as u64
                && after[label_of(tx@)].dust_sats == (before.dust_sats + dust) as u64
            &&& !r ==> final(dispatcher).stats == old(dispatcher).stats
        }),
{
}

} // verus!
