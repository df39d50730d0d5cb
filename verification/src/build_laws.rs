use crate::client_laws::law_unlisting_keeps_the_others_in_order;
use crate::engine_context::EngineContext;
use crate::laws::law_report_is_stored;
use crate::lemmas::{lemma_filter_members, lemma_find_first_sound, lemma_record_txids_members};
use crate::model::{other_than, outside_of, record_txids, without_all, StoreView};
use crate::offer_laws::lemma_first_is_found;
use crate::primitives::{tx_id, tx_weight, BlockHeight, TransactionView, Txid};
use crate::speedup_builder::{paid_fee_info, txids_of, BoostPlan, BuildRequest, SpeedupBuild};
use crate::speedup_model::{
    cancel_each, entries_of, parent_data_of, parent_vbytes, replaced_chain, review_speedups, watch_new,
    ParentEntry,
};
use crate::transaction_engine::plain_fee_info;
use crate::types::{
    CoordinatedTxView, CoordinatorNewsView, FeeInfo, FundingEntry, MonitorRequestView,
    SpeedupContextView, SpeedupKindView, TransactionState, TxKindView, TxStatus, Utxo,
};
use vstd::prelude::*;
use vstd::set_lib::lemma_len_subset;

verus! {

// Building

/// A build starts from its request as it is, with nothing measured yet: the parents, the multiplier, the
/// rate and what the chain lacks.
pub proof fn law_build_starts_from_its_request(
    build: SpeedupBuild,
    request: BuildRequest,
    inputs: Seq<Utxo>,
)
    requires
        build.starts(request, inputs),
    ensures
        build.funding_inputs@ == inputs,
        build.parents@ == request.parents@,
        build.parent_vbytes == parent_vbytes(request.parents@),
        build.is_rbf <==> request.rbf_inputs is Some,
        build.bump_fee == request.bump_fee,
        build.fee_rate == request.fee_rate,
        build.chain_diff_fee == request.chain_diff_fee,
        build.child_vsize == 0,
{
}

/// A build that got a second input is measured anew and is otherwise the same.
pub proof fn law_combined_build_is_measured_anew(
    build: SpeedupBuild,
    before: SpeedupBuild,
    inputs: Seq<Utxo>,
)
    requires
        build.continues(before, inputs),
    ensures
        build.funding_inputs@ == inputs,
        build.child_vsize == 0,
        build.parents == before.parents,
        build.parent_vbytes == before.parent_vbytes,
        build.is_rbf == before.is_rbf,
        build.inherited == before.inherited,
        build.bump_fee == before.bump_fee,
        build.fee_rate == before.fee_rate,
        build.chain_diff_fee == before.chain_diff_fee,
{
}

/// What a build claimed for itself is what follows the inputs that it inherited. A second input is looked
/// for when the only one comes from a speedup.
pub proof fn law_claims_follow_the_inherited_inputs(build: SpeedupBuild, i: int)
    requires
        build.wf(),
    ensures
        build.claimed().len() == build.funding_inputs@.len() - build.inherited,
        0 <= i < build.claimed().len() ==> build.claimed()[i] == build.funding_inputs@[build.inherited + i],
        build.may_combine() <==> build.funding_inputs@.len() == 1 && build.primary_is_speedup,
{
}

/// What a speedup remembers of its parents is all that a replacement needs to pay for them again.
pub proof fn law_parents_are_remembered(entries: Seq<ParentEntry>, i: int)
    ensures
        entries_of(parent_data_of(entries)) == entries,
        parent_data_of(entries).len() == entries.len(),
        0 <= i < entries.len() ==> parent_data_of(entries)[i].data == entries[i].data
            && parent_data_of(entries)[i].vsize == entries[i].vsize,
        0 <= i < entries.len() ==> parent_data_of(entries)[i].amount == match entries[i].data.utxo {
            Some(utxo) => utxo.amount,
            None => match entries[i].data.partial_utxo {
                Some((_, _, amount)) => amount,
                None => 0,
            },
        },
{
    assert(entries_of(parent_data_of(entries)) =~= entries);
}

/// The record of a speedup that was just built: it waits to be dispatched at once, with nothing claimed,
/// replaced or counted yet, and holds what it was built from.
pub open spec fn is_new_speedup(
    record: CoordinatedTxView,
    tx: TransactionView,
    build: SpeedupBuild,
    fee: u64,
    height: BlockHeight,
) -> bool {
    &&& record.txid == tx_id(tx)
    &&& record.tx == tx
    &&& record.state is ToDispatch
    &&& record.target_block_height == height
    &&& record.confirmation_trigger is None
    &&& record.stuck_in_mempool_blocks is None
    &&& record.settled_block_height is None
    &&& record.broadcast_block_height is None
    &&& record.fail_guard_until is None
    &&& record.retry_count == 0
    &&& record.fee_info == paid_fee_info(tx, fee, build.parent_vbytes)
    &&& record.kind matches TxKindView::Speedup(kind) && holds_build(kind.context(), build)
}

/// The context of a speedup that was just built.
pub open spec fn holds_build(context: SpeedupContextView, build: SpeedupBuild) -> bool {
    &&& context.funding_inputs == build.funding_inputs@
    &&& context.replaced_by is None
    &&& !context.spent
    &&& context.bump_fee_used == build.bump_fee
    &&& context.parent_data.len() == build.parents@.len()
    &&& forall|i: int|
        0 <= i < context.parent_data.len() ==> (#[trigger] context.parent_data[i]).data
            == build.parents@[i].data && context.parent_data[i].vsize == build.parents@[i].vsize
}

/// A boost is saved as it was built. One that had to replace its predecessor is an RBF of it that remembers
/// what it claimed itself; any other is a CPFP with the predecessor as its only parent.
pub proof fn law_saved_boost_holds_its_build(
    store: StoreView,
    plan: BoostPlan,
    build: SpeedupBuild,
    tx: TransactionView,
    fee: u64,
    capped: bool,
    height: BlockHeight,
    max_feerate: u64,
)
    requires
        store.is_keyed(),
        build.wf(),
        plan.last@.txid != tx_id(tx),
    ensures
        ({
            let after = store.save_boost(plan, build, tx, fee, capped, height, max_feerate);
            let record = after.txs[tx_id(tx)];
            &&& after.txs.contains_key(tx_id(tx))
            &&& is_new_speedup(record, tx, build, fee, height)
            &&& after.speedups.contains(tx_id(tx))
            &&& plan.use_rbf ==> (record.kind matches TxKindView::Speedup(
                SpeedupKindView::RBF { replaces, new_funding_inputs, .. },
            ) && replaces == plan.last@.txid && new_funding_inputs == build.funding_inputs@.skip(
                build.inherited as int,
            )) && record.context == "RBF_TRANSACTION"@
            &&& !plan.use_rbf ==> (record.kind matches TxKindView::Speedup(
                SpeedupKindView::CPFP { parents, .. },
            ) && parents == seq![plan.last@.txid]) && record.context == "CPFP_TRANSACTION"@
        }),
{
    let after = store.save_boost(plan, build, tx, fee, capped, height, max_feerate);
    let id = tx_id(tx);
    if !store.speedups.contains(id) {
        assert(after.speedups[store.speedups.len() as int] == id);
    }
}

/// Saving a boost touches no other record but the predecessor of a replacement whose fee was cut, which is
/// then on record at the maximal rate. The boost is listed last, and only a cut fee is news.
pub proof fn law_saving_a_boost_is_local(
    store: StoreView,
    plan: BoostPlan,
    build: SpeedupBuild,
    tx: TransactionView,
    fee: u64,
    capped: bool,
    height: BlockHeight,
    max_feerate: u64,
    other: Txid,
)
    requires
        store.is_keyed(),
        other != tx_id(tx),
    ensures
        ({
            let after = store.save_boost(plan, build, tx, fee, capped, height, max_feerate);
            let cut = capped && plan.use_rbf && other == plan.last@.txid && store.txs.contains_key(other);
            &&& !cut ==> after.txs.get(other) == store.txs.get(other)
            &&& cut ==> after.txs[other] == (CoordinatedTxView {
                fee_info: FeeInfo { package_fee_rate: max_feerate, ..store.txs[other].fee_info },
                ..store.txs[other]
            })
            &&& after.pending == store.pending
            &&& after.funding == store.funding
            &&& !store.speedups.contains(tx_id(tx)) ==> after.speedups == store.speedups.push(tx_id(tx))
            &&& store.speedups.contains(tx_id(tx)) ==> after.speedups == store.speedups
            &&& !capped ==> after.news == store.news
            &&& capped ==> after.news == store.report(
                CoordinatorNewsView::MaxFeeRateReached {
                    txid: tx_id(tx),
                    effective_fee_rate: paid_fee_info(tx, fee, build.parent_vbytes).package_fee_rate,
                    context: if plan.use_rbf {
                        "RBF_TRANSACTION"@
                    } else {
                        "CPFP_TRANSACTION"@
                    },
                },
            ).news
        }),
{
}

/// A CPFP is saved as it was built, with every transaction of its batch as a parent, in order.
pub proof fn law_saved_cpfp_holds_its_build(
    store: StoreView,
    batch: Seq<CoordinatedTxView>,
    build: SpeedupBuild,
    tx: TransactionView,
    fee: u64,
    capped: bool,
    height: BlockHeight,
    i: int,
)
    ensures
        ({
            let after = store.save_cpfp(batch, build, tx, fee, capped, height);
            let record = after.txs[tx_id(tx)];
            &&& after.txs.contains_key(tx_id(tx))
            &&& is_new_speedup(record, tx, build, fee, height)
            &&& after.speedups.contains(tx_id(tx))
            &&& record.context == "CPFP_TRANSACTION"@
            &&& record.kind matches TxKindView::Speedup(SpeedupKindView::CPFP { parents, .. })
                && parents.len() == batch.len() && (0 <= i < batch.len() ==> parents[i] == batch[i].txid)
        }),
{
    let after = store.save_cpfp(batch, build, tx, fee, capped, height);
    let id = tx_id(tx);
    law_unlisting_keeps_the_others_in_order(store, txids_of(batch));
    if !store.speedups.contains(id) {
        assert(after.speedups[store.speedups.len() as int] == id);
    }
}

/// Saving a CPFP touches no other record. Its parents leave the pending list, where the others keep their
/// order; it is listed last, and only a cut fee is news.
pub proof fn law_saving_a_cpfp_is_local(
    store: StoreView,
    batch: Seq<CoordinatedTxView>,
    build: SpeedupBuild,
    tx: TransactionView,
    fee: u64,
    capped: bool,
    height: BlockHeight,
    other: Txid,
)
    requires
        other != tx_id(tx),
    ensures
        ({
            let after = store.save_cpfp(batch, build, tx, fee, capped, height);
            let ids = Seq::new(batch.len(), |i: int| batch[i].txid);
            &&& after.txs.get(other) == store.txs.get(other)
            &&& after.pending == store.pending.filter(|x: Txid| !ids.contains(x))
            &&& after.funding == store.funding
            &&& !store.speedups.contains(tx_id(tx)) ==> after.speedups == store.speedups.push(tx_id(tx))
            &&& store.speedups.contains(tx_id(tx)) ==> after.speedups == store.speedups
            &&& !capped ==> after.news == store.news
            &&& capped ==> after.news == store.report(
                CoordinatorNewsView::MaxFeeRateReached {
                    txid: tx_id(tx),
                    effective_fee_rate: paid_fee_info(tx, fee, build.parent_vbytes).package_fee_rate,
                    context: "CPFP_TRANSACTION"@,
                },
            ).news
        }),
{
    let ids = Seq::new(batch.len(), |i: int| batch[i].txid);
    assert(txids_of(batch) =~= ids);
    law_unlisting_keeps_the_others_in_order(store, ids);
}

/// A speedup that was saved is followed: under its txid, with the context of its kind, and not yet in the
/// mempool.
pub proof fn law_saved_speedup_is_followed(tx: TransactionView, kind: SpeedupKindView)
    ensures
        watch_new(tx, kind) == (MonitorRequestView::Watch {
            txids: seq![tx_id(tx)],
            context: if kind is RBF {
                "RBF_TRANSACTION"@
            } else {
                "CPFP_TRANSACTION"@
            },
            confirmation_trigger: None,
            search_in_mempool: false,
        }),
{
}

// Final speedups

/// The txids from `path[0]` on, each on record as an RBF of the next.
pub open spec fn is_replacement_path(txs: Map<Txid, CoordinatedTxView>, path: Seq<Txid>) -> bool {
    &&& path.no_duplicates()
    &&& forall|i: int|
        0 <= i < path.len() - 1 ==> txs.contains_key(#[trigger] path[i]) && (
        txs[path[i]].kind matches TxKindView::Speedup(SpeedupKindView::RBF { replaces, .. }) && replaces
            == path[i + 1])
}

proof fn lemma_path_is_in_chain(
    txs: Map<Txid, CoordinatedTxView>,
    path: Seq<Txid>,
    steps: nat,
    i: int,
)
    requires
        is_replacement_path(txs, path),
        0 <= i < path.len(),
        path.len() <= steps + 1,
    ensures
        replaced_chain(txs, path[0], steps).contains(path[i]),
    decreases steps,
{
    let chain = replaced_chain(txs, path[0], steps);
    if i == 0 {
        assert(chain[0] == path[0]);
    } else {
        assert(txs.contains_key(path[0]));
        let rest = path.skip(1);
        assert forall|k: int| 0 <= k < rest.len() - 1 implies txs.contains_key(#[trigger] rest[k]) && (
        txs[rest[k]].kind matches TxKindView::Speedup(SpeedupKindView::RBF { replaces, .. }) && replaces
            == rest[k + 1]) by {
            assert(rest[k] == path[k + 1]);
        }
        assert(rest.no_duplicates());
        lemma_path_is_in_chain(txs, rest, (steps - 1) as nat, i - 1);
        let tail = replaced_chain(txs, rest[0], (steps - 1) as nat);
        assert(chain == seq![path[0]] + tail);
        let k = choose|k: int| 0 <= k < tail.len() && tail[k] == rest[i - 1];
        assert(chain[k + 1] == path[i]);
    }
}

/// Everything that a replacement replaced, directly or through others, is found: each link of a row of
/// replacements on record.
pub proof fn law_every_replaced_speedup_is_found(
    store: StoreView,
    tx: CoordinatedTxView,
    path: Seq<Txid>,
    i: int,
)
    requires
        store.txs.dom().finite(),
        is_replacement_path(store.txs, path),
        0 <= i < path.len(),
        tx.kind matches TxKindView::Speedup(SpeedupKindView::RBF { replaces, .. }) && replaces == path[0],
    ensures
        store.replaced_by_chain(tx).contains(path[i]),
{
    let links = path.drop_last();
    assert forall|a: int, b: int| 0 <= a < links.len() && 0 <= b < links.len() && a != b implies links[a]
        != links[b] by {
        assert(path[a] != path[b]);
    }
    links.unique_seq_to_set();
    assert(links.to_set().subset_of(store.txs.dom())) by {
        assert forall|x: Txid| links.to_set().contains(x) implies store.txs.dom().contains(x) by {
            let k = choose|k: int| 0 <= k < links.len() && links[k] == x;
            assert(store.txs.contains_key(path[k]));
        }
    }
    lemma_len_subset(links.to_set(), store.txs.dom());
    lemma_path_is_in_chain(store.txs, path, store.txs.len(), i);
}

/// A speedup that replaced nothing settles no other, and nobody has to stop following anything.
pub proof fn law_cpfp_replaced_nothing(
    store: StoreView,
    tx: CoordinatedTxView,
    status: TxStatus,
    height: BlockHeight,
)
    requires
        tx.kind matches TxKindView::Speedup(SpeedupKindView::CPFP { .. }),
    ensures
        store.replaced_by_chain(tx).len() == 0,
        store.review_cancels(tx, status, height).len() == 0,
        store.finalize_speedup(tx, height) == store.settle(tx.txid, TransactionState::Finalized, height),
{
}

/// What a final speedup replaced is settled as failed, each at this height, unless it is on chain or
/// settled itself; a state once failed stays so.
pub proof fn law_replaced_speedups_fail(
    store: StoreView,
    ids: Seq<Txid>,
    height: BlockHeight,
    id: Txid,
)
    requires
        store.is_keyed(),
        store.txs.contains_key(id),
    ensures
        ({
            let after = store.settle_all_failed(ids, height);
            let open = store.txs[id].state is ToDispatch || store.txs[id].state is InMempool;
            &&& after.is_keyed()
            &&& after.txs.contains_key(id)
            &&& ids.contains(id) && open ==> after.txs[id] == (CoordinatedTxView {
                state: TransactionState::Failed,
                settled_block_height: Some(height),
                ..store.txs[id]
            })
            &&& !ids.contains(id) ==> after.txs[id] == store.txs[id]
            &&& ids.contains(id) && store.txs[id].state is Confirmed || store.txs[id].state is Finalized
                ==> after.txs[id] == store.txs[id]
            &&& after.speedups == store.speedups
            &&& after.pending == store.pending
            &&& after.funding == store.funding
        }),
    decreases ids.len(),
{
    if ids.len() > 0 {
        let rest = ids.drop_last();
        law_replaced_speedups_fail(store, rest, height, id);
        assert(ids[ids.len() - 1] == ids.last());
        if rest.contains(id) {
            let k = choose|k: int| 0 <= k < rest.len() && rest[k] == id;
            assert(ids[k] == id);
        }
        if ids.contains(id) && id != ids.last() {
            let k = choose|k: int| 0 <= k < ids.len() && ids[k] == id;
            assert(rest[k] == id);
        }
    }
}

/// A final speedup is settled at this height, and with it every link of the row of speedups that it
/// replaced that is still in the queue or in the mempool.
pub proof fn law_final_speedup_settles_what_it_replaced(
    store: StoreView,
    tx: CoordinatedTxView,
    height: BlockHeight,
    path: Seq<Txid>,
    i: int,
)
    requires
        store.is_keyed(),
        store.txs.dom().finite(),
        store.txs.contains_key(tx.txid),
        store.txs[tx.txid] == tx,
        tx.state is InMempool || tx.state is Confirmed,
        is_replacement_path(store.txs, path),
        !path.contains(tx.txid),
        0 <= i < path.len(),
        tx.kind matches TxKindView::Speedup(SpeedupKindView::RBF { replaces, .. }) && replaces == path[0],
        store.txs.contains_key(path[i]),
        store.txs[path[i]].state is ToDispatch || store.txs[path[i]].state is InMempool,
    ensures
        store.finalize_speedup(tx, height).txs[path[i]] == (CoordinatedTxView {
            state: TransactionState::Failed,
            settled_block_height: Some(height),
            ..store.txs[path[i]]
        }),
        store.finalize_speedup(tx, height).txs[tx.txid] == (CoordinatedTxView {
            state: TransactionState::Finalized,
            settled_block_height: Some(height),
            ..tx
        }),
{
    let finalized = store.settle(tx.txid, TransactionState::Finalized, height);
    assert(finalized.is_keyed());
    assert(finalized.txs.dom() =~= store.txs.dom());
    assert(path.contains(path[i]));
    assert forall|k: int| 0 <= k < path.len() - 1 implies finalized.txs.contains_key(#[trigger] path[k])
        && (finalized.txs[path[k]].kind matches TxKindView::Speedup(SpeedupKindView::RBF { replaces, .. })
        && replaces == path[k + 1]) by {
        assert(store.txs.contains_key(path[k]));
        assert(path.contains(path[k]));
    }
    law_every_replaced_speedup_is_found(finalized, tx, path, i);
    let chain = finalized.replaced_by_chain(tx);
    law_replaced_speedups_fail(finalized, chain, height, path[i]);
    law_replaced_speedups_fail(finalized, chain, height, tx.txid);
}

/// The monitor is told to stop following each speedup that was replaced, one request each, under the context
/// of the final one.
pub proof fn law_replaced_speedups_are_not_followed(ids: Seq<Txid>, context: Seq<char>, i: int)
    requires
        0 <= i < ids.len(),
    ensures
        cancel_each(ids, context).len() == ids.len(),
        cancel_each(ids, context)[i] == (MonitorRequestView::Cancel {
            txids: seq![ids[i]],
            context,
            confirmation_trigger: None,
        }),
{
}

/// A speedup that the monitor calls final is settled with what it replaced, and takes the place of its
/// funding in the queue; a queue in which a speedup has no output stops the review there.
pub proof fn law_final_speedup_is_settled_and_queued(
    store: StoreView,
    tx: CoordinatedTxView,
    all: Seq<CoordinatedTxView>,
    status: TxStatus,
    height: BlockHeight,
    max_confirmations: u32,
)
    requires
        status.finalized && !status.in_mempool && !status.not_found,
        tx.kind is Speedup,
        forall|k: int|
            0 <= k < store.finalize_speedup(tx, height).funding.len() ==> !(
            #[trigger] store.finalize_speedup(tx, height).funding[k] matches FundingEntry::Record(id)
                && store.finalize_speedup(tx, height).txs.contains_key(id) && store.finalize_speedup(
                tx,
                height,
            ).txs[id].kind is Speedup && store.finalize_speedup(tx, height).txs[id].tx.output.len() == 0),
    ensures
        store.review_speedup(tx, all, status, height, max_confirmations) == store.finalize_speedup(
            tx,
            height,
        ).replace_funding(tx.txid),
        store.review_failure(tx, status, height) is None,
{
    let settled = store.finalize_speedup(tx, height);
    lemma_find_first_sound(settled.funding, settled.has_no_change());
    if let Some(entry) = settled.broken_entry() {
        let k = choose|k: int| 0 <= k < settled.funding.len() && settled.funding[k] == entry;
        assert(settled.has_no_change()(settled.funding[k]));
    }
}

/// A review of speedups takes one after the other, each with its own status, and stops at a failure.
pub proof fn law_every_speedup_is_reviewed(
    store: StoreView,
    in_flight: Seq<CoordinatedTxView>,
    all: Seq<CoordinatedTxView>,
    statuses: Seq<TxStatus>,
    more: TxStatus,
    height: BlockHeight,
    max_confirmations: u32,
)
    ensures
        ({
            let before = review_speedups(store, in_flight, all, statuses, height, max_confirmations);
            let after = review_speedups(
                store,
                in_flight,
                all,
                statuses.push(more),
                height,
                max_confirmations,
            );
            let tx = in_flight[statuses.len() as int];
            &&& before.failure is Some ==> after == before
            &&& before.failure is None ==> after.store == before.store.review_speedup(
                tx,
                all,
                more,
                height,
                max_confirmations,
            ) && after.cancels == before.cancels + before.store.review_cancels(tx, more, height)
                && after.failure == before.store.review_failure(tx, more, height)
            &&& statuses.len() == 0 ==> before.store == store && before.cancels.len() == 0
                && before.failure is None
        }),
{
    assert(statuses.push(more).drop_last() =~= statuses);
}

/// A queue entry funds a speedup exactly when it stands for one of its funding inputs: the UTXO of a funding
/// record or of another output, or the last output of a speedup.
pub proof fn law_funding_entries_are_found_by_their_output(
    store: StoreView,
    entry: FundingEntry,
    inputs: Seq<Utxo>,
    i: int,
)
    requires
        0 <= i < inputs.len(),
    ensures
        entry matches FundingEntry::Sibling(data) && data.utxo.txid == inputs[i].txid && data.utxo.vout
            == inputs[i].vout ==> store.funds(entry, inputs),
        entry matches FundingEntry::Record(id) && store.txs.contains_key(id) && (
        store.txs[id].kind matches TxKindView::Funding(data) && data.utxo.txid == inputs[i].txid
            && data.utxo.vout == inputs[i].vout) ==> store.funds(entry, inputs),
        entry matches FundingEntry::Record(id) && store.txs.contains_key(id)
            && store.txs[id].kind is Speedup && store.txs[id].txid == inputs[i].txid && inputs[i].vout == (
        store.txs[id].tx.output.len() - 1) as u32 ==> store.funds(entry, inputs),
        store.funds(entry, inputs) ==> exists|k: int|
            0 <= k < inputs.len() && (match entry {
                FundingEntry::Sibling(data) => data.utxo.txid == (#[trigger] inputs[k]).txid
                    && data.utxo.vout == inputs[k].vout,
                FundingEntry::Record(id) => store.txs.contains_key(id) && match store.txs[id].kind {
                    TxKindView::Funding(data) => data.utxo.txid == inputs[k].txid && data.utxo.vout
                        == inputs[k].vout,
                    TxKindView::Speedup(_) => store.txs[id].txid == inputs[k].txid && inputs[k].vout == (
                    store.txs[id].tx.output.len() - 1) as u32,
                    _ => false,
                },
            }),
{
}

/// When a final speedup takes its place in the queue, the records of the entries that funded it leave the
/// store and are announced as evicted; all other records stay as they are.
pub proof fn law_spent_funding_leaves_the_store(store: StoreView, id: Txid, k: int, other: Txid)
    requires
        store.is_keyed(),
        store.txs.contains_key(id),
        store.txs[id].kind is Speedup,
        0 <= k < store.funding.len(),
        store.funds(store.funding[k], store.txs[id].speedup().context().funding_inputs),
        forall|m: int|
            0 <= m < store.funding.len() ==> #[trigger] store.funding[m] != FundingEntry::Record(other)
                || !store.funds(store.funding[m], store.txs[id].speedup().context().funding_inputs),
    ensures
        ({
            let after = store.replace_funding(id);
            &&& store.funding[k] matches FundingEntry::Record(gone) ==> !after.txs.contains_key(gone)
                && !after.speedups.contains(gone) && after.knows_news(
                CoordinatorNewsView::TransactionEvicted { txid: gone, context: store.txs[gone].context },
            )
            &&& after.txs.get(other) == store.txs.get(other)
            &&& after.pending == store.pending
        }),
{
    let inputs = store.txs[id].speedup().context().funding_inputs;
    let spends = store.is_spent_by(inputs);
    let spent = store.funding.filter(spends);
    lemma_filter_members(store.funding, spends);
    assert(store.funding.contains(store.funding[k]));
    assert(spent.contains(store.funding[k]));
    lemma_record_txids_members(spent);
    let gone = record_txids(spent);
    if gone.contains(other) {
        assert(spent.contains(FundingEntry::Record(other)));
        let m = choose|m: int| 0 <= m < store.funding.len() && store.funding[m] == FundingEntry::Record(other);
        assert(store.funding[m] == FundingEntry::Record(other));
    }
    let dropped = without_all(store.speedups, gone.to_set());
    lemma_filter_members(store.speedups, outside_of(gone.to_set()));
    lemma_filter_members(dropped, other_than(id));
    if let FundingEntry::Record(x) = store.funding[k] {
        assert(gone.contains(x));
        assert(gone.to_set().contains(x));
        let m = choose|m: int| 0 <= m < gone.len() && gone[m] == x;
        lemma_evictions_are_reported(store, gone, m);
        let told = store.report_evictions(gone);
        let n = choose|n: int|
            0 <= n < told.news.len() && (#[trigger] told.news[n]).news == store.eviction_news(x);
        assert(store.replace_funding(id).news[n].news == store.eviction_news(x));
    }
}

proof fn lemma_reports_are_kept(store: StoreView, ids: Seq<Txid>, news: CoordinatorNewsView)
    requires
        store.knows_news(news),
    ensures
        store.report_evictions(ids).knows_news(news),
    decreases ids.len(),
{
    if ids.len() > 0 {
        let next = store.report(store.eviction_news(ids.last()));
        let k = choose|k: int| 0 <= k < store.news.len() && (#[trigger] store.news[k]).news == news;
        assert(next.news[k].news == news);
        lemma_reports_are_kept(next, ids.drop_last(), news);
    }
}

proof fn lemma_evictions_are_reported(store: StoreView, ids: Seq<Txid>, k: int)
    requires
        0 <= k < ids.len(),
    ensures
        store.report_evictions(ids).knows_news(store.eviction_news(ids[k])),
    decreases ids.len(),
{
    let news = store.eviction_news(ids.last());
    let next = store.report(news);
    if k == ids.len() - 1 {
        law_report_is_stored(store, news);
        lemma_reports_are_kept(next, ids.drop_last(), news);
    } else {
        assert(ids.drop_last()[k] == ids[k]);
        lemma_evictions_are_reported(next, ids.drop_last(), k);
    }
}

/// A step of the engines leaves the services alone: the fees, the funding limits, the dispatcher with its
/// statistics, the settings, and the time of the last retry.
pub proof fn law_steps_leave_the_services_alone(after: EngineContext, before: EngineContext)
    requires
        after.keeps(before),
    ensures
        after.fee_manager == before.fee_manager,
        after.funding_manager == before.funding_manager,
        after.dispatcher == before.dispatcher,
        after.coordinator_config == before.coordinator_config,
        after.max_monitoring_confirmations == before.max_monitoring_confirmations,
        after.last_retry_at == before.last_retry_at,
        after.wf(),
        before.storage@.owns_outputs() ==> after.storage@.owns_outputs(),
{
}

/// What a replacement is said to have replaced was replaced: the chain begins with the speedup that it names,
/// and each further link is named by the record of the one before.
pub proof fn law_chain_holds_only_what_was_replaced(
    store: StoreView,
    tx: CoordinatedTxView,
    replaces: Txid,
    i: int,
)
    requires
        tx.kind matches TxKindView::Speedup(SpeedupKindView::RBF { replaces: id, .. }) && id == replaces,
        0 <= i < store.replaced_by_chain(tx).len(),
    ensures
        ({
            let chain = store.replaced_by_chain(tx);
            &&& chain[0] == replaces
            &&& i > 0 ==> store.txs.contains_key(chain[i - 1]) && (
            store.txs[chain[i - 1]].kind matches TxKindView::Speedup(SpeedupKindView::RBF { replaces: next, .. })
                && next == chain[i])
        }),
{
    lemma_chain_links(store.txs, replaces, store.txs.len(), i);
}

proof fn lemma_chain_links(txs: Map<Txid, CoordinatedTxView>, id: Txid, steps: nat, i: int)
    requires
        0 <= i < replaced_chain(txs, id, steps).len(),
    ensures
        replaced_chain(txs, id, steps)[0] == id,
        i > 0 ==> txs.contains_key(replaced_chain(txs, id, steps)[i - 1]) && (
        txs[replaced_chain(txs, id, steps)[i - 1]].kind matches TxKindView::Speedup(
            SpeedupKindView::RBF { replaces, .. },
        ) && replaces == replaced_chain(txs, id, steps)[i]),
    decreases steps,
{
    let chain = replaced_chain(txs, id, steps);
    if steps > 0 && txs.contains_key(id) {
        if let TxKindView::Speedup(SpeedupKindView::RBF { replaces, .. }) = txs[id].kind {
            let tail = replaced_chain(txs, replaces, (steps - 1) as nat);
            assert(chain == seq![id] + tail);
            assert(tail.len() > 0);
            lemma_chain_links(txs, replaces, (steps - 1) as nat, if i > 0 { i - 1 } else { 0 });
            if i > 0 {
                assert(chain[i] == tail[i - 1]);
                if i > 1 {
                    assert(chain[i - 1] == tail[i - 2]);
                }
            }
        }
    }
}

/// The monitor has to stop following what a speedup replaced once that one is final, and nothing before.
pub proof fn law_replaced_speedups_are_followed_until_then(
    store: StoreView,
    tx: CoordinatedTxView,
    status: TxStatus,
    height: BlockHeight,
)
    ensures
        !status.finalized || status.in_mempool || status.not_found ==> store.review_cancels(
            tx,
            status,
            height,
        ).len() == 0,
        status.finalized && !status.in_mempool && !status.not_found ==> store.review_cancels(
            tx,
            status,
            height,
        ) == cancel_each(
            store.settle(tx.txid, TransactionState::Finalized, height).replaced_by_chain(tx),
            tx.context,
        ),
{
}

/// A speedup in the funding queue without an output breaks it: a final speedup is then settled, but takes
/// no place in the queue, and the review stops and names the first such entry.
pub proof fn law_broken_queue_stops_the_review(
    store: StoreView,
    tx: CoordinatedTxView,
    all: Seq<CoordinatedTxView>,
    status: TxStatus,
    height: BlockHeight,
    max_confirmations: u32,
    k: int,
    id: Txid,
)
    requires
        status.finalized && !status.in_mempool && !status.not_found,
        ({
            let settled = store.finalize_speedup(tx, height);
            &&& settled.txs.contains_key(tx.txid) && settled.txs[tx.txid].kind is Speedup
            &&& 0 <= k < settled.funding.len() && settled.funding[k] == FundingEntry::Record(id)
            &&& settled.txs.contains_key(id) && settled.txs[id].kind is Speedup
                && settled.txs[id].tx.output.len() == 0
        }),
    ensures
        store.review_speedup(tx, all, status, height, max_confirmations) == store.finalize_speedup(
            tx,
            height,
        ),
        store.review_failure(tx, status, height) is Some,
        (forall|j: int|
            0 <= j < k ==> !(
            #[trigger] store.finalize_speedup(tx, height).funding[j] matches FundingEntry::Record(x)
                && store.finalize_speedup(tx, height).txs.contains_key(x) && store.finalize_speedup(
                tx,
                height,
            ).txs[x].kind is Speedup && store.finalize_speedup(tx, height).txs[x].tx.output.len() == 0))
            ==> store.review_failure(tx, status, height) == Some(
            "tx "@ + store.finalize_speedup(tx, height).txs[id].txid.text() + " has no outputs"@,
        ),
{
    let settled = store.finalize_speedup(tx, height);
    let broken = settled.has_no_change();
    lemma_find_first_sound(settled.funding, broken);
    assert(broken(settled.funding[k]));
    if forall|j: int|
        0 <= j < k ==> !(#[trigger] settled.funding[j] matches FundingEntry::Record(x)
            && settled.txs.contains_key(x) && settled.txs[x].kind is Speedup
            && settled.txs[x].tx.output.len() == 0) {
        assert forall|j: int| 0 <= j < k implies !broken(#[trigger] settled.funding[j]) by {}
        lemma_first_is_found(settled.funding, broken, k);
    }
}

/// The queue after a final speedup took its place: the entries that did not fund it, in their order, with the
/// speedup at the place of the first that did. When none did, nothing changes.
pub proof fn law_other_entries_keep_their_order(store: StoreView, id: Txid, place: int)
    requires
        store.txs.contains_key(id),
        store.txs[id].kind is Speedup,
    ensures
        ({
            let inputs = store.txs[id].speedup().context().funding_inputs;
            let after = store.replace_funding(id);
            &&& (forall|q: int| 0 <= q < store.funding.len() ==> !store.funds(#[trigger] store.funding[q], inputs))
                ==> after == store
            &&& 0 <= place < store.funding.len() && store.funds(store.funding[place], inputs) && (forall|
                q: int,
            |
                0 <= q < place ==> !store.funds(#[trigger] store.funding[q], inputs)) ==> after.funding
                == store.funding.filter(|e: FundingEntry| !store.funds(e, inputs)).insert(
                place,
                FundingEntry::Record(id),
            )
        }),
{
    let inputs = store.txs[id].speedup().context().funding_inputs;
    let spends = store.is_spent_by(inputs);
    let spent = store.funding.filter(spends);
    lemma_filter_members(store.funding, spends);
    assert(store.is_not_spent_by(inputs) =~= (|e: FundingEntry| !store.funds(e, inputs)));
    if forall|q: int| 0 <= q < store.funding.len() ==> !store.funds(#[trigger] store.funding[q], inputs) {
        if spent.len() > 0 {
            assert(spent.contains(spent[0]));
            let q = choose|q: int| 0 <= q < store.funding.len() && store.funding[q] == spent[0];
            assert(!store.funds(store.funding[q], inputs));
        }
    }
    if store.is_first_spent(inputs, place) {
        assert(store.funding.contains(store.funding[place]));
        assert(spent.contains(store.funding[place]));
        let first = store.first_spent(inputs);
        assert(store.is_first_spent(inputs, first));
        if first < place {
            assert(!store.funds(store.funding[first], inputs));
        }
        if place < first {
            assert(!store.funds(store.funding[place], inputs));
        }
    }
}

/// The fee of a transaction that is dispatched by itself is that of its size at the rate.
pub proof fn law_plain_fee_is_recorded(tx: CoordinatedTxView, fee_rate: u64)
    requires
        tx.tx.vsize() * fee_rate <= u64::MAX,
    ensures
        ({
            let info = plain_fee_info(tx, fee_rate);
            &&& info.fee == tx.tx.vsize() * fee_rate
            &&& info.fee_rate == fee_rate
            &&& info.package_fee_rate == fee_rate
            &&& info.weight == tx_weight(tx.tx)
        }),
{
    let vsize = tx.tx.vsize();
    assert(vsize * fee_rate >= 0) by (nonlinear_arith)
        requires
            vsize >= 0,
            fee_rate >= 0,
    ;
}

} // verus!
