use crate::dispatcher::{
    all_reachable, counted, dust_of, has_room_for, is_place_of, is_reachable, is_sendable, known_by,
    label_of, labels_in_order, parent_txids, rejected, rejection_of, stats_kind, sum_count, sum_dust,
    sum_vbytes, tally, with_broadcast, BroadcastEntry, DispatchOutcomeView, DispatcherStorage,
};
use crate::engine_context::{is_first_attempt, verdict_of, watch_broadcast, EngineContext, NodeState};
use crate::helper::has_txid;
use crate::lemmas::{
    lemma_filter_map_step, lemma_filter_members, lemma_filter_step, lemma_find_first_sound,
};
use crate::lifecycle::{is_due_for_dispatch, meet, not_among, Verdict};
use crate::model::{find_first, lists_selected, StoreView};
use crate::offer_laws::lemma_first_is_found;
use crate::primitives::{tx_weight, BlockHeight, OutPoint, TxOutView, Txid};
use crate::text::{decimal, lemma_precedes_total, precedes};
use crate::types::{
    CoordinatedTxView, FeeInfo, MonitorRequestView, SpeedupContextView, SpeedupKindView,
    TransactionState, TxKindView, TxStatus,
};
use vstd::prelude::*;
use vstd::string::*;

verus! {

// What is sent

/// A transaction that is not too heavy and has an input is sent, whatever else it holds.
pub proof fn law_valid_transactions_are_sent(tx: CoordinatedTxView, max_weight: u64)
    requires
        tx.tx.input.len() > 0,
        tx_weight(tx.tx) <= max_weight,
    ensures
        rejection_of(tx, max_weight) is None,
        is_sendable(max_weight)(tx),
        rejected(max_weight)(tx) is None,
{
}

/// A batch is parted in order: each transaction with an input and within the weight limit goes to the ones
/// to send, and each other one gets a fatal outcome that says why.
pub proof fn law_batch_is_parted_in_order(
    txs: Seq<CoordinatedTxView>,
    more: CoordinatedTxView,
    max_weight: u64,
)
    ensures
        ({
            let sent = txs.filter(is_sendable(max_weight));
            let refused = txs.filter_map(rejected(max_weight));
            let now_sent = txs.push(more).filter(is_sendable(max_weight));
            let now_refused = txs.push(more).filter_map(rejected(max_weight));
            if more.tx.input.len() == 0 {
                now_sent == sent && now_refused == refused.push(
                    (more.txid, DispatchOutcomeView::Fatal("transaction has no inputs"@)),
                )
            } else if tx_weight(more.tx) > max_weight {
                now_sent == sent && now_refused == refused.push(
                    (
                        more.txid,
                        DispatchOutcomeView::Fatal(
                            "transaction weight "@ + decimal(tx_weight(more.tx) as nat)
                                + " wu exceeds max "@ + decimal(max_weight as nat) + " wu"@,
                        ),
                    ),
                )
            } else {
                now_sent == sent.push(more) && now_refused == refused
            }
        }),
{
    let n = txs.len() as int;
    let larger = txs.push(more);
    lemma_filter_step(larger, is_sendable(max_weight), n);
    lemma_filter_map_step(larger, rejected(max_weight), n);
    assert(larger.take(n) =~= txs);
    assert(larger.take(n + 1) =~= larger);
}

/// A transaction waits for nothing but its tracked parents: it is sent once each of them is in the
/// mempool, confirmed or final, and not before.
pub proof fn law_reachable_parents_open_the_way(statuses: Seq<TxStatus>, i: int)
    ensures
        (forall|j: int|
            0 <= j < statuses.len() ==> (#[trigger] statuses[j]).in_mempool || statuses[j].confirmed
                || statuses[j].finalized) ==> all_reachable(statuses),
        0 <= i < statuses.len() && !statuses[i].in_mempool && !statuses[i].confirmed
            && !statuses[i].finalized ==> !all_reachable(statuses),
        statuses.len() == 0 ==> all_reachable(statuses),
{
    if 0 <= i < statuses.len() && all_reachable(statuses) {
        assert(is_reachable(statuses[i]));
    }
}

/// Each transaction that an input spends from is looked up when the coordinator tracks it, and no other.
pub proof fn law_tracked_parents_are_looked_up<S: DispatcherStorage>(
    storage: S,
    tx: CoordinatedTxView,
    i: int,
    id: Txid,
)
    ensures
        0 <= i < tx.tx.input.len() && storage.knows(tx.tx.input[i].previous_output.txid)
            ==> parent_txids(tx.tx).filter(known_by(storage)).contains(
            tx.tx.input[i].previous_output.txid,
        ),
        parent_txids(tx.tx).filter(known_by(storage)).contains(id) ==> storage.knows(id) && exists|j: int|
            0 <= j < tx.tx.input.len() && (#[trigger] tx.tx.input[j]).previous_output.txid == id,
{
    let ids = parent_txids(tx.tx);
    lemma_filter_members(ids, known_by(storage));
    if 0 <= i < tx.tx.input.len() {
        assert(ids[i] == tx.tx.input[i].previous_output.txid);
        assert(ids.contains(ids[i]));
    }
    if ids.filter(known_by(storage)).contains(id) {
        assert(ids.contains(id));
        let j = choose|j: int| 0 <= j < ids.len() && ids[j] == id;
        assert(tx.tx.input[j].previous_output.txid == id);
    }
}

/// The coordinator tracks every transaction on record but the funding UTXOs, which come from outside.
pub proof fn law_every_record_but_funding_is_tracked(store: StoreView, id: Txid)
    ensures
        store.is_tracked(id) <==> store.txs.contains_key(id) && (store.txs[id].kind is Normal
            || store.txs[id].kind is NeedsSpeedup || store.txs[id].kind is Speedup),
{
}

/// A registered transaction is due from its target height on: every one that is to be dispatched is
/// listed, once, and nothing else is.
pub proof fn law_due_transactions_are_dispatched(
    listing: Seq<CoordinatedTxView>,
    txs: Map<Txid, CoordinatedTxView>,
    height: BlockHeight,
    id: Txid,
)
    requires
        lists_selected(listing, txs, is_due_for_dispatch(height)),
        forall|x: Txid| #[trigger] txs.contains_key(x) ==> txs[x].txid == x,
        txs.contains_key(id),
    ensures
        listing.contains(txs[id]) <==> txs[id].state is ToDispatch && height
            >= txs[id].target_block_height && (txs[id].kind is Normal || txs[id].kind is NeedsSpeedup
            || txs[id].kind is Funding),
        forall|i: int, j: int|
            0 <= i < j < listing.len() ==> (#[trigger] listing[i]).txid != (#[trigger] listing[j]).txid,
{
    let due = is_due_for_dispatch(height);
    if due(txs[id]) {
        let i = choose|i: int| 0 <= i < listing.len() && #[trigger] listing[i] == txs[id];
        assert(listing.contains(txs[id]));
    }
    if listing.contains(txs[id]) {
        let i = choose|i: int| 0 <= i < listing.len() && listing[i] == txs[id];
        assert(due(listing[i]));
    }
}

/// An outcome goes to the first transaction of the batch with its txid, and to none when no transaction of
/// the batch has it.
pub proof fn law_outcome_finds_its_transaction(batch: Seq<CoordinatedTxView>, id: Txid, i: int)
    ensures
        0 <= i < batch.len() && batch[i].txid == id && (forall|j: int|
            0 <= j < i ==> (#[trigger] batch[j]).txid != id) ==> find_first(batch, has_txid(id)) == Some(
            batch[i],
        ),
        (forall|j: int| 0 <= j < batch.len() ==> (#[trigger] batch[j]).txid != id) ==> find_first(
            batch,
            has_txid(id),
        ) is None,
{
    let p = has_txid(id);
    if 0 <= i < batch.len() && batch[i].txid == id && (forall|j: int|
        0 <= j < i ==> (#[trigger] batch[j]).txid != id) {
        assert forall|j: int| 0 <= j < i implies !p(#[trigger] batch[j]) by {
            assert(batch[j].txid != id);
        }
        lemma_first_is_found(batch, p, i);
    }
    if forall|j: int| 0 <= j < batch.len() ==> (#[trigger] batch[j]).txid != id {
        lemma_find_first_sound(batch, p);
        if let Some(x) = find_first(batch, p) {
            let k = choose|k: int| 0 <= k < batch.len() && batch[k] == x;
            assert(batch[k].txid != id);
        }
    }
}

// Retries

/// Retries are let through when none were before or when the whole interval has passed since the last
/// ones, and are taken out, and only they, before that; the order is kept. Letting some through starts
/// a new interval, and nothing else does.
pub proof fn law_retries_wait_for_the_interval(
    ctx: EngineContext,
    after: EngineContext,
    txs: Seq<CoordinatedTxView>,
    kept: Seq<CoordinatedTxView>,
    now: u64,
)
    requires
        ctx.holds_back(after, txs, kept, now),
        ctx.coordinator_config.retry_interval_seconds > 0,
    ensures
        ({
            let due = match ctx.last_retry_at {
                None => true,
                Some(last) => now >= last + ctx.coordinator_config.retry_interval_seconds,
            };
            let retried = exists|i: int| 0 <= i < txs.len() && (#[trigger] txs[i]).retry_count > 0;
            &&& due ==> kept == txs
            &&& !due ==> kept == txs.filter(|tx: CoordinatedTxView| tx.retry_count == 0)
            &&& due && retried ==> after.last_retry_at == Some(now)
            &&& !(due && retried) ==> after.last_retry_at == ctx.last_retry_at
        }),
{
    let first = |tx: CoordinatedTxView| tx.retry_count == 0;
    assert(is_first_attempt() =~= first);
}

// Verdicts

/// One of the UTXOs that fund a speedup, of either kind, is gone.
pub open spec fn lost_funding(tx: CoordinatedTxView, gone: Seq<OutPoint>) -> bool {
    tx.kind matches TxKindView::Speedup(kind) && match kind {
        SpeedupKindView::CPFP { context, .. } => lost_one_of(context, gone),
        SpeedupKindView::RBF { context, .. } => lost_one_of(context, gone),
    }
}

/// One of the funding inputs of a context is gone.
pub open spec fn lost_one_of(context: SpeedupContextView, gone: Seq<OutPoint>) -> bool {
    exists|i: int, k: int|
        0 <= i < context.funding_inputs.len() && 0 <= k < gone.len() && (
        #[trigger] context.funding_inputs[i]).txid == (#[trigger] gone[k]).txid
            && context.funding_inputs[i].vout == gone[k].vout
}

/// One of the outpoints that the transaction spends is gone.
pub open spec fn lost_input(tx: CoordinatedTxView, gone: Seq<OutPoint>) -> bool {
    exists|i: int, k: int|
        0 <= i < tx.tx.input.len() && 0 <= k < gone.len() && (#[trigger] tx.tx.input[i]).previous_output
            == #[trigger] gone[k]
}

proof fn lemma_lost_funding(tx: CoordinatedTxView, gone: Seq<OutPoint>)
    ensures
        lost_funding(tx, gone) <==> meet(tx.funding_inputs(), gone),
{
    let ours = tx.funding_inputs();
    if lost_funding(tx, gone) {
        let context = tx.speedup().context();
        let (i, k) = choose|i: int, k: int|
            0 <= i < context.funding_inputs.len() && 0 <= k < gone.len() && (
            #[trigger] context.funding_inputs[i]).txid == (#[trigger] gone[k]).txid
                && context.funding_inputs[i].vout == gone[k].vout;
        assert(ours[i] == gone[k]);
        assert(gone.contains(ours[i]));
    }
    if meet(ours, gone) {
        let context = tx.speedup().context();
        let i = choose|i: int| 0 <= i < ours.len() && gone.contains(#[trigger] ours[i]);
        let k = choose|k: int| 0 <= k < gone.len() && gone[k] == ours[i];
        assert(context.funding_inputs[i].txid == gone[k].txid);
        assert(lost_one_of(context, gone));
    }
}

proof fn lemma_lost_input(tx: CoordinatedTxView, gone: Seq<OutPoint>)
    requires
        !lost_funding(tx, gone),
    ensures
        lost_input(tx, gone) <==> meet(tx.other_inputs(), gone),
{
    lemma_lost_funding(tx, gone);
    let ours = tx.funding_inputs();
    let all = tx.tx.outpoints();
    let others = tx.other_inputs();
    lemma_filter_members(all, not_among(ours));
    if lost_input(tx, gone) {
        let (i, k) = choose|i: int, k: int|
            0 <= i < tx.tx.input.len() && 0 <= k < gone.len() && (
            #[trigger] tx.tx.input[i]).previous_output == #[trigger] gone[k];
        assert(all[i] == gone[k]);
        assert(all.contains(gone[k]));
        assert(gone.contains(gone[k]));
        if ours.contains(gone[k]) {
            let m = choose|m: int| 0 <= m < ours.len() && ours[m] == gone[k];
            assert(gone.contains(ours[m]));
        }
        assert(others.contains(gone[k]));
        let m = choose|m: int| 0 <= m < others.len() && others[m] == gone[k];
        assert(gone.contains(others[m]));
    }
    if meet(others, gone) {
        let m = choose|m: int| 0 <= m < others.len() && gone.contains(#[trigger] others[m]);
        assert(others.contains(others[m]));
        let i = choose|i: int| 0 <= i < all.len() && all[i] == others[m];
        let k = choose|k: int| 0 <= k < gone.len() && gone[k] == others[m];
        assert(tx.tx.input[i].previous_output == gone[k]);
    }
}

/// What a refused broadcast comes to, by the state of the node. A transaction that the node has is
/// accepted; one that lost an input fails, with its funding missing when that is what it lost, unless its
/// guard holds; and one with its inputs intact is retried while it has attempts left.
pub proof fn law_refusal_is_judged_by_the_node(
    tx: CoordinatedTxView,
    message: Seq<char>,
    node: NodeState,
    height: BlockHeight,
    attempts: u32,
)
    ensures
        ({
            let gone = node.gone@;
            let guarded = tx.fail_guard_until matches Some(deadline) && height < deadline;
            let verdict = verdict_of(
                tx,
                DispatchOutcomeView::DispatchError(message),
                node,
                height,
                attempts,
            );
            &&& node.confirmations == Some(0u32) ==> verdict == Verdict::Accepted
            &&& (node.confirmations matches Some(n) && n > 0) ==> verdict == Verdict::AlreadyConfirmed
            &&& node.confirmations is None && lost_funding(tx, gone) ==> verdict == if guarded {
                Verdict::Retry
            } else {
                Verdict::Failed { funding_missing: true }
            }
            &&& node.confirmations is None && !lost_funding(tx, gone) && lost_input(tx, gone) ==> verdict
                == if guarded {
                Verdict::Retry
            } else {
                Verdict::Failed { funding_missing: false }
            }
            &&& node.confirmations is None && !lost_funding(tx, gone) && !lost_input(tx, gone)
                ==> verdict == if tx.retry_count + 1 < attempts {
                Verdict::Retry
            } else {
                Verdict::Failed { funding_missing: false }
            }
        }),
{
    let gone = node.gone@;
    lemma_lost_funding(tx, gone);
    if !lost_funding(tx, gone) {
        lemma_lost_input(tx, gone);
    }
}

/// The node is asked only when it refused the transaction: one that it took is accepted, one that can never
/// be valid fails, and one that lost a parent fails with its funding missing.
pub proof fn law_other_outcomes_need_no_node(
    tx: CoordinatedTxView,
    message: Seq<char>,
    node: NodeState,
    height: BlockHeight,
    attempts: u32,
)
    ensures
        verdict_of(tx, DispatchOutcomeView::Success, node, height, attempts) == Verdict::Accepted,
        verdict_of(tx, DispatchOutcomeView::Fatal(message), node, height, attempts) == (Verdict::Failed {
            funding_missing: false,
        }),
        verdict_of(tx, DispatchOutcomeView::ParentFailed, node, height, attempts) == (Verdict::Failed {
            funding_missing: true,
        }),
{
}

/// Every input of a refused transaction is probed: the funding of a speedup and all that it spends.
pub proof fn law_every_input_is_probed(tx: CoordinatedTxView, i: int)
    ensures
        0 <= i < tx.tx.input.len() ==> (tx.funding_inputs() + tx.other_inputs()).contains(
            tx.tx.input[i].previous_output,
        ),
        tx.kind is Speedup && 0 <= i < tx.speedup().context().funding_inputs.len() ==> (
        tx.funding_inputs() + tx.other_inputs()).contains(
            OutPoint {
                txid: tx.speedup().context().funding_inputs[i].txid,
                vout: tx.speedup().context().funding_inputs[i].vout,
            },
        ),
{
    let ours = tx.funding_inputs();
    let all = tx.tx.outpoints();
    let others = tx.other_inputs();
    let probed = ours + others;
    lemma_filter_members(all, not_among(ours));
    if 0 <= i < tx.tx.input.len() {
        let op = tx.tx.input[i].previous_output;
        assert(all[i] == op);
        assert(all.contains(op));
        if ours.contains(op) {
            let k = choose|k: int| 0 <= k < ours.len() && ours[k] == op;
            assert(probed[k] == op);
        } else {
            assert(others.contains(op));
            let k = choose|k: int| 0 <= k < others.len() && others[k] == op;
            assert(probed[ours.len() + k] == op);
        }
    }
    if tx.kind is Speedup && 0 <= i < tx.speedup().context().funding_inputs.len() {
        assert(probed[i] == ours[i]);
    }
}

// Acting on a verdict

/// A transaction that the node has in its mempool is on record as such, broadcast at this height with the
/// fee that was computed, and its guard is gone; nothing else of it changes.
pub proof fn law_accepted_transaction_is_in_the_mempool(
    store: StoreView,
    tx: CoordinatedTxView,
    height: BlockHeight,
    fee_info: FeeInfo,
)
    ensures
        store.apply_verdict(tx, Verdict::Accepted, height, fee_info).txs[tx.txid] == (CoordinatedTxView {
            state: TransactionState::InMempool,
            broadcast_block_height: Some(height),
            fail_guard_until: None,
            fee_info,
            ..tx
        }),
        store.apply_verdict(tx, Verdict::Accepted, height, fee_info).txs.contains_key(tx.txid),
{
}

/// A transaction that the node has on chain is on record as confirmed; the height of its first broadcast
/// is kept when there was one, and its fee stays as it was.
pub proof fn law_known_transaction_is_confirmed(
    store: StoreView,
    tx: CoordinatedTxView,
    height: BlockHeight,
    fee_info: FeeInfo,
)
    ensures
        ({
            let after = store.apply_verdict(tx, Verdict::AlreadyConfirmed, height, fee_info);
            &&& after.txs.contains_key(tx.txid)
            &&& after.txs[tx.txid].state is Confirmed
            &&& after.txs[tx.txid].fail_guard_until is None
            &&& tx.broadcast_block_height is Some ==> after.txs[tx.txid].broadcast_block_height
                == tx.broadcast_block_height
            &&& tx.broadcast_block_height is None ==> after.txs[tx.txid].broadcast_block_height == Some(
                height,
            )
            &&& after.txs[tx.txid] == (CoordinatedTxView {
                state: after.txs[tx.txid].state,
                fail_guard_until: after.txs[tx.txid].fail_guard_until,
                broadcast_block_height: after.txs[tx.txid].broadcast_block_height,
                ..tx
            })
        }),
{
}

/// A replacement that is on the node marks the speedup that it replaces, and nothing else of that one
/// changes; no other record is touched, and neither are the lists or the news.
pub proof fn law_replacement_marks_its_predecessor(
    store: StoreView,
    tx: CoordinatedTxView,
    verdict: Verdict,
    height: BlockHeight,
    fee_info: FeeInfo,
    replaces: Txid,
    other: Txid,
)
    requires
        store.is_keyed(),
        verdict is Accepted || verdict is AlreadyConfirmed,
        tx.kind matches TxKindView::Speedup(SpeedupKindView::RBF { replaces: id, .. }) && id == replaces,
        store.txs.contains_key(replaces),
        store.txs[replaces].kind is Speedup,
        replaces != tx.txid,
        other != tx.txid && other != replaces,
    ensures
        ({
            let after = store.apply_verdict(tx, verdict, height, fee_info);
            let before = store.txs[replaces];
            let marked = after.txs[replaces];
            &&& marked.kind matches TxKindView::Speedup(kind) && kind.context() == (SpeedupContextView {
                replaced_by: Some(tx.txid),
                ..before.kind->Speedup_0.context()
            })
            &&& marked == (CoordinatedTxView { kind: marked.kind, ..before })
            &&& after.txs.get(other) == store.txs.get(other)
            &&& after == (StoreView { txs: after.txs, ..store })
        }),
{
}

/// Any other transaction that is on the node touches no other record, no list and no news.
pub proof fn law_acceptance_is_local(
    store: StoreView,
    tx: CoordinatedTxView,
    verdict: Verdict,
    height: BlockHeight,
    fee_info: FeeInfo,
    other: Txid,
)
    requires
        verdict is Accepted || verdict is AlreadyConfirmed,
        !(tx.kind matches TxKindView::Speedup(SpeedupKindView::RBF { .. })),
        other != tx.txid,
    ensures
        ({
            let after = store.apply_verdict(tx, verdict, height, fee_info);
            &&& after.txs.get(other) == store.txs.get(other)
            &&& after == (StoreView { txs: after.txs, ..store })
        }),
{
}

/// A transaction that is to be tried again waits to be dispatched with one more attempt counted; nothing
/// else changes.
pub proof fn law_retry_counts_the_attempt(
    store: StoreView,
    tx: CoordinatedTxView,
    height: BlockHeight,
    fee_info: FeeInfo,
)
    requires
        store.is_keyed(),
        store.txs.contains_key(tx.txid),
        store.txs[tx.txid].state is ToDispatch || store.txs[tx.txid].state is InMempool
            || store.txs[tx.txid].state is Confirmed,
        store.txs[tx.txid].retry_count < u32::MAX,
    ensures
        store.apply_verdict(tx, Verdict::Retry, height, fee_info) == store.put(
            CoordinatedTxView {
                state: TransactionState::ToDispatch,
                retry_count: (store.txs[tx.txid].retry_count + 1) as u32,
                ..store.txs[tx.txid]
            },
        ),
{
}

/// A transaction that is on the node is followed: under its txid and context, with the trigger that the
/// client asked for, in the mempool too.
pub proof fn law_broadcast_transaction_is_followed(tx: CoordinatedTxView)
    ensures
        watch_broadcast(tx) == (MonitorRequestView::Watch {
            txids: seq![tx.txid],
            context: tx.context,
            confirmation_trigger: tx.confirmation_trigger,
            search_in_mempool: true,
        }),
{
}

// Counting

/// A broadcast is counted once, with its size and its dust, under its own label, and under no other.
pub proof fn law_broadcast_counts_once(
    counters: Map<Seq<char>, BroadcastEntry>,
    tx: CoordinatedTxView,
    dust_limit: u64,
    other: Seq<char>,
)
    requires
        other != label_of(tx),
        counted(counters, label_of(tx)).count < u64::MAX,
        counted(counters, label_of(tx)).vbytes + tx.tx.vsize() <= u64::MAX,
        counted(counters, label_of(tx)).dust_sats + dust_of(tx.tx.output, dust_limit) <= u64::MAX,
    ensures
        ({
            let after = with_broadcast(counters, tx, dust_limit);
            let before = counted(counters, label_of(tx));
            &&& after.contains_key(label_of(tx))
            &&& after[label_of(tx)].count == before.count + 1
            &&& after[label_of(tx)].vbytes == before.vbytes + tx.tx.vsize()
            &&& after[label_of(tx)].dust_sats == before.dust_sats + dust_of(tx.tx.output, dust_limit)
            &&& after.contains_key(other) == counters.contains_key(other)
            &&& counters.contains_key(other) ==> after[other] == counters[other]
        }),
{
    lemma_dust_is_positive(tx.tx.output, dust_limit);
}

proof fn lemma_dust_is_positive(outputs: Seq<TxOutView>, dust_limit: u64)
    ensures
        dust_of(outputs, dust_limit) >= 0,
    decreases outputs.len(),
{
    if outputs.len() > 0 {
        lemma_dust_is_positive(outputs.drop_last(), dust_limit);
    }
}

/// A label that was never counted stands at zero.
pub proof fn law_nothing_is_counted_at_first(label: Seq<char>)
    ensures
        counted(Map::<Seq<char>, BroadcastEntry>::empty(), label) == (BroadcastEntry {
            count: 0,
            vbytes: 0,
            dust_sats: 0,
        }),
{
}

/// Every output up to the dust limit counts with its value, and no other does.
pub proof fn law_every_dust_output_counts(outputs: Seq<TxOutView>, more: TxOutView, dust_limit: u64)
    ensures
        dust_of(Seq::<TxOutView>::empty(), dust_limit) == 0,
        more.value <= dust_limit ==> dust_of(outputs.push(more), dust_limit) == dust_of(
            outputs,
            dust_limit,
        ) + more.value,
        more.value > dust_limit ==> dust_of(outputs.push(more), dust_limit) == dust_of(outputs, dust_limit),
{
    assert(outputs.push(more).drop_last() =~= outputs);
}

/// Transactions are counted apart by kind and by context: two have the same label exactly when they agree
/// in both.
pub proof fn law_labels_tell_kinds_and_contexts_apart(a: CoordinatedTxView, b: CoordinatedTxView)
    ensures
        label_of(a) == label_of(b) <==> a.context == b.context && stats_kind(a.kind) == stats_kind(b.kind),
        stats_kind(a.kind) == stats_kind(b.kind) <==> (a.kind is Normal <==> b.kind is Normal) && (
        a.kind is NeedsSpeedup <==> b.kind is NeedsSpeedup) && (a.kind is Speedup <==> b.kind is Speedup)
            && (a.kind is Funding <==> b.kind is Funding),
{
    reveal_strlit("normal");
    reveal_strlit("needs_speedup");
    reveal_strlit("speedup");
    reveal_strlit("funding");
    reveal_strlit("|");
    let x = stats_kind(a.kind);
    let y = stats_kind(b.kind);
    assert(x[0] == 'n' || x[0] == 's' || x[0] == 'f');
    if x == y {
        assert(x[0] == y[0] && x[1] == y[1]);
    }
    let left = label_of(a);
    let right = label_of(b);
    if left == right {
        assert(left[0] == x[0] && left[1] == x[1]);
        assert(right[0] == y[0] && right[1] == y[1]);
        assert(x == y);
        let n = x.len() + 1;
        assert(a.context =~= left.skip(n as int));
        assert(b.context =~= right.skip(n as int));
    }
}

/// The counters of a list of labels are found under each of them, and under no other.
pub proof fn law_counters_are_found_by_label(
    entries: Seq<(String, BroadcastEntry)>,
    i: int,
    label: Seq<char>,
)
    requires
        forall|a: int, b: int|
            0 <= a < b < entries.len() ==> (#[trigger] entries[a]).0@ != (#[trigger] entries[b]).0@,
    ensures
        0 <= i < entries.len() ==> tally(entries).contains_key(entries[i].0@) && tally(
            entries,
        )[entries[i].0@] == entries[i].1,
        tally(entries).contains_key(label) ==> exists|k: int|
            0 <= k < entries.len() && (#[trigger] entries[k]).0@ == label,
{
    if 0 <= i < entries.len() {
        assert(is_place_of(entries, entries[i].0@, i));
        let p = choose|p: int| is_place_of(entries, entries[i].0@, p);
        assert(is_place_of(entries, entries[i].0@, p));
        if p < i {
            assert(entries[p].0@ != entries[i].0@);
        }
        if i < p {
            assert(entries[i].0@ != entries[p].0@);
        }
    }
    if tally(entries).contains_key(label) {
        let k = choose|k: int| is_place_of(entries, label, k);
        assert(is_place_of(entries, label, k));
        assert(entries[k].0@ == label);
    }
}

/// The totals add up the counters of every label.
pub proof fn law_every_label_counts_in_the_totals(
    entries: Seq<(String, BroadcastEntry)>,
    more: (String, BroadcastEntry),
)
    ensures
        sum_count(entries.push(more)) == sum_count(entries) + more.1.count,
        sum_vbytes(entries.push(more)) == sum_vbytes(entries) + more.1.vbytes,
        sum_dust(entries.push(more)) == sum_dust(entries) + more.1.dust_sats,
        entries.len() == 0 ==> sum_count(entries) == 0 && sum_vbytes(entries) == 0 && sum_dust(entries)
            == 0,
{
    assert(entries.push(more).drop_last() =~= entries);
}

/// A broadcast is counted whenever the totals still fit in 64 bits with it.
pub proof fn law_broadcast_is_counted_where_it_fits(
    entries: Seq<(String, BroadcastEntry)>,
    tx: CoordinatedTxView,
    dust_limit: u64,
)
    ensures
        has_room_for(entries, tx, dust_limit) <==> sum_count(entries) + 1 <= u64::MAX && sum_vbytes(entries)
            + tx.tx.vsize() <= u64::MAX && sum_dust(entries) + dust_of(tx.tx.output, dust_limit)
            <= u64::MAX,
{
}

/// Labels in order are all different, so that the counters of a transaction have one place.
pub proof fn law_labels_in_order_are_different(entries: Seq<(String, BroadcastEntry)>, a: int, b: int)
    requires
        labels_in_order(entries),
        0 <= a < b < entries.len(),
    ensures
        entries[a].0@ != entries[b].0@,
        precedes(entries[a].0@, entries[b].0@),
{
    lemma_precedes_total(entries[a].0@, entries[b].0@);
}

} // verus!
