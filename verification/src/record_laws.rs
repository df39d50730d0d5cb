use crate::dispatcher::DispatchOutcomeView;
use crate::funding::release;
use crate::lemmas::{
    lemma_filter_map_members, lemma_filter_map_step, lemma_filter_step, lemma_filter_twice,
};
use crate::lifecycle::is_under_review;
use crate::model::{
    any_record, funding_record, in_state, is_active, is_settled, lists_selected, lookup, not_listed,
    NewsItemView, StoreView,
};
use crate::primitives::{BlockHeight, Txid};
use crate::types::{
    CoordinatedTxView, CoordinatorNewsView, FundingData, FundingEntry, SpeedupContextView,
    SpeedupKindView, TransactionState, TxKindView, TxStatus, Utxo,
};
use vstd::prelude::*;

verus! {

// Steps

/// A transaction may move from any state that is not terminal to any other, except that one on chain does
/// not fail; a terminal state is never left.
pub proof fn law_lifecycle_steps(from: TransactionState, next: TransactionState)
    ensures
        from.may_become(next) <==> from == next || from is ToDispatch || from is InMempool || (
        from is Confirmed && !(next is Failed)),
        from.is_terminal() <==> from is Finalized || from is Failed,
{
}

/// A step that is allowed sets the state; a terminal one records the height at which the transaction was
/// settled. Nothing else of the record changes, and nothing else in the store.
pub proof fn law_allowed_step_sets_the_state(
    store: StoreView,
    id: Txid,
    next: TransactionState,
    height: Option<BlockHeight>,
)
    requires
        store.is_keyed(),
        store.txs.contains_key(id),
        store.txs[id].state is ToDispatch || store.txs[id].state is InMempool || (
        store.txs[id].state is Confirmed && !(next is Failed)),
    ensures
        store.transition(id, next, height) == (StoreView {
            txs: store.txs.insert(
                id,
                CoordinatedTxView {
                    state: next,
                    settled_block_height: if next is Finalized || next is Failed {
                        height
                    } else {
                        store.txs[id].settled_block_height
                    },
                    ..store.txs[id]
                },
            ),
            ..store
        }),
{
}

/// A step of a transaction that is not on record is reported and changes nothing else.
pub proof fn law_missing_record_is_reported(
    store: StoreView,
    id: Txid,
    next: TransactionState,
    height: Option<BlockHeight>,
)
    requires
        !store.txs.contains_key(id),
    ensures
        store.transition(id, next, height) == store.report(CoordinatorNewsView::TxNotFound { txid: id }),
{
}

/// Settling at a height records that height.
pub proof fn law_settling_records_the_height(
    store: StoreView,
    id: Txid,
    next: TransactionState,
    height: BlockHeight,
)
    requires
        store.is_keyed(),
        store.txs.contains_key(id),
        next is Finalized || next is Failed,
        store.txs[id].state is ToDispatch || store.txs[id].state is InMempool || (
        store.txs[id].state is Confirmed && next is Finalized),
    ensures
        store.settle(id, next, height) == store.put(
            CoordinatedTxView {
                state: next,
                settled_block_height: Some(height),
                ..store.txs[id]
            },
        ),
{
}

// Listings

/// A listing of what is still acted on holds each record that is neither final nor failed, and a listing of
/// what is settled each of the others.
pub proof fn law_active_and_settled_part_the_records(
    active: Seq<CoordinatedTxView>,
    settled: Seq<CoordinatedTxView>,
    txs: Map<Txid, CoordinatedTxView>,
    id: Txid,
)
    requires
        lists_selected(active, txs, is_active()),
        lists_selected(settled, txs, is_settled()),
        txs.contains_key(id),
    ensures
        active.contains(txs[id]) <==> txs[id].state is ToDispatch || txs[id].state is InMempool
            || txs[id].state is Confirmed,
        settled.contains(txs[id]) <==> txs[id].state is Finalized || txs[id].state is Failed,
{
    lemma_listed(active, txs, is_active(), id);
    lemma_listed(settled, txs, is_settled(), id);
}

proof fn lemma_listed(
    listing: Seq<CoordinatedTxView>,
    txs: Map<Txid, CoordinatedTxView>,
    keep: spec_fn(CoordinatedTxView) -> bool,
    id: Txid,
)
    requires
        lists_selected(listing, txs, keep),
        txs.contains_key(id),
    ensures
        listing.contains(txs[id]) <==> keep(txs[id]),
{
    if keep(txs[id]) {
        let i = choose|i: int| 0 <= i < listing.len() && #[trigger] listing[i] == txs[id];
        assert(listing.contains(txs[id]));
    }
    if listing.contains(txs[id]) {
        let i = choose|i: int| 0 <= i < listing.len() && listing[i] == txs[id];
        assert(keep(listing[i]));
    }
}

/// Every transaction in the mempool or on chain that is no speedup is reviewed until it is final, and no
/// other.
pub proof fn law_transactions_in_flight_are_reviewed(
    listing: Seq<CoordinatedTxView>,
    txs: Map<Txid, CoordinatedTxView>,
    id: Txid,
)
    requires
        lists_selected(listing, txs, is_under_review()),
        txs.contains_key(id),
    ensures
        listing.contains(txs[id]) <==> (txs[id].state is InMempool || txs[id].state is Confirmed) && (
        txs[id].kind is Normal || txs[id].kind is NeedsSpeedup || txs[id].kind is Funding),
{
    lemma_listed(listing, txs, is_under_review(), id);
}

// Reviews

/// A transaction that the monitor calls final is final, settled at this height; nothing else of it changes,
/// and nothing else in the store.
pub proof fn law_final_transactions_are_settled(
    store: StoreView,
    tx: CoordinatedTxView,
    status: TxStatus,
    height: BlockHeight,
    max_confirmations: u32,
)
    requires
        store.is_keyed(),
        store.txs.contains_key(tx.txid),
        store.txs[tx.txid] == tx,
        tx.state is InMempool || tx.state is Confirmed,
        status.finalized && !status.in_mempool && !status.not_found,
    ensures
        store.review_transaction(tx, status, height, max_confirmations) == store.put(
            CoordinatedTxView {
                state: TransactionState::Finalized,
                settled_block_height: Some(height),
                ..tx
            },
        ),
{
}

/// A transaction that is on chain, but not final, is confirmed; nothing else changes.
pub proof fn law_transactions_on_chain_are_confirmed(
    store: StoreView,
    tx: CoordinatedTxView,
    all: Seq<CoordinatedTxView>,
    status: TxStatus,
    height: BlockHeight,
    max_confirmations: u32,
)
    requires
        store.is_keyed(),
        store.txs.contains_key(tx.txid),
        store.txs[tx.txid] == tx,
        tx.state is InMempool || tx.state is Confirmed,
        status.confirmed && !status.finalized && !status.in_mempool && !status.not_found,
    ensures
        ({
            let after = store.put(
                CoordinatedTxView { state: TransactionState::Confirmed, ..tx },
            );
            &&& store.review_transaction(tx, status, height, max_confirmations) == after
            &&& store.review_speedup(tx, all, status, height, max_confirmations) == after
        }),
{
}

/// A transaction that was orphaned is back in the mempool; nothing else of it changes, not even the height
/// of its broadcast.
pub proof fn law_orphans_keep_their_record(
    store: StoreView,
    tx: CoordinatedTxView,
    all: Seq<CoordinatedTxView>,
    status: TxStatus,
    height: BlockHeight,
    max_confirmations: u32,
)
    requires
        store.is_keyed(),
        store.txs.contains_key(tx.txid),
        store.txs[tx.txid] == tx,
        tx.state is InMempool || tx.state is Confirmed,
        status.orphan && !status.confirmed && !status.finalized && !status.in_mempool
            && !status.not_found,
    ensures
        ({
            let after = store.put(
                CoordinatedTxView { state: TransactionState::InMempool, ..tx },
            );
            &&& store.review_transaction(tx, status, height, max_confirmations) == after
            &&& store.review_speedup(tx, all, status, height, max_confirmations) == after
        }),
{
}

/// A confirmed transaction that is back in the mempool is broadcast anew at this height; nothing else of it
/// changes.
pub proof fn law_reorged_transactions_keep_their_record(
    store: StoreView,
    tx: CoordinatedTxView,
    all: Seq<CoordinatedTxView>,
    status: TxStatus,
    height: BlockHeight,
    max_confirmations: u32,
)
    requires
        tx.state is Confirmed,
        status.in_mempool,
    ensures
        ({
            let after = store.put(
                CoordinatedTxView {
                    state: TransactionState::InMempool,
                    broadcast_block_height: Some(height),
                    ..tx
                },
            );
            &&& store.review_transaction(tx, status, height, max_confirmations) == after
            &&& store.review_speedup(tx, all, status, height, max_confirmations) == after
        }),
{
}

/// A transaction that is in the mempool as expected stays as it is. It is reported once it has been there
/// for as many blocks as its limit says, and not before; without a limit it never is.
pub proof fn law_stuck_is_as_long_as_the_limit(
    store: StoreView,
    tx: CoordinatedTxView,
    status: TxStatus,
    height: BlockHeight,
    max_confirmations: u32,
)
    requires
        tx.state is InMempool,
        status.in_mempool,
    ensures
        ({
            let after = store.review_transaction(tx, status, height, max_confirmations);
            let news = CoordinatorNewsView::TransactionStuckInMempool {
                txid: tx.txid,
                context: tx.context,
            };
            match (tx.stuck_in_mempool_blocks, tx.broadcast_block_height) {
                (Some(limit), Some(broadcast)) => if limit == 0 || height >= broadcast + limit {
                    after == store.report(news)
                } else {
                    after == store
                },
                _ => after == store,
            }
        }),
{
}

/// A speedup that is in the mempool as expected stays as it is, and so does a transaction about which the
/// monitor knows nothing.
pub proof fn law_nothing_new_changes_nothing(
    store: StoreView,
    tx: CoordinatedTxView,
    all: Seq<CoordinatedTxView>,
    status: TxStatus,
    height: BlockHeight,
    max_confirmations: u32,
)
    ensures
        status.in_mempool && !(tx.state is Confirmed) ==> store.review_speedup(
            tx,
            all,
            status,
            height,
            max_confirmations,
        ) == store,
        !status.in_mempool && !status.not_found && !status.finalized && !status.confirmed && !status.orphan
            ==> store.review_transaction(tx, status, height, max_confirmations) == store
            && store.review_speedup(tx, all, status, height, max_confirmations) == store,
{
}

/// A transaction that is lost is queued again, its guard armed until `max_confirmations` blocks from now
/// unless it was armed before; nothing else of it changes. That holds of a speedup too, of either kind,
/// unless it is being replaced.
pub proof fn law_lost_transactions_keep_their_record(
    store: StoreView,
    tx: CoordinatedTxView,
    all: Seq<CoordinatedTxView>,
    status: TxStatus,
    height: BlockHeight,
    max_confirmations: u32,
)
    requires
        store.is_keyed(),
        store.txs.contains_key(tx.txid),
        store.txs[tx.txid] == tx,
        tx.state is InMempool || tx.state is Confirmed,
        status.not_found && !status.in_mempool,
        height + max_confirmations <= u32::MAX,
    ensures
        ({
            let after = store.put(
                CoordinatedTxView {
                    state: TransactionState::ToDispatch,
                    fail_guard_until: Some(
                        match tx.fail_guard_until {
                            Some(armed) => armed,
                            None => (height + max_confirmations) as u32,
                        },
                    ),
                    ..tx
                },
            );
            &&& store.review_transaction(tx, status, height, max_confirmations) == after
            &&& (tx.kind matches TxKindView::Speedup(kind) && kind.context().replaced_by is None) && (
            forall|j: int|
                0 <= j < all.len() ==> (#[trigger] all[j]).state is Failed || !(
                all[j].kind matches TxKindView::Speedup(SpeedupKindView::RBF { replaces, .. }) && replaces
                    == tx.txid)) ==> store.review_speedup(tx, all, status, height, max_confirmations)
                == after
            &&& (tx.kind matches TxKindView::Speedup(kind) && kind.context().replaced_by is Some)
                ==> store.review_speedup(tx, all, status, height, max_confirmations) == store
        }),
{
}

/// A review takes the transactions one after the other, each with its own status.
pub proof fn law_every_status_is_reviewed(
    store: StoreView,
    txs: Seq<CoordinatedTxView>,
    statuses: Seq<TxStatus>,
    more: TxStatus,
    height: BlockHeight,
    max_confirmations: u32,
)
    ensures
        store.review_transactions(txs, Seq::<TxStatus>::empty(), height, max_confirmations) == store,
        store.review_transactions(txs, statuses.push(more), height, max_confirmations)
            == store.review_transactions(txs, statuses, height, max_confirmations).review_transaction(
            txs[statuses.len() as int],
            more,
            height,
            max_confirmations,
        ),
{
    assert(statuses.push(more).drop_last() =~= statuses);
}

// Eviction

/// A listed CPFP that is neither final nor failed covers the parent.
pub open spec fn is_still_covered(store: StoreView, id: Txid) -> bool {
    exists|i: int|
        0 <= i < store.speedups.len() && store.txs.contains_key(#[trigger] store.speedups[i]) && !(
        store.txs[store.speedups[i]].state is Finalized) && !(
        store.txs[store.speedups[i]].state is Failed) && (
        store.txs[store.speedups[i]].kind matches TxKindView::Speedup(
            SpeedupKindView::CPFP { parents, .. },
        ) && parents.contains(id))
}

/// A record is evicted as soon as it was settled for the configured number of blocks, whatever it is, unless
/// it stands in the funding queue or is a parent that waits for a CPFP or is still covered by one.
pub proof fn law_settled_records_are_evicted(
    store: StoreView,
    id: Txid,
    height: BlockHeight,
    max_tracking: u32,
    settled: BlockHeight,
)
    requires
        store.txs.contains_key(id),
        store.txs[id].state is Finalized || store.txs[id].state is Failed,
        store.txs[id].settled_block_height == Some(settled),
        height >= settled + max_tracking,
        !store.funding.contains(FundingEntry::Record(id)),
        store.txs[id].kind is NeedsSpeedup ==> !store.pending.contains(id) && !is_still_covered(store, id),
    ensures
        store.evictable(height, max_tracking).contains(id),
{
    lemma_still_covered(store, id);
}

/// Nothing else is evicted: not what is still active, not what was settled more recently, and not what is
/// still needed.
pub proof fn law_only_old_records_are_evicted(
    store: StoreView,
    id: Txid,
    height: BlockHeight,
    max_tracking: u32,
)
    requires
        store.evictable(height, max_tracking).contains(id),
    ensures
        store.txs.contains_key(id),
        store.txs[id].state is Finalized || store.txs[id].state is Failed,
        store.txs[id].settled_block_height matches Some(settled) && (max_tracking == 0 || height
            >= settled + max_tracking),
        !store.funding.contains(FundingEntry::Record(id)),
        store.txs[id].kind is NeedsSpeedup ==> !store.pending.contains(id) && !is_still_covered(store, id),
{
    lemma_still_covered(store, id);
}

proof fn lemma_still_covered(store: StoreView, id: Txid)
    ensures
        is_still_covered(store, id) <==> store.is_live_covered(id),
{
    if is_still_covered(store, id) {
        let i = choose|i: int|
            0 <= i < store.speedups.len() && store.txs.contains_key(#[trigger] store.speedups[i]) && !(
            store.txs[store.speedups[i]].state is Finalized) && !(
            store.txs[store.speedups[i]].state is Failed) && (
            store.txs[store.speedups[i]].kind matches TxKindView::Speedup(
                SpeedupKindView::CPFP { parents, .. },
            ) && parents.contains(id));
        assert(store.covers(store.speedups[i], id));
    }
    if store.is_live_covered(id) {
        let i = choose|i: int| 0 <= i < store.speedups.len() && store.covers(#[trigger] store.speedups[i], id);
        assert(store.txs.contains_key(store.speedups[i]));
    }
}

/// Every eviction is announced, with the txid and the context of the record, and nothing else is; the news
/// that was there stays in place.
pub proof fn law_evictions_are_announced(
    store: StoreView,
    news: Seq<NewsItemView>,
    gone: Set<Txid>,
    id: Txid,
    i: int,
)
    requires
        store.reports_evictions(news, gone),
    ensures
        gone.contains(id) ==> exists|k: int|
            0 <= k < news.len() && (#[trigger] news[k]).news
                == (CoordinatorNewsView::TransactionEvicted { txid: id, context: store.txs[id].context }),
        0 <= i < store.news.len() ==> i < news.len() && news[i] == store.news[i],
        store.news.len() <= i < news.len() ==> exists|x: Txid| #[trigger]
            gone.contains(x) && news[i] == (NewsItemView {
                news: CoordinatorNewsView::TransactionEvicted { txid: x, context: store.txs[x].context },
                acked_at_block: None,
                shown_at_block: None,
            }),
{
    if 0 <= i < store.news.len() {
        assert(news.take(store.news.len() as int)[i] == store.news[i]);
    }
    if store.news.len() <= i < news.len() {
        assert(store.is_fresh_eviction(news[i], gone));
    }
}

// Failing

/// A transaction of the client whose dispatch failed is settled as such at this height and reported, with
/// its context; nothing else changes, whether or not its funding is said to be missing.
pub proof fn law_failure_is_settled_and_reported(
    store: StoreView,
    tx: CoordinatedTxView,
    height: BlockHeight,
    funding_missing: bool,
)
    requires
        store.is_keyed(),
        store.txs.contains_key(tx.txid),
        store.txs[tx.txid] == tx,
        tx.state is ToDispatch || tx.state is InMempool,
        tx.kind is Normal || tx.kind is NeedsSpeedup,
    ensures
        store.settle_failed(tx, height, funding_missing) == store.put(
            CoordinatedTxView {
                state: TransactionState::Failed,
                settled_block_height: Some(height),
                ..tx
            },
        ).report(CoordinatorNewsView::DispatchError { txid: tx.txid, context: tx.context }),
{
}

/// A CPFP that failed is settled and reported in the same way, as a speedup. It gives all its funding back
/// and, when its funding is missing, leaves the parents that were registered for speedup to be covered
/// first, in their order.
pub proof fn law_failed_cpfp_leaves_its_parents_in_front(
    store: StoreView,
    tx: CoordinatedTxView,
    height: BlockHeight,
    funding_missing: bool,
    parents: Seq<Txid>,
    inputs: Seq<Utxo>,
)
    requires
        store.is_keyed(),
        store.txs.contains_key(tx.txid),
        store.txs[tx.txid] == tx,
        tx.state is ToDispatch || tx.state is InMempool,
        tx.kind matches TxKindView::Speedup(SpeedupKindView::CPFP { parents: covered, context })
            && covered == parents && context.funding_inputs == inputs,
    ensures
        ({
            let after = store.settle_failed(tx, height, funding_missing);
            let reported = store.put(
                CoordinatedTxView {
                    state: TransactionState::Failed,
                    settled_block_height: Some(height),
                    ..tx
                },
            ).report(
                CoordinatorNewsView::SpeedupDispatchError { txid: tx.txid, context: tx.context },
            );
            &&& after == (StoreView { pending: after.pending, ..release(reported, inputs) })
            &&& !funding_missing ==> after.pending == store.pending
            &&& funding_missing ==> after.pending == parents.filter(
                |id: Txid|
                    store.txs.contains_key(id) && store.txs[id].kind is NeedsSpeedup
                        && !store.pending.contains(id),
            ) + store.pending
        }),
{
    let reported = store.put(
        CoordinatedTxView {
            state: TransactionState::Failed,
            settled_block_height: Some(height),
            ..tx
        },
    ).report(CoordinatorNewsView::SpeedupDispatchError { txid: tx.txid, context: tx.context });
    let released = release(reported, inputs);
    lemma_release_keeps_kinds(reported, inputs);
    if funding_missing {
        let again = |id: Txid|
            store.txs.contains_key(id) && store.txs[id].kind is NeedsSpeedup && !store.pending.contains(
                id,
            );
        let protocol = released.is_protocol_parent();
        let absent = not_listed(released.pending);
        assert forall|id: Txid| #[trigger] again(id) <==> protocol(id) && absent(id) by {
            assert(released.txs.contains_key(id) == reported.txs.contains_key(id));
        }
        lemma_filter_twice(parents, protocol, absent, again);
    }
}

/// Releasing claims takes no record away, changes no kind into another, and leaves the pending list alone.
proof fn lemma_release_keeps_kinds(store: StoreView, utxos: Seq<Utxo>)
    requires
        store.is_keyed(),
    ensures
        release(store, utxos).is_keyed(),
        release(store, utxos).pending == store.pending,
        forall|id: Txid| #[trigger]
            release(store, utxos).txs.contains_key(id) == store.txs.contains_key(id),
        forall|id: Txid| #[trigger]
            release(store, utxos).txs.contains_key(id) ==> (release(
                store,
                utxos,
            ).txs[id].kind is NeedsSpeedup <==> store.txs[id].kind is NeedsSpeedup),
    decreases utxos.len(),
{
    if utxos.len() > 0 {
        lemma_release_keeps_kinds(store, utxos.drop_last());
        let before = release(store, utxos.drop_last());
        let after = release(store, utxos);
        assert forall|id: Txid| #[trigger] after.txs.contains_key(id) == store.txs.contains_key(id) by {
            assert(before.txs.contains_key(id) == store.txs.contains_key(id));
        }
        assert forall|id: Txid| #[trigger] after.txs.contains_key(id) implies (
        after.txs[id].kind is NeedsSpeedup <==> store.txs[id].kind is NeedsSpeedup)
            && after.txs[id].txid == id by {
            assert(before.txs.contains_key(id));
        }
    }
}

/// An RBF that failed is settled and reported in the same way. It gives back what it claimed itself, and
/// its mark is taken off the speedup that it was to replace; besides that nothing changes, and no parent
/// waits on its account.
pub proof fn law_failed_rbf_gives_back_its_own_claims(
    store: StoreView,
    tx: CoordinatedTxView,
    height: BlockHeight,
    funding_missing: bool,
    replaces: Txid,
    claimed: Seq<Utxo>,
)
    requires
        store.is_keyed(),
        store.txs.contains_key(tx.txid),
        store.txs[tx.txid] == tx,
        tx.state is ToDispatch || tx.state is InMempool,
        tx.kind matches TxKindView::Speedup(SpeedupKindView::RBF { replaces: id, new_funding_inputs, .. })
            && id == replaces && new_funding_inputs == claimed,
    ensures
        ({
            let after = store.settle_failed(tx, height, funding_missing);
            let reported = store.put(
                CoordinatedTxView {
                    state: TransactionState::Failed,
                    settled_block_height: Some(height),
                    ..tx
                },
            ).report(
                CoordinatorNewsView::SpeedupDispatchError { txid: tx.txid, context: tx.context },
            );
            let released = release(reported, claimed);
            &&& after.pending == store.pending
            &&& after == (StoreView { txs: after.txs, ..released })
            &&& forall|id: Txid|
                id != replaces ==> #[trigger] after.txs.get(id) == released.txs.get(id)
            &&& released.txs.contains_key(replaces) && released.txs[replaces].kind is Speedup ==> {
                let before = released.txs[replaces];
                &&& after.txs[replaces] == (CoordinatedTxView { kind: after.txs[replaces].kind, ..before })
                &&& after.txs[replaces].kind matches TxKindView::Speedup(kind) && kind.context() == (
                SpeedupContextView { replaced_by: None, ..before.kind->Speedup_0.context() })
            }
        }),
{
    let reported = store.put(
        CoordinatedTxView {
            state: TransactionState::Failed,
            settled_block_height: Some(height),
            ..tx
        },
    ).report(CoordinatorNewsView::SpeedupDispatchError { txid: tx.txid, context: tx.context });
    lemma_release_keeps_kinds(reported, claimed);
    let released = release(reported, claimed);
    assert forall|id: Txid| id != replaces implies #[trigger] store.settle_failed(
        tx,
        height,
        funding_missing,
    ).txs.get(id) == released.txs.get(id) by {
        if released.txs.contains_key(replaces) {
            assert(released.txs[replaces].txid == replaces);
        }
    }
}

/// A speedup depends on the transaction that its first funding input comes from and on each parent that it
/// covers; no other transaction depends on any.
pub proof fn law_speedups_depend_on_funding_and_parents(tx: CoordinatedTxView, id: Txid)
    ensures
        !(tx.kind is Speedup) ==> !tx.depends_on(id),
        tx.kind matches TxKindView::Speedup(SpeedupKindView::CPFP { parents, context }) ==> (tx.depends_on(
            id,
        ) <==> parents.contains(id) || (context.funding_inputs.len() > 0 && context.funding_inputs[0].txid
            == id)),
        tx.kind matches TxKindView::Speedup(SpeedupKindView::RBF { context, .. }) ==> (tx.depends_on(id)
            <==> context.funding_inputs.len() > 0 && context.funding_inputs[0].txid == id),
{
}

/// A failure of a batch calls off a boost exactly when a boost has failed: a replacement, or a CPFP on top
/// of a speedup, which covers no registered parent.
pub proof fn law_failed_boosts_are_noticed(store: StoreView, batch: Seq<CoordinatedTxView>, i: int)
    ensures
        0 <= i < batch.len() && store.txs.contains_key(batch[i].txid)
            && store.txs[batch[i].txid].state is Failed && (match batch[i].kind {
            TxKindView::Speedup(SpeedupKindView::RBF { .. }) => true,
            TxKindView::Speedup(SpeedupKindView::CPFP { context, .. }) => context.parent_data.len() == 0,
            _ => false,
        }) ==> store.lost_a_boost(batch),
        (forall|j: int|
            0 <= j < batch.len() ==> !(store.txs.contains_key((#[trigger] batch[j]).txid)
                && store.txs[batch[j].txid].state is Failed) || (
            batch[j].kind matches TxKindView::Speedup(SpeedupKindView::CPFP { context, .. })
                && context.parent_data.len() > 0)) ==> !store.lost_a_boost(batch),
{
    if 0 <= i < batch.len() && batch[i].is_boost() && store.has_failed(batch[i].txid) {
        assert(store.lost_a_boost(batch));
    }
}

/// A speedup is lost with a parent exactly when a transaction that it spends from is on record as failed;
/// it is then not sent, and otherwise it is. The order of the batch is kept on both sides.
pub proof fn law_speedups_are_lost_with_a_parent(
    store: StoreView,
    batch: Seq<CoordinatedTxView>,
    more: CoordinatedTxView,
)
    ensures
        ({
            let lost = exists|i: int|
                0 <= i < more.tx.input.len() && store.txs.contains_key(
                    (#[trigger] more.tx.input[i]).previous_output.txid,
                ) && store.txs[more.tx.input[i].previous_output.txid].state is Failed;
            let sent = batch.filter(store.has_intact_parents());
            let outcomes = batch.filter_map(store.lost_with_parent());
            let now_sent = batch.push(more).filter(store.has_intact_parents());
            let now_outcomes = batch.push(more).filter_map(store.lost_with_parent());
            &&& lost ==> now_sent == sent && now_outcomes == outcomes.push(
                (more.txid, DispatchOutcomeView::ParentFailed),
            )
            &&& !lost ==> now_sent == sent.push(more) && now_outcomes == outcomes
        }),
{
    let n = batch.len() as int;
    let larger = batch.push(more);
    lemma_filter_step(larger, store.has_intact_parents(), n);
    lemma_filter_map_step(larger, store.lost_with_parent(), n);
    assert(larger.take(n) =~= batch);
    assert(larger.take(n + 1) =~= larger);
    let lost = exists|i: int|
        0 <= i < more.tx.input.len() && store.txs.contains_key(
            (#[trigger] more.tx.input[i]).previous_output.txid,
        ) && store.txs[more.tx.input[i].previous_output.txid].state is Failed;
    if lost {
        let i = choose|i: int|
            0 <= i < more.tx.input.len() && store.txs.contains_key(
                (#[trigger] more.tx.input[i]).previous_output.txid,
            ) && store.txs[more.tx.input[i].previous_output.txid].state is Failed;
        assert(store.has_failed(more.tx.input[i].previous_output.txid));
    }
}

// The store

/// Storing a record replaces what was stored under its txid and touches nothing else; storing a speedup
/// lists it last besides, unless it is listed already.
pub proof fn law_storing_is_local(store: StoreView, tx: CoordinatedTxView, other: Txid)
    requires
        other != tx.txid,
    ensures
        ({
            let after = store.put(tx);
            &&& after.txs.contains_key(tx.txid) && after.txs[tx.txid] == tx
            &&& after.txs.get(other) == store.txs.get(other)
            &&& after == (StoreView { txs: after.txs, ..store })
        }),
        store.put_speedup(tx) == (StoreView {
            speedups: if store.speedups.contains(tx.txid) {
                store.speedups
            } else {
                store.speedups.push(tx.txid)
            },
            ..store.put(tx)
        }),
{
}

/// The speedups are read in the order of the list; one without a record is passed over.
pub proof fn law_speedups_are_read_in_order(store: StoreView, larger: StoreView, id: Txid)
    requires
        larger.txs == store.txs,
        larger.speedups == store.speedups.push(id),
    ensures
        larger.speedup_records() == if store.txs.contains_key(id) {
            store.speedup_records().push(store.txs[id])
        } else {
            store.speedup_records()
        },
        store.speedups.len() == 0 ==> store.speedup_records().len() == 0,
{
    let n = store.speedups.len() as int;
    let find = lookup(larger.txs);
    lemma_filter_map_step(larger.speedups, find, n);
    assert(larger.speedups.take(n) =~= store.speedups);
    assert(larger.speedups.take(n + 1) =~= larger.speedups);
    if store.speedups.len() == 0 {
        lemma_filter_map_members(store.speedups, find);
        if store.speedup_records().len() > 0 {
            assert(store.speedup_records().contains(store.speedup_records()[0]));
        }
    }
}

/// A listing by state holds each record in that state, and a listing of everything holds each record.
pub proof fn law_records_are_listed_by_state(
    some: Seq<CoordinatedTxView>,
    every: Seq<CoordinatedTxView>,
    txs: Map<Txid, CoordinatedTxView>,
    state: TransactionState,
    id: Txid,
)
    requires
        lists_selected(some, txs, in_state(state)),
        lists_selected(every, txs, any_record()),
        txs.contains_key(id),
    ensures
        some.contains(txs[id]) <==> txs[id].state == state,
        every.contains(txs[id]),
{
    lemma_listed(some, txs, in_state(state), id);
    lemma_listed(every, txs, any_record(), id);
}

/// A new store is empty.
pub proof fn law_new_store_is_empty(id: Txid)
    ensures
        ({
            let store = StoreView::empty();
            &&& !store.txs.contains_key(id)
            &&& store.news.len() == 0
            &&& store.speedups.len() == 0
            &&& store.pending.len() == 0
            &&& store.funding.len() == 0
        }),
{
}

/// The record of a funding UTXO is that of a transaction of its own txid that is final, so that nothing is
/// ever dispatched or reviewed for it.
pub proof fn law_funding_records_are_final(data: FundingData)
    ensures
        ({
            let record = funding_record(data);
            &&& record.txid == data.utxo.txid
            &&& record.kind == TxKindView::Funding(data)
            &&& record.state is Finalized
            &&& record.tx.input.len() == 0 && record.tx.output.len() == 0
            &&& record.settled_block_height is None
            &&& record.broadcast_block_height is None
            &&& record.fail_guard_until is None
            &&& record.retry_count == 0
            &&& record.context.len() == 0
        }),
{
}

/// A transaction that is settled is not queued again, for whatever reason; the attempt is reported.
pub proof fn law_settled_transactions_are_not_queued_again(
    store: StoreView,
    id: Txid,
    deadline: BlockHeight,
)
    requires
        store.txs.contains_key(id),
        store.txs[id].state is Finalized || store.txs[id].state is Failed,
    ensures
        ({
            let news = CoordinatorNewsView::InvalidStateTransition {
                txid: id,
                from: store.txs[id].state,
                to: TransactionState::ToDispatch,
            };
            &&& store.requeue_not_found(id, deadline) == store.report(news)
            &&& store.mark_as_retry(id) == store.report(news)
        }),
{
}

/// Parents that are put in front of the pending list keep their order, and one that waits already keeps its
/// place.
pub proof fn law_parents_are_put_in_front(store: StoreView, ids: Seq<Txid>)
    ensures
        store.prepend_pending(ids) == (StoreView {
            pending: ids.filter(|x: Txid| !store.pending.contains(x)) + store.pending,
            ..store
        }),
{
    assert(not_listed(store.pending) =~= (|x: Txid| !store.pending.contains(x)));
}

/// The parents of a CPFP that wait again are those on record that were registered for speedup; no other
/// transaction leaves parents behind.
pub proof fn law_registered_parents_wait_again(store: StoreView, tx: CoordinatedTxView)
    ensures
        tx.kind matches TxKindView::Speedup(SpeedupKindView::CPFP { parents, .. }) ==> store.requeue_parents(
            tx,
        ) == store.prepend_pending(
            parents.filter(
                |id: Txid| store.txs.contains_key(id) && store.txs[id].kind is NeedsSpeedup,
            ),
        ),
        !(tx.kind matches TxKindView::Speedup(SpeedupKindView::CPFP { .. })) ==> store.requeue_parents(tx)
            == store,
{
    assert(store.is_protocol_parent() =~= (|id: Txid|
        store.txs.contains_key(id) && store.txs[id].kind is NeedsSpeedup));
}

/// A replacement is refused only when what it replaces is on record as something other than a speedup; the
/// error names that one.
pub proof fn law_replacements_of_speedups_are_accepted(store: StoreView, tx: CoordinatedTxView)
    ensures
        store.replaces_a_stranger(tx) <==> (tx.kind matches TxKindView::Speedup(
            SpeedupKindView::RBF { replaces, .. },
        ) && store.txs.contains_key(replaces) && !(store.txs[replaces].kind is Speedup)),
        tx.kind matches TxKindView::Speedup(SpeedupKindView::RBF { replaces, .. }) ==> store.stranger_text(
            tx,
        ) == "expected Speedup (mut) for tx "@ + store.txs[replaces].txid.text(),
{
}

} // verus!
