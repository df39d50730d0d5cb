use crate::config::{FeeSettings, SpeedupSettings};
use crate::dispatcher::DispatchOutcomeView;
use crate::helper::blocks_since;
use crate::model::{find_last, without, StoreView};
use crate::primitives::{tx_id, BlockHeight, Multiplier, TransactionView, Txid};
use crate::settings::{CPFP_TRANSACTION_CONTEXT, RBF_TRANSACTION_CONTEXT};
use crate::types::{
    CoordinatedTxView, CoordinatorNewsView, FeeInfo, MonitorRequestView, ParentData,
    SpeedupContextView, SpeedupData, SpeedupKindView, TransactionState, TxKindView, TxStatus, Utxo,
};
use vstd::prelude::*;

verus! {

/// A parent that a speedup is to pay for, and its virtual size.
#[derive(Clone, Copy, Debug, PartialEq, Eq)]
pub struct ParentEntry {
    pub data: SpeedupData,
    pub vsize: u64,
}

/// Holds of the speedups that are live in the mempool: not being replaced.
pub open spec fn is_live(all: Seq<CoordinatedTxView>) -> spec_fn(CoordinatedTxView) -> bool {
    |tx: CoordinatedTxView| tx.state is InMempool && !tx.has_live_replacement(all)
}

/// The speedups that are live in the mempool, in creation order.
pub open spec fn live_speedups(all: Seq<CoordinatedTxView>) -> Seq<CoordinatedTxView> {
    all.filter(is_live(all))
}

/// Some speedup waits to be dispatched.
pub open spec fn any_waiting(all: Seq<CoordinatedTxView>) -> bool {
    exists|i: int| 0 <= i < all.len() && (#[trigger] all[i]).state is ToDispatch
}

/// Holds of the speedups that wait to be dispatched.
pub open spec fn waits() -> spec_fn(CoordinatedTxView) -> bool {
    |tx: CoordinatedTxView| tx.state is ToDispatch
}

/// Holds of the speedups that were broadcast and are not final.
pub open spec fn is_in_flight() -> spec_fn(CoordinatedTxView) -> bool {
    |tx: CoordinatedTxView| tx.state is InMempool || tx.state is Confirmed
}

/// The speedup has waited in the mempool for long enough, and its package does not pay the maximal rate
/// yet.
pub open spec fn is_stale(
    tx: CoordinatedTxView,
    height: BlockHeight,
    speedup: SpeedupSettings,
    fee: FeeSettings,
) -> bool {
    &&& tx.is_speedup()
    &&& tx.broadcast_block_height matches Some(broadcast)
    &&& blocks_since(broadcast, height) >= speedup.min_blocks_before_resend_speedup
    &&& tx.fee_info.package_fee_rate < fee.max_feerate_sat_vb
}

/// The speedup to boost: the latest live one, when it is stale and nothing waits to be dispatched.
pub open spec fn boost_target(
    all: Seq<CoordinatedTxView>,
    height: BlockHeight,
    speedup: SpeedupSettings,
    fee: FeeSettings,
) -> Option<CoordinatedTxView> {
    if any_waiting(all) {
        None
    } else {
        match find_last(all, is_live(all)) {
            Some(last) => if is_stale(last, height, speedup, fee) {
                Some(last)
            } else {
                None
            },
            None => None,
        }
    }
}

/// There is no room for another unconfirmed speedup: a boost has to replace the last one.
pub open spec fn must_replace(all: Seq<CoordinatedTxView>, speedup: SpeedupSettings) -> bool {
    live_speedups(all).len() >= speedup.max_unconfirmed_speedups
}

/// The amount of the output that speedup data is about.
pub open spec fn amount_of(data: SpeedupData) -> u64 {
    match data.utxo {
        Some(utxo) => utxo.amount,
        None => match data.partial_utxo {
            Some((_, _, amount)) => amount,
            None => 0,
        },
    }
}

/// The entries of the parents that a speedup covers.
pub open spec fn entries_of(parents: Seq<ParentData>) -> Seq<ParentEntry> {
    Seq::new(parents.len(), |i: int| ParentEntry { data: parents[i].data, vsize: parents[i].vsize })
}

/// What a speedup remembers of its parents.
pub open spec fn parent_data_of(entries: Seq<ParentEntry>) -> Seq<ParentData> {
    Seq::new(
        entries.len(),
        |i: int|
            ParentData {
                data: entries[i].data,
                amount: amount_of(entries[i].data),
                vsize: entries[i].vsize,
            },
    )
}

/// Total virtual size of the parents.
pub open spec fn parent_vbytes(entries: Seq<ParentEntry>) -> int
    decreases entries.len(),
{
    if entries.len() == 0 {
        0
    } else {
        parent_vbytes(entries.drop_last()) + entries.last().vsize
    }
}

/// Total amount of funding UTXOs.
pub open spec fn total_funding(utxos: Seq<Utxo>) -> int
    decreases utxos.len(),
{
    if utxos.len() == 0 {
        0
    } else {
        total_funding(utxos.drop_last()) + utxos.last().amount
    }
}

/// The context of a new speedup.
pub open spec fn new_context(
    funding_inputs: Seq<Utxo>,
    bump_fee: Multiplier,
    entries: Seq<ParentEntry>,
) -> SpeedupContextView {
    SpeedupContextView {
        funding_inputs,
        replaced_by: None,
        bump_fee_used: bump_fee,
        parent_data: parent_data_of(entries),
        spent: false,
    }
}

impl SpeedupKindView {
    /// The context text of the transactions of a kind.
    pub open spec fn context_text(self) -> Seq<char> {
        match self {
            SpeedupKindView::RBF { .. } => RBF_TRANSACTION_CONTEXT@,
            SpeedupKindView::CPFP { .. } => CPFP_TRANSACTION_CONTEXT@,
        }
    }
}

/// The record of a speedup that was just built: it waits to be dispatched.
pub open spec fn new_speedup(
    tx: TransactionView,
    fee_info: FeeInfo,
    kind: SpeedupKindView,
    height: BlockHeight,
) -> CoordinatedTxView {
    CoordinatedTxView {
        txid: tx_id(tx),
        tx,
        kind: TxKindView::Speedup(kind),
        state: TransactionState::ToDispatch,
        target_block_height: height,
        confirmation_trigger: None,
        stuck_in_mempool_blocks: None,
        settled_block_height: None,
        broadcast_block_height: None,
        fail_guard_until: None,
        retry_count: 0,
        fee_info,
        context: kind.context_text(),
    }
}

/// The request to follow a speedup that was just built.
pub open spec fn watch_new(tx: TransactionView, kind: SpeedupKindView) -> MonitorRequestView {
    MonitorRequestView::Watch {
        txids: seq![tx_id(tx)],
        context: kind.context_text(),
        confirmation_trigger: None,
        search_in_mempool: false,
    }
}

/// The news that a speedup pays the maximal rate.
pub open spec fn max_rate_news(
    tx: TransactionView,
    fee_info: FeeInfo,
    kind: SpeedupKindView,
) -> CoordinatorNewsView {
    CoordinatorNewsView::MaxFeeRateReached {
        txid: tx_id(tx),
        effective_fee_rate: fee_info.package_fee_rate,
        context: kind.context_text(),
    }
}

/// The txids from `id` on, each replaced by the one before, for at most `steps` replacements.
pub open spec fn replaced_chain(txs: Map<Txid, CoordinatedTxView>, id: Txid, steps: nat) -> Seq<Txid>
    decreases steps,
{
    if steps > 0 && txs.contains_key(id) {
        match txs[id].kind {
            TxKindView::Speedup(SpeedupKindView::RBF { replaces, .. }) => seq![id] + replaced_chain(
                txs,
                replaces,
                (steps - 1) as nat,
            ),
            _ => seq![id],
        }
    } else {
        seq![id]
    }
}

/// The requests to stop following transactions, one for each.
pub open spec fn cancel_each(ids: Seq<Txid>, context: Seq<char>) -> Seq<MonitorRequestView> {
    Seq::new(
        ids.len(),
        |i: int|
            MonitorRequestView::Cancel { txids: seq![ids[i]], context, confirmation_trigger: None },
    )
}

impl CoordinatedTxView {
    /// A speedup of a speedup: a replacement, or a CPFP that covers no registered transaction.
    pub open spec fn is_boost(self) -> bool {
        match self.kind {
            TxKindView::Speedup(SpeedupKindView::RBF { .. }) => true,
            TxKindView::Speedup(SpeedupKindView::CPFP { context, .. }) => context.parent_data.len() == 0,
            _ => false,
        }
    }
}

impl StoreView {
    /// The record of a transaction that has failed.
    pub open spec fn has_failed(self, id: Txid) -> bool {
        self.txs.contains_key(id) && self.txs[id].state is Failed
    }

    /// One of the boosts of a batch has failed.
    pub open spec fn lost_a_boost(self, batch: Seq<CoordinatedTxView>) -> bool {
        exists|i: int|
            0 <= i < batch.len() && (#[trigger] batch[i]).is_boost() && self.has_failed(batch[i].txid)
    }

    /// Holds of the transactions that spend from none that has failed.
    pub open spec fn has_intact_parents(self) -> spec_fn(CoordinatedTxView) -> bool {
        |tx: CoordinatedTxView|
            forall|i: int|
                0 <= i < tx.tx.input.len() ==> !self.has_failed(
                    (#[trigger] tx.tx.input[i]).previous_output.txid,
                )
    }

    /// The outcome of a transaction that is lost with one that it spends from.
    pub open spec fn lost_with_parent(self) -> spec_fn(CoordinatedTxView) -> Option<
        (Txid, DispatchOutcomeView),
    > {
        |tx: CoordinatedTxView|
            if self.has_intact_parents()(tx) {
                None
            } else {
                Some((tx.txid, DispatchOutcomeView::ParentFailed))
            }
    }

    /// The speedups that an RBF replaced, directly or through others, the latest first. None for a
    /// speedup that replaced nothing.
    pub open spec fn replaced_by_chain(self, tx: CoordinatedTxView) -> Seq<Txid> {
        match tx.kind {
            TxKindView::Speedup(SpeedupKindView::RBF { replaces, .. }) => replaced_chain(
                self.txs,
                replaces,
                self.txs.len(),
            ),
            _ => Seq::empty(),
        }
    }

    /// Settling transactions as `Failed`, in order.
    pub open spec fn settle_all_failed(self, ids: Seq<Txid>, height: BlockHeight) -> StoreView
        decreases ids.len(),
    {
        if ids.len() == 0 {
            self
        } else {
            self.settle_all_failed(ids.drop_last(), height).settle(
                ids.last(),
                TransactionState::Failed,
                height,
            )
        }
    }

    /// The store once the speedup `tx` is final and what it replaced is settled.
    pub open spec fn finalize_speedup(self, tx: CoordinatedTxView, height: BlockHeight) -> StoreView {
        let finalized = self.settle(tx.txid, TransactionState::Finalized, height);
        finalized.settle_all_failed(finalized.replaced_by_chain(tx), height)
    }

    /// Why the review of a speedup fails, if it does: it is final, and the funding queue is broken.
    pub open spec fn review_failure(
        self,
        tx: CoordinatedTxView,
        status: TxStatus,
        height: BlockHeight,
    ) -> Option<Seq<char>> {
        let settled = self.finalize_speedup(tx, height);
        if !status.in_mempool && !status.not_found && status.finalized && settled.replacing_fails(
            tx.txid,
        ) {
            Some(settled.broken_queue_text())
        } else {
            None
        }
    }

    /// Reviewing one speedup, by what the monitor says of it. A lost one goes back to the queue, unless
    /// it is being replaced; a final one takes the place of its funding in the queue.
    pub open spec fn review_speedup(
        self,
        tx: CoordinatedTxView,
        all: Seq<CoordinatedTxView>,
        status: TxStatus,
        height: BlockHeight,
        max_confirmations: u32,
    ) -> StoreView {
        if status.in_mempool {
            if tx.state is Confirmed {
                self.put(tx.reorged(height))
            } else {
                self
            }
        } else if status.not_found {
            if tx.has_live_replacement(all) {
                self
            } else {
                self.requeue_not_found(tx.txid, (height + max_confirmations) as u32)
            }
        } else if status.finalized {
            let settled = self.finalize_speedup(tx, height);
            if settled.replacing_fails(tx.txid) {
                settled
            } else {
                settled.replace_funding(tx.txid)
            }
        } else {
            self.review_on_chain(tx.txid, status, height)
        }
    }

    /// What the monitor has to stop following after the review of a speedup.
    pub open spec fn review_cancels(
        self,
        tx: CoordinatedTxView,
        status: TxStatus,
        height: BlockHeight,
    ) -> Seq<MonitorRequestView> {
        if !status.in_mempool && !status.not_found && status.finalized {
            cancel_each(
                self.settle(tx.txid, TransactionState::Finalized, height).replaced_by_chain(tx),
                tx.context,
            )
        } else {
            Seq::empty()
        }
    }

    /// The record with this txid is a speedup.
    pub open spec fn has_speedup(self, id: Txid) -> bool {
        self.txs.contains_key(id) && self.txs[id].is_speedup()
    }

    /// Taking parents out of the pending list.
    pub open spec fn unlist_pending(self, ids: Seq<Txid>) -> StoreView
        decreases ids.len(),
    {
        if ids.len() == 0 {
            self
        } else {
            let before = self.unlist_pending(ids.drop_last());
            StoreView { pending: without(before.pending, ids.last()), ..before }
        }
    }
}

/// Reviewing speedups one after the other: the store, what the monitor has to stop following, and
/// why the review had to stop, if it had to.
#[verifier::ext_equal]
pub struct SpeedupReview {
    pub store: StoreView,
    pub cancels: Seq<MonitorRequestView>,
    pub failure: Option<Seq<char>>,
}

/// Reviewing the speedups whose statuses are known; after a failure nothing more is reviewed.
pub open spec fn review_speedups(
    store: StoreView,
    in_flight: Seq<CoordinatedTxView>,
    all: Seq<CoordinatedTxView>,
    statuses: Seq<TxStatus>,
    height: BlockHeight,
    max_confirmations: u32,
) -> SpeedupReview
    decreases statuses.len(),
{
    if statuses.len() == 0 {
        SpeedupReview { store, cancels: Seq::empty(), failure: None }
    } else {
        let before = review_speedups(
            store,
            in_flight,
            all,
            statuses.drop_last(),
            height,
            max_confirmations,
        );
        let tx = in_flight[statuses.len() - 1];
        let status = statuses.last();
        if before.failure is Some {
            before
        } else {
            SpeedupReview {
                store: before.store.review_speedup(tx, all, status, height, max_confirmations),
                cancels: before.cancels + before.store.review_cancels(tx, status, height),
                failure: before.store.review_failure(tx, status, height),
            }
        }
    }
}

} // verus!
