use crate::helper::blocks_since;
use crate::primitives::{BlockHeight, TransactionView, Txid};
use crate::types::{
    CoordinatedTxView, CoordinatorNewsView, FeeInfo, FundingData, FundingEntry,
    SpeedupContextView, SpeedupKindView, TransactionState, TxKindView, Utxo,
};
use vstd::prelude::*;

verus! {

/// A stored news item: the block at which it was acknowledged and the last one at which it was shown.
#[verifier::ext_equal]
pub struct NewsItemView {
    pub news: CoordinatorNewsView,
    pub acked_at_block: Option<BlockHeight>,
    pub shown_at_block: Option<BlockHeight>,
}

/// Everything the coordinator remembers: the transaction records by txid, the news in order of
/// arrival, and three ordered lists: the txids of the speedups in creation order, those of the parents
/// that wait for a CPFP, and the funding queue. A record stands for one output: a funding UTXO of a
/// transaction that has a record for another one of its outputs is a sibling, with its own place in the
/// queue. It counts for nothing while the record stands for its output.
#[verifier::ext_equal]
pub struct StoreView {
    pub txs: Map<Txid, CoordinatedTxView>,
    pub news: Seq<NewsItemView>,
    pub speedups: Seq<Txid>,
    pub pending: Seq<Txid>,
    pub funding: Seq<FundingEntry>,
}

/// The entry is a sibling for this output.
pub open spec fn is_output(entry: FundingEntry, txid: Txid, vout: u32) -> bool {
    entry matches FundingEntry::Sibling(data) && data.utxo.txid == txid && data.utxo.vout == vout
}

/// A sibling for the output is in the queue.
pub open spec fn has_output(queue: Seq<FundingEntry>, txid: Txid, vout: u32) -> bool {
    exists|i: int| 0 <= i < queue.len() && is_output(#[trigger] queue[i], txid, vout)
}

/// The entries are siblings for the same output.
pub open spec fn same_output(a: FundingEntry, b: FundingEntry) -> bool {
    a matches FundingEntry::Sibling(data) && is_output(b, data.utxo.txid, data.utxo.vout)
}

/// No two siblings in the queue are for the same output.
pub open spec fn siblings_differ(queue: Seq<FundingEntry>) -> bool {
    forall|i: int, j: int|
        0 <= i < j < queue.len() ==> !same_output(#[trigger] queue[i], #[trigger] queue[j])
}

/// The queue with only the first sibling for each output.
pub open spec fn listed_once(queue: Seq<FundingEntry>) -> Seq<FundingEntry>
    decreases queue.len(),
{
    if queue.len() == 0 {
        queue
    } else {
        let rest = listed_once(queue.drop_last());
        match queue.last() {
            FundingEntry::Sibling(data) if has_output(rest, data.utxo.txid, data.utxo.vout) => rest,
            entry => rest.push(entry),
        }
    }
}

/// The record of a transaction stands for this output.
pub open spec fn has_own_record(txs: Map<Txid, CoordinatedTxView>, txid: Txid, vout: u32) -> bool {
    txs.contains_key(txid) && txs[txid].offers(vout)
}

/// The sibling for a UTXO.
pub open spec fn sibling(utxo: Utxo, spent: bool) -> FundingEntry {
    FundingEntry::Sibling(FundingData { utxo, spent })
}

/// The queue with the claim mark of the siblings for an output set or cleared.
pub open spec fn mark_listed(queue: Seq<FundingEntry>, txid: Txid, vout: u32, spent: bool) -> Seq<
    FundingEntry,
> {
    Seq::new(
        queue.len(),
        |i: int|
            if is_output(queue[i], txid, vout) {
                sibling(queue[i]->Sibling_0.utxo, spent)
            } else {
                queue[i]
            },
    )
}

/// The queue with an unclaimed sibling for a UTXO, at its place when there is one for the output, and else
/// at the end.
pub open spec fn with_output(queue: Seq<FundingEntry>, utxo: Utxo) -> Seq<FundingEntry> {
    if has_output(queue, utxo.txid, utxo.vout) {
        Seq::new(
            queue.len(),
            |i: int|
                if is_output(queue[i], utxo.txid, utxo.vout) {
                    sibling(utxo, false)
                } else {
                    queue[i]
                },
        )
    } else {
        queue.push(sibling(utxo, false))
    }
}

/// The record that an entry of the queue stands for, if there is one.
pub open spec fn entry_record(txs: Map<Txid, CoordinatedTxView>) -> spec_fn(FundingEntry) -> Option<
    CoordinatedTxView,
> {
    |entry: FundingEntry|
        match entry {
            FundingEntry::Record(id) => txs.get(id),
            FundingEntry::Sibling(data) => if has_own_record(txs, data.utxo.txid, data.utxo.vout) {
                None
            } else {
                Some(funding_record(data))
            },
        }
}

/// The txid of an entry that is a record.
pub open spec fn entry_txid() -> spec_fn(FundingEntry) -> Option<Txid> {
    |entry: FundingEntry|
        match entry {
            FundingEntry::Record(id) => Some(id),
            FundingEntry::Sibling(_) => None,
        }
}

/// The txids of the entries that are records, in order.
pub open spec fn record_txids(queue: Seq<FundingEntry>) -> Seq<Txid> {
    queue.filter_map(entry_txid())
}

/// Holds of the UTXOs that are not among the inputs of a speedup.
pub open spec fn is_no_input(inputs: Seq<Utxo>) -> spec_fn(FundingData) -> bool {
    |data: FundingData|
        forall|i: int|
            0 <= i < inputs.len() ==> !((#[trigger] inputs[i]).txid == data.utxo.txid && inputs[i].vout
                == data.utxo.vout)
}

/// The first element that satisfies `p`.
pub open spec fn find_first<A>(s: Seq<A>, p: spec_fn(A) -> bool) -> Option<A>
    decreases s.len(),
{
    if s.len() == 0 {
        None
    } else {
        match find_first(s.drop_last(), p) {
            Some(x) => Some(x),
            None => if p(s.last()) {
                Some(s.last())
            } else {
                None
            },
        }
    }
}

/// The last element that satisfies `p`.
pub open spec fn find_last<A>(s: Seq<A>, p: spec_fn(A) -> bool) -> Option<A>
    decreases s.len(),
{
    if s.len() == 0 {
        None
    } else if p(s.last()) {
        Some(s.last())
    } else {
        find_last(s.drop_last(), p)
    }
}

/// Holds of every txid but one.
pub open spec fn other_than(id: Txid) -> spec_fn(Txid) -> bool {
    |x: Txid| x != id
}

/// Holds of the txids that are not in a set.
pub open spec fn outside_of(gone: Set<Txid>) -> spec_fn(Txid) -> bool {
    |x: Txid| !gone.contains(x)
}

/// Holds of the txids that are not in a list.
pub open spec fn not_listed(ids: Seq<Txid>) -> spec_fn(Txid) -> bool {
    |x: Txid| !ids.contains(x)
}

/// The record with a txid, if there is one.
pub open spec fn lookup(txs: Map<Txid, CoordinatedTxView>) -> spec_fn(Txid) -> Option<CoordinatedTxView> {
    |id: Txid| txs.get(id)
}

/// The list with every occurrence of `id` taken out.
pub open spec fn without(ids: Seq<Txid>, id: Txid) -> Seq<Txid> {
    ids.filter(other_than(id))
}

/// The list with the members of `gone` taken out.
pub open spec fn without_all(ids: Seq<Txid>, gone: Set<Txid>) -> Seq<Txid> {
    ids.filter(outside_of(gone))
}

/// The list with `item` appended unless it is already there.
pub open spec fn append_new<A>(list: Seq<A>, item: A) -> Seq<A> {
    if list.contains(item) {
        list
    } else {
        list.push(item)
    }
}

/// The records of the listed txids that exist, in list order.
pub open spec fn present(txs: Map<Txid, CoordinatedTxView>, ids: Seq<Txid>) -> Seq<CoordinatedTxView> {
    ids.filter_map(lookup(txs))
}

/// `listing` holds each record of the store that `keep` selects, once, in any order.
pub open spec fn lists_selected(
    listing: Seq<CoordinatedTxView>,
    txs: Map<Txid, CoordinatedTxView>,
    keep: spec_fn(CoordinatedTxView) -> bool,
) -> bool {
    &&& forall|i: int|
        0 <= i < listing.len() ==> txs.contains_key((#[trigger] listing[i]).txid)
            && txs[listing[i].txid] == listing[i] && keep(listing[i])
    &&& forall|i: int, j: int|
        0 <= i < j < listing.len() ==> (#[trigger] listing[i]).txid != (#[trigger] listing[j]).txid
    &&& forall|id: Txid| #[trigger]
        txs.contains_key(id) && keep(txs[id]) ==> exists|i: int|
            0 <= i < listing.len() && #[trigger] listing[i] == txs[id]
}

/// The records of a list by txid; the last one counts when several have the same.
pub open spec fn by_txid(records: Seq<CoordinatedTxView>) -> Map<Txid, CoordinatedTxView>
    decreases records.len(),
{
    if records.len() == 0 {
        Map::empty()
    } else {
        by_txid(records.drop_last()).insert(records.last().txid, records.last())
    }
}

/// Holds of every record.
pub open spec fn any_record() -> spec_fn(CoordinatedTxView) -> bool {
    |tx: CoordinatedTxView| true
}

/// Holds of the records in one state.
pub open spec fn in_state(state: TransactionState) -> spec_fn(CoordinatedTxView) -> bool {
    |tx: CoordinatedTxView| tx.state == state
}

/// Holds of the records that the coordinator still acts on.
pub open spec fn is_active() -> spec_fn(CoordinatedTxView) -> bool {
    |tx: CoordinatedTxView| !tx.state.is_terminal()
}

/// Holds of the records in a terminal state.
pub open spec fn is_settled() -> spec_fn(CoordinatedTxView) -> bool {
    |tx: CoordinatedTxView| tx.state.is_terminal()
}

/// A record with the claim mark set or cleared; records that offer no funding are unchanged.
pub open spec fn with_spent(tx: CoordinatedTxView, spent: bool) -> CoordinatedTxView {
    match tx.kind {
        TxKindView::Funding(data) => CoordinatedTxView {
            kind: TxKindView::Funding(FundingData { utxo: data.utxo, spent }),
            ..tx
        },
        TxKindView::Speedup(kind) => CoordinatedTxView {
            kind: TxKindView::Speedup(
                kind.with_context(SpeedupContextView { spent, ..kind.context() }),
            ),
            ..tx
        },
        _ => tx,
    }
}

/// A speedup record with its replacement set.
pub open spec fn with_replaced_by(tx: CoordinatedTxView, by: Option<Txid>) -> CoordinatedTxView {
    CoordinatedTxView {
        kind: TxKindView::Speedup(
            tx.speedup().with_context(
                SpeedupContextView { replaced_by: by, ..tx.speedup().context() },
            ),
        ),
        ..tx
    }
}

/// A transaction without inputs or outputs.
pub open spec fn empty_transaction() -> TransactionView {
    TransactionView { version: 2, lock_time: 0, input: Seq::empty(), output: Seq::empty() }
}

/// A record without a transaction, final on chain.
pub open spec fn empty_record(txid: Txid) -> CoordinatedTxView {
    CoordinatedTxView {
        txid,
        tx: empty_transaction(),
        kind: TxKindView::Normal,
        state: TransactionState::Finalized,
        target_block_height: 0,
        confirmation_trigger: None,
        stuck_in_mempool_blocks: None,
        settled_block_height: None,
        broadcast_block_height: None,
        fail_guard_until: None,
        retry_count: 0,
        fee_info: FeeInfo { fee: 0, fee_rate: 0, package_fee_rate: 0, weight: 0 },
        context: Seq::empty(),
    }
}

/// The record of a funding UTXO: final on chain, with no transaction of its own to dispatch.
pub open spec fn funding_record(data: FundingData) -> CoordinatedTxView {
    CoordinatedTxView {
        kind: TxKindView::Funding(data),
        ..empty_record(data.utxo.txid)
    }
}

/// The item is due to be shown at `height`: not acknowledged, and not yet shown at that block.
pub open spec fn is_due(item: NewsItemView, height: BlockHeight) -> bool {
    item.acked_at_block is None && item.shown_at_block != Some(height)
}

/// The news of an item that is due at `height`.
pub open spec fn due_item(height: BlockHeight) -> spec_fn(NewsItemView) -> Option<CoordinatorNewsView> {
    |item: NewsItemView|
        if is_due(item, height) {
            Some(item.news)
        } else {
            None
        }
}

/// The news that is due at `height`, in order.
pub open spec fn due_news(items: Seq<NewsItemView>, height: BlockHeight) -> Seq<CoordinatorNewsView> {
    items.filter_map(due_item(height))
}

/// The items with those due at `height` marked as shown there.
pub open spec fn mark_shown(items: Seq<NewsItemView>, height: BlockHeight) -> Seq<NewsItemView> {
    Seq::new(
        items.len(),
        |i: int|
            if is_due(items[i], height) {
                NewsItemView { shown_at_block: Some(height), ..items[i] }
            } else {
                items[i]
            },
    )
}

/// `i` is the first unacknowledged item with this news.
pub open spec fn is_first_unacked(items: Seq<NewsItemView>, news: CoordinatorNewsView, i: int) -> bool {
    &&& 0 <= i < items.len()
    &&& items[i].acked_at_block is None && items[i].news == news
    &&& forall|j: int|
        0 <= j < i ==> !((#[trigger] items[j]).acked_at_block is None && items[j].news == news)
}

/// Holds of the items that were not acknowledged before `height`.
pub open spec fn not_acked_before(height: BlockHeight) -> spec_fn(NewsItemView) -> bool {
    |item: NewsItemView| item.acked_at_block matches Some(acked) ==> acked >= height
}

/// The items that survive a clean-up at `height`: all but those acknowledged at an earlier block.
pub open spec fn cleaned_up(items: Seq<NewsItemView>, height: BlockHeight) -> Seq<NewsItemView> {
    items.filter(not_acked_before(height))
}

/// The states in which a parent can be sped up.
pub open spec fn is_broadcast(state: TransactionState) -> bool {
    state is InMempool || state is Confirmed || state is Finalized
}

impl CoordinatedTxView {
    /// The record stands for this output: it is that of the funding UTXO, or of a speedup, of which only
    /// the change is ever offered.
    pub open spec fn offers(self, vout: u32) -> bool {
        match self.kind {
            TxKindView::Funding(data) => data.utxo.vout == vout,
            TxKindView::Speedup(_) => true,
            _ => false,
        }
    }

    /// The record of a funding UTXO holds an output of its own transaction.
    pub open spec fn owns_output(self) -> bool {
        self.kind matches TxKindView::Funding(data) ==> data.utxo.txid == self.txid
    }
}

/// Every record of a funding UTXO in the list holds an output of its own transaction.
pub open spec fn own_outputs(txs: Seq<CoordinatedTxView>) -> bool {
    forall|i: int| 0 <= i < txs.len() ==> (#[trigger] txs[i]).owns_output()
}

impl StoreView {
    /// Every record of a funding UTXO holds an output of its own transaction.
    pub open spec fn owns_outputs(self) -> bool {
        forall|id: Txid| #[trigger] self.txs.contains_key(id) ==> self.txs[id].owns_output()
    }

    /// The funding records still hold outputs of their own transactions, if they did before.
    pub open spec fn keeps_ownership(self, before: StoreView) -> bool {
        before.owns_outputs() ==> self.owns_outputs()
    }

    /// A store without records, news or list entries.
    pub open spec fn empty() -> StoreView {
        StoreView {
            txs: Map::empty(),
            news: Seq::empty(),
            speedups: Seq::empty(),
            pending: Seq::empty(),
            funding: Seq::empty(),
        }
    }

    /// Every record is stored under its own txid.
    pub open spec fn is_keyed(self) -> bool {
        forall|id: Txid| #[trigger] self.txs.contains_key(id) ==> self.txs[id].txid == id
    }

    /// The store with one record set.
    pub open spec fn put(self, tx: CoordinatedTxView) -> StoreView {
        StoreView { txs: self.txs.insert(tx.txid, tx), ..self }
    }

    /// The store with a speedup record set and listed.
    pub open spec fn put_speedup(self, tx: CoordinatedTxView) -> StoreView {
        StoreView { speedups: append_new(self.speedups, tx.txid), ..self.put(tx) }
    }

    /// The store without the record, which also leaves the speedup list.
    pub open spec fn remove(self, id: Txid) -> StoreView {
        StoreView { txs: self.txs.remove(id), speedups: without(self.speedups, id), ..self }
    }

    /// An item with this news is stored, acknowledged or not.
    pub open spec fn knows_news(self, news: CoordinatorNewsView) -> bool {
        exists|i: int| 0 <= i < self.news.len() && (#[trigger] self.news[i]).news == news
    }

    /// The store after reporting `news`: stored at the end, unless an equal item is stored already.
    pub open spec fn report(self, news: CoordinatorNewsView) -> StoreView {
        if self.knows_news(news) {
            self
        } else {
            StoreView {
                news: self.news.push(
                    NewsItemView { news, acked_at_block: None, shown_at_block: None },
                ),
                ..self
            }
        }
    }

    /// The store after acknowledging `news`: its first unacknowledged item is marked, if there is one.
    pub open spec fn acknowledge(self, news: CoordinatorNewsView, height: BlockHeight) -> StoreView {
        if exists|i: int| is_first_unacked(self.news, news, i) {
            let i = choose|i: int| is_first_unacked(self.news, news, i);
            StoreView {
                news: self.news.update(
                    i,
                    NewsItemView { acked_at_block: Some(height), ..self.news[i] },
                ),
                ..self
            }
        } else {
            self
        }
    }

    /// The speedup records in creation order.
    pub open spec fn speedup_records(self) -> Seq<CoordinatedTxView> {
        present(self.txs, self.speedups)
    }

    /// The records of the funding queue, in order.
    pub open spec fn funding_records(self) -> Seq<CoordinatedTxView> {
        self.funding.filter_map(entry_record(self.txs))
    }

    /// Moving a record to `next`. A missing record or a step that the lifecycle does not allow is
    /// reported and changes nothing else.
    pub open spec fn transition(
        self,
        id: Txid,
        next: TransactionState,
        height: Option<BlockHeight>,
    ) -> StoreView {
        if !self.txs.contains_key(id) {
            self.report(CoordinatorNewsView::TxNotFound { txid: id })
        } else if !self.txs[id].state.may_become(next) {
            self.report(
                CoordinatorNewsView::InvalidStateTransition {
                    txid: id,
                    from: self.txs[id].state,
                    to: next,
                },
            )
        } else {
            self.put(
                CoordinatedTxView {
                    state: next,
                    settled_block_height: if next.is_terminal() {
                        height
                    } else {
                        self.txs[id].settled_block_height
                    },
                    ..self.txs[id]
                },
            )
        }
    }

    /// Settling a record in a terminal state at `height`.
    pub open spec fn settle(self, id: Txid, next: TransactionState, height: BlockHeight) -> StoreView {
        self.transition(id, next, Some(height))
    }

    /// True when the record can go back to `ToDispatch`.
    pub open spec fn can_requeue(self, id: Txid) -> bool {
        self.txs.contains_key(id) && self.txs[id].state.may_become(TransactionState::ToDispatch)
    }

    /// Putting a lost transaction back in the queue. The fail guard is anchored the first time.
    pub open spec fn requeue_not_found(self, id: Txid, deadline: BlockHeight) -> StoreView {
        if self.can_requeue(id) {
            self.put(
                CoordinatedTxView {
                    state: TransactionState::ToDispatch,
                    fail_guard_until: Some(
                        match self.txs[id].fail_guard_until {
                            Some(anchored) => anchored,
                            None => deadline,
                        },
                    ),
                    ..self.txs[id]
                },
            )
        } else {
            self.transition(id, TransactionState::ToDispatch, None)
        }
    }

    /// Putting a transaction back in the queue for one more attempt.
    pub open spec fn mark_as_retry(self, id: Txid) -> StoreView {
        if self.can_requeue(id) {
            self.put(
                CoordinatedTxView {
                    state: TransactionState::ToDispatch,
                    retry_count: (self.txs[id].retry_count + 1) as u32,
                    ..self.txs[id]
                },
            )
        } else {
            self.transition(id, TransactionState::ToDispatch, None)
        }
    }

    /// A listed CPFP that has neither failed nor finalized covers `id`.
    pub open spec fn is_live_covered(self, id: Txid) -> bool {
        exists|i: int| 0 <= i < self.speedups.len() && self.covers(#[trigger] self.speedups[i], id)
    }

    /// The record `speedup` is a CPFP over `id` that has neither failed nor finalized.
    pub open spec fn covers(self, speedup: Txid, id: Txid) -> bool {
        &&& self.txs.contains_key(speedup)
        &&& !self.txs[speedup].state.is_terminal()
        &&& self.txs[speedup].kind matches TxKindView::Speedup(SpeedupKindView::CPFP { parents, .. })
        &&& parents.contains(id)
    }

    /// The record is due for eviction: settled at least `max_tracking` blocks ago, not a parent that
    /// a CPFP may still need, and not part of the funding queue.
    pub open spec fn is_evictable(self, id: Txid, height: BlockHeight, max_tracking: u32) -> bool {
        &&& self.txs.contains_key(id)
        &&& self.txs[id].state.is_terminal()
        &&& self.txs[id].settled_block_height matches Some(settled)
        &&& blocks_since(settled, height) >= max_tracking
        &&& !(self.txs[id].kind is NeedsSpeedup && (self.pending.contains(id)
            || self.is_live_covered(id)))
        &&& !self.funding.contains(FundingEntry::Record(id))
    }

    /// The txids of all records that are due for eviction.
    pub open spec fn evictable(self, height: BlockHeight, max_tracking: u32) -> Set<Txid> {
        Set::new(|id: Txid| self.is_evictable(id, height, max_tracking))
    }

    /// The news that announces the eviction of a record.
    pub open spec fn eviction_news(self, id: Txid) -> CoordinatorNewsView {
        CoordinatorNewsView::TransactionEvicted { txid: id, context: self.txs[id].context }
    }

    /// `news` is the news of this store followed by one fresh item, in any order, for each member of
    /// `gone` whose eviction news was not yet stored.
    pub open spec fn reports_evictions(self, news: Seq<NewsItemView>, gone: Set<Txid>) -> bool {
        &&& self.news.len() <= news.len()
        &&& news.take(self.news.len() as int) == self.news
        &&& forall|i: int|
            self.news.len() <= i < news.len() ==> self.is_fresh_eviction(#[trigger] news[i], gone)
        &&& forall|i: int, j: int|
            self.news.len() <= i < j < news.len() ==> (#[trigger] news[i]).news != (
            #[trigger] news[j]).news
        &&& forall|id: Txid| #[trigger]
            gone.contains(id) ==> exists|i: int|
                0 <= i < news.len() && (#[trigger] news[i]).news == self.eviction_news(id)
    }

    /// A new, unseen item that announces the eviction of a member of `gone` and was not stored yet.
    pub open spec fn is_fresh_eviction(self, item: NewsItemView, gone: Set<Txid>) -> bool {
        &&& item.acked_at_block is None && item.shown_at_block is None
        &&& !self.knows_news(item.news)
        &&& item.news matches CoordinatorNewsView::TransactionEvicted { txid, context }
        &&& gone.contains(txid) && self.eviction_news(txid) == item.news
    }

    /// The record of a parent that has been broadcast.
    pub open spec fn broadcast_parent(self) -> spec_fn(Txid) -> Option<CoordinatedTxView> {
        |id: Txid|
            if self.txs.contains_key(id) && is_broadcast(self.txs[id].state) {
                Some(self.txs[id])
            } else {
                None
            }
    }

    /// The parents that can be sped up now: broadcast and waiting for a CPFP.
    pub open spec fn ready_parents(self) -> Seq<CoordinatedTxView> {
        self.pending.filter_map(self.broadcast_parent())
    }

    /// Holds of the txids whose record exists and has not failed.
    pub open spec fn is_not_dead(self) -> spec_fn(Txid) -> bool {
        |id: Txid| self.txs.contains_key(id) && !(self.txs[id].state is Failed)
    }

    /// The pending parents without those that are gone or have failed.
    pub open spec fn prune_pending(self) -> StoreView {
        StoreView { pending: self.pending.filter(self.is_not_dead()), ..self }
    }

    /// Putting parents at the front of the pending list, in order, except those already in it.
    pub open spec fn prepend_pending(self, ids: Seq<Txid>) -> StoreView {
        StoreView { pending: ids.filter(not_listed(self.pending)) + self.pending, ..self }
    }

    /// Holds of the txids of stored parents that were registered for speedup.
    pub open spec fn is_protocol_parent(self) -> spec_fn(Txid) -> bool {
        |id: Txid| self.txs.contains_key(id) && self.txs[id].kind is NeedsSpeedup
    }

    /// Putting the protocol parents of a failed CPFP back at the front of the pending list.
    pub open spec fn requeue_parents(self, failed: CoordinatedTxView) -> StoreView {
        match failed.kind {
            TxKindView::Speedup(SpeedupKindView::CPFP { parents, .. }) => self.prepend_pending(
                parents.filter(self.is_protocol_parent()),
            ),
            _ => self,
        }
    }

    /// A funding UTXO has no record of its own: it is a sibling already, or the record of its
    /// transaction stands for another output.
    pub open spec fn is_sibling(self, utxo: Utxo) -> bool {
        !has_own_record(self.txs, utxo.txid, utxo.vout) && (has_output(
            self.funding,
            utxo.txid,
            utxo.vout,
        ) || (self.txs.contains_key(utxo.txid) && self.txs[utxo.txid].kind is Funding))
    }

    /// Adding a funding UTXO, unclaimed, at the end of the queue. One that is in the queue already keeps
    /// its place.
    pub open spec fn append_funding(self, utxo: Utxo) -> StoreView {
        if self.is_sibling(utxo) {
            StoreView { funding: with_output(self.funding, utxo), ..self }
        } else {
            StoreView {
                funding: append_new(self.funding, FundingEntry::Record(utxo.txid)),
                ..self.put(funding_record(FundingData { utxo, spent: false }))
            }
        }
    }

    /// Setting or clearing the claim mark of a record.
    pub open spec fn set_spent(self, id: Txid, spent: bool) -> StoreView {
        if self.txs.contains_key(id) {
            self.put(with_spent(self.txs[id], spent))
        } else {
            self
        }
    }

    /// Setting or clearing the claim mark of an output of the transaction `id`.
    pub open spec fn mark_output(self, id: Txid, vout: u32, spent: bool) -> StoreView {
        if has_own_record(self.txs, id, vout) {
            self.put(with_spent(self.txs[id], spent))
        } else {
            StoreView { funding: mark_listed(self.funding, id, vout, spent), ..self }
        }
    }

    /// Dropping the funding queue with its records.
    pub open spec fn clear_funding(self) -> StoreView {
        StoreView {
            txs: self.txs.remove_keys(record_txids(self.funding).to_set()),
            funding: Seq::empty(),
            ..self
        }
    }

    /// The outpoint that an entry of the funding queue stands for, where it stands for one.
    pub open spec fn queue_outpoint(self, entry: FundingEntry) -> Option<(Txid, u32)> {
        match entry {
            FundingEntry::Record(id) => if !self.txs.contains_key(id) {
                None
            } else {
                match self.txs[id].kind {
                    TxKindView::Funding(data) => Some((data.utxo.txid, data.utxo.vout)),
                    TxKindView::Speedup(_) => Some((self.txs[id].txid, self.txs[id].last_vout())),
                    _ => None,
                }
            },
            FundingEntry::Sibling(data) => Some((data.utxo.txid, data.utxo.vout)),
        }
    }

    /// The queue entry is one of the outputs that fund a speedup.
    pub open spec fn funds(self, entry: FundingEntry, inputs: Seq<Utxo>) -> bool {
        self.queue_outpoint(entry) matches Some(op) && exists|i: int|
            0 <= i < inputs.len() && (#[trigger] inputs[i]).txid == op.0 && inputs[i].vout == op.1
    }

    /// Holds of the queue entries that fund a speedup with these inputs.
    pub open spec fn is_spent_by(self, inputs: Seq<Utxo>) -> spec_fn(FundingEntry) -> bool {
        |entry: FundingEntry| self.funds(entry, inputs)
    }

    /// Holds of the other queue entries.
    pub open spec fn is_not_spent_by(self, inputs: Seq<Utxo>) -> spec_fn(FundingEntry) -> bool {
        |entry: FundingEntry| !self.funds(entry, inputs)
    }

    /// `p` is the first place of the queue whose entry is one of the outputs that fund a speedup.
    pub open spec fn is_first_spent(self, inputs: Seq<Utxo>, p: int) -> bool {
        &&& 0 <= p < self.funding.len()
        &&& self.funds(self.funding[p], inputs)
        &&& forall|q: int| 0 <= q < p ==> !self.funds(#[trigger] self.funding[q], inputs)
    }

    /// That place.
    pub open spec fn first_spent(self, inputs: Seq<Utxo>) -> int {
        choose|p: int| self.is_first_spent(inputs, p)
    }

    /// Holds of the speedups without an output, which offer no change.
    pub open spec fn has_no_change(self) -> spec_fn(FundingEntry) -> bool {
        |entry: FundingEntry|
            entry matches FundingEntry::Record(id) && self.txs.contains_key(id)
                && self.txs[id].is_speedup() && self.txs[id].tx.output.len() == 0
    }

    /// The first speedup in the funding queue that offers no change: the queue is broken there.
    pub open spec fn broken_entry(self) -> Option<FundingEntry> {
        find_first(self.funding, self.has_no_change())
    }

    /// The message about that entry.
    pub open spec fn broken_queue_text(self) -> Seq<char> {
        self.txs[self.broken_entry()->0->Record_0].no_output_text()
    }

    /// Finalizing the speedup `id` fails because the queue is broken.
    pub open spec fn replacing_fails(self, id: Txid) -> bool {
        self.txs.contains_key(id) && self.txs[id].is_speedup() && self.broken_entry() is Some
    }

    /// The coordinator tracks the transaction: it has a record that is not a funding UTXO.
    pub open spec fn is_tracked(self, id: Txid) -> bool {
        self.txs.contains_key(id) && !(self.txs[id].kind is Funding)
    }

    /// Reporting the eviction of each listed record, the last one first.
    pub open spec fn report_evictions(self, ids: Seq<Txid>) -> StoreView
        decreases ids.len(),
    {
        if ids.len() == 0 {
            self
        } else {
            self.report(self.eviction_news(ids.last())).report_evictions(ids.drop_last())
        }
    }

    /// Finalizing a speedup: the queue entries that funded it give way to the speedup itself, at the
    /// place of the first of them, and their records leave the store; the speedup leaves the speedup list.
    /// Nothing happens when `id` is not a speedup or none of the entries funded it.
    pub open spec fn replace_funding(self, id: Txid) -> StoreView {
        if !self.txs.contains_key(id) || !self.txs[id].is_speedup() {
            self
        } else {
            let inputs = self.txs[id].speedup().context().funding_inputs;
            let spent = self.funding.filter(self.is_spent_by(inputs));
            let kept = self.funding.filter(self.is_not_spent_by(inputs));
            let gone = record_txids(spent);
            if spent.len() == 0 {
                self
            } else {
                StoreView {
                    txs: self.txs.remove_keys(gone.to_set()),
                    news: self.report_evictions(gone).news,
                    speedups: without(without_all(self.speedups, gone.to_set()), id),
                    funding: kept.insert(self.first_spent(inputs), FundingEntry::Record(id)),
                    ..self
                }
            }
        }
    }
}

} // verus!
