use crate::config::CoordinatorStorageSettings;
use crate::errors::BitcoinCoordinatorError;
use crate::lemmas::{
    lemma_added_sibling_differs, lemma_filter_all, lemma_filter_keeps_siblings_apart,
    lemma_filter_map_step, lemma_filter_members, lemma_filter_step, lemma_inserted_record_differs,
    lemma_put_keeps_ownership,
    lemma_relabelled_siblings_differ,
    lemma_filter_twice, lemma_find_first_prefix, lemma_find_first_step, lemma_record_txids_members,
};
use crate::model::{
    any_record, append_new, by_txid, cleaned_up, due_item, due_news, empty_record, entry_record,
    entry_txid, find_first, funding_record, has_output, has_own_record, in_state, is_active, is_first_unacked,
    is_output, is_settled, lists_selected, lookup, mark_listed, mark_shown, not_acked_before,
    listed_once, not_listed, other_than, outside_of, present, record_txids, sibling,
    siblings_differ, with_output, with_spent, without, without_all, NewsItemView, StoreView,
};
use crate::primitives::{views, BlockHeight, OutPoint, Transaction, Txid};
use crate::speedup_model::replaced_chain;
use crate::types::{
    CoordinatedTx, CoordinatedTxView, CoordinatorNews, FeeInfo, FundingData, FundingEntry,
    SpeedupKind, TransactionState, TxKind, Utxo,
};
use vstd::prelude::*;
use vstd::string::*;

verus! {

/// A news item with the block at which it was acknowledged and the last one at which it was shown.
#[derive(Debug)]
pub struct StoredNewsItem {
    pub news: CoordinatorNews,
    pub acked_at_block: Option<BlockHeight>,
    pub shown_at_block: Option<BlockHeight>,
}

impl View for StoredNewsItem {
    type V = NewsItemView;

    open spec fn view(&self) -> NewsItemView {
        NewsItemView {
            news: self.news@,
            acked_at_block: self.acked_at_block,
            shown_at_block: self.shown_at_block,
        }
    }
}

/// The coordinator's records, news and lists.
#[derive(Debug)]
pub struct CoordinatorStorage {
    records: Vec<CoordinatedTx>,
    news: Vec<StoredNewsItem>,
    speedup_list: Vec<Txid>,
    pending_speedup_parents: Vec<Txid>,
    funding_list: Vec<FundingEntry>,
    settings: CoordinatorStorageSettings,
}

/// Some record has this txid.
spec fn has_record(records: Seq<CoordinatedTx>, id: Txid) -> bool {
    exists|i: int| 0 <= i < records.len() && (#[trigger] records[i]).txid == id
}

/// Place of a record with this txid.
spec fn place_of(records: Seq<CoordinatedTx>, id: Txid) -> int {
    choose|i: int| 0 <= i < records.len() && (#[trigger] records[i]).txid == id
}

/// No two records have the same txid.
spec fn unique_txids(records: Seq<CoordinatedTx>) -> bool {
    forall|i: int, j: int|
        0 <= i < j < records.len() ==> (#[trigger] records[i]).txid != (#[trigger] records[j]).txid
}

/// The records by txid.
spec fn record_map(records: Seq<CoordinatedTx>) -> Map<Txid, CoordinatedTxView> {
    Map::new(|id: Txid| has_record(records, id), |id: Txid| records[place_of(records, id)]@)
}

proof fn lemma_record_map(records: Seq<CoordinatedTx>, i: int)
    requires
        unique_txids(records),
        0 <= i < records.len(),
    ensures
        record_map(records).contains_key(records[i].txid),
        record_map(records)[records[i].txid] == records[i]@,
        place_of(records, records[i].txid) == i,
{
    let id = records[i].txid;
    assert(has_record(records, id));
    let p = place_of(records, id);
    assert(0 <= p < records.len() && records[p].txid == id);
}

proof fn lemma_record_map_set(records: Seq<CoordinatedTx>, i: int, tx: CoordinatedTx)
    requires
        unique_txids(records),
        0 <= i < records.len(),
        records[i].txid == tx.txid,
    ensures
        unique_txids(records.update(i, tx)),
        record_map(records.update(i, tx)) == record_map(records).insert(tx.txid, tx@),
{
    let updated = records.update(i, tx);
    assert forall|a: int, b: int| 0 <= a < b < updated.len() implies (#[trigger] updated[a]).txid != (
    #[trigger] updated[b]).txid by {
        assert(records[a].txid != records[b].txid);
    }
    let want = record_map(records).insert(tx.txid, tx@);
    assert forall|id: Txid| record_map(updated).contains_key(id) <==> want.contains_key(id) by {
        if has_record(updated, id) {
            let p = place_of(updated, id);
            assert(records[p].txid == id);
        }
        if has_record(records, id) {
            let p = place_of(records, id);
            assert(updated[p].txid == id);
        }
        assert(updated[i].txid == tx.txid);
    }
    assert forall|id: Txid| record_map(updated).contains_key(id) implies record_map(updated)[id]
        == want[id] by {
        let p = place_of(updated, id);
        assert(updated[p].txid == id);
        if p == i {
        } else {
            assert(records[p].txid == id);
            lemma_record_map(records, p);
            assert(records[i].txid != records[p].txid);
        }
    }
    assert(record_map(updated) =~= want);
}

proof fn lemma_record_map_push(records: Seq<CoordinatedTx>, tx: CoordinatedTx)
    requires
        unique_txids(records),
        !has_record(records, tx.txid),
    ensures
        unique_txids(records.push(tx)),
        record_map(records.push(tx)) == record_map(records).insert(tx.txid, tx@),
{
    let pushed = records.push(tx);
    let n = records.len() as int;
    assert(pushed[n].txid == tx.txid);
    assert forall|a: int, b: int| 0 <= a < b < pushed.len() implies (#[trigger] pushed[a]).txid != (
    #[trigger] pushed[b]).txid by {
        assert(records[a].txid != tx.txid);
    }
    let want = record_map(records).insert(tx.txid, tx@);
    assert forall|id: Txid| record_map(pushed).contains_key(id) <==> want.contains_key(id) by {
        if has_record(pushed, id) {
            let p = place_of(pushed, id);
            if p < n {
                assert(records[p].txid == id);
            }
        }
        if has_record(records, id) {
            let p = place_of(records, id);
            assert(pushed[p].txid == id);
        }
    }
    assert forall|id: Txid| record_map(pushed).contains_key(id) implies record_map(pushed)[id]
        == want[id] by {
        let p = place_of(pushed, id);
        assert(pushed[p].txid == id);
        if p < n {
            assert(records[p].txid == id);
            lemma_record_map(records, p);
        }
    }
    assert(record_map(pushed) =~= want);
}

proof fn lemma_record_map_remove(records: Seq<CoordinatedTx>, i: int)
    requires
        unique_txids(records),
        0 <= i < records.len(),
    ensures
        unique_txids(records.remove(i)),
        record_map(records.remove(i)) == record_map(records).remove(records[i].txid),
{
    let left = records.remove(i);
    let gone = records[i].txid;
    assert forall|a: int, b: int| 0 <= a < b < left.len() implies (#[trigger] left[a]).txid != (
    #[trigger] left[b]).txid by {
        let x = if a < i { a } else { a + 1 };
        let y = if b < i { b } else { b + 1 };
        assert(records[x].txid != records[y].txid);
    }
    let want = record_map(records).remove(gone);
    assert forall|id: Txid| record_map(left).contains_key(id) <==> want.contains_key(id) by {
        if has_record(left, id) {
            let p = place_of(left, id);
            assert(left[p].txid == id);
            let x = if p < i { p } else { p + 1 };
            assert(records[x].txid == id);
            assert(records[i].txid != records[x].txid);
        }
        if has_record(records, id) && id != gone {
            let p = place_of(records, id);
            assert(records[p].txid == id);
            let x = if p < i { p } else { p - 1 };
            assert(left[x].txid == id);
        }
    }
    assert forall|id: Txid| record_map(left).contains_key(id) implies record_map(left)[id]
        == want[id] by {
        let p = place_of(left, id);
        assert(left[p].txid == id);
        let x = if p < i { p } else { p + 1 };
        assert(records[x].txid == id);
        lemma_record_map(records, x);
        assert(records[i].txid != records[x].txid);
    }
    assert(record_map(left) =~= want);
}

/// There are as many records in the map as in the list.
proof fn lemma_record_count(records: Seq<CoordinatedTx>)
    requires
        unique_txids(records),
    ensures
        record_map(records).dom().finite(),
        record_map(records).len() == records.len(),
    decreases records.len(),
{
    if records.len() == 0 {
        assert(record_map(records) =~= Map::empty());
    } else {
        let rest = records.drop_last();
        let last = records.last();
        assert forall|i: int, j: int| 0 <= i < j < rest.len() implies (#[trigger] rest[i]).txid != (
        #[trigger] rest[j]).txid by {
            assert(records[i].txid != records[j].txid);
        }
        lemma_record_count(rest);
        assert(!has_record(rest, last.txid)) by {
            if has_record(rest, last.txid) {
                let p = place_of(rest, last.txid);
                assert(records[p].txid != records[records.len() - 1].txid);
            }
        }
        lemma_record_map_push(rest, last);
        assert(rest.push(last) =~= records);
    }
}

impl View for CoordinatorStorage {
    type V = StoreView;

    closed spec fn view(&self) -> StoreView {
        StoreView {
            txs: record_map(self.records@),
            news: views(self.news@),
            speedups: self.speedup_list@,
            pending: self.pending_speedup_parents@,
            funding: self.funding_list@,
        }
    }
}

impl CoordinatorStorage {
    /// Records are found by txid: no two have the same. No two siblings are for the same output.
    pub closed spec fn wf(self) -> bool {
        unique_txids(self.records@) && siblings_differ(self.funding_list@)
    }

    /// How many blocks a settled record is kept.
    pub closed spec fn max_tracking(self) -> u32 {
        self.settings.max_tracking_confirmations
    }

    /// An empty store.
    pub fn new(settings: CoordinatorStorageSettings) -> (r: Self)
        ensures
            r.wf(),
            r@ == StoreView::empty(),
            r@.owns_outputs(),
            r.max_tracking() == settings.max_tracking_confirmations,
    {
        let r = CoordinatorStorage {
            records: Vec::new(),
            news: Vec::new(),
            speedup_list: Vec::new(),
            pending_speedup_parents: Vec::new(),
            funding_list: Vec::new(),
            settings,
        };
        assert(r@.txs =~= Map::empty());
        assert(r@.news =~= Seq::empty());
        r
    }

    /// Place of the record with this txid.
    fn find(&self, id: Txid) -> (r: Option<usize>)
        ensures
            match r {
                Some(i) => i < self.records@.len() && self.records@[i as int].txid == id,
                None => !has_record(self.records@, id),
            },
    {
        for i in 0..self.records.len()
            invariant
                forall|j: int| 0 <= j < i ==> (#[trigger] self.records@[j]).txid != id,
        {
            if self.records[i].txid == id {
                return Some(i);
            }
        }
        None
    }

    /// Store a record, replacing the one with the same txid.
    pub fn insert_tx(&mut self, tx: CoordinatedTx)
        requires
            old(self).wf(),
        ensures
            final(self).wf(),
            final(self).max_tracking() == old(self).max_tracking(),
            tx@.owns_output() ==> final(self)@.keeps_ownership(old(self)@),
            final(self)@ == old(self)@.put(tx@),
    {
        let ghost before = self.records@;
        proof {
            if tx@.owns_output() {
                lemma_put_keeps_ownership(self@, tx@);
            }
        }
        match self.find(tx.txid) {
            Some(i) => {
                proof {
                    lemma_record_map_set(before, i as int, tx);
                    assert(record_map(before.update(i as int, tx)) == self@.put(tx@).txs);
                }
                self.records.set(i, tx);
            },
            None => {
                proof {
                    lemma_record_map_push(before, tx);
                    assert(record_map(before.push(tx)) == self@.put(tx@).txs);
                }
                self.records.push(tx);
            },
        }
    }

    /// Store several records, in order.
    pub fn insert_txs(&mut self, txs: Vec<CoordinatedTx>)
        requires
            old(self).wf(),
        ensures
            final(self).wf(),
            final(self).max_tracking() == old(self).max_tracking(),
            (forall|i: int| 0 <= i < txs@.len() ==> (#[trigger] txs@[i])@.owns_output())
                ==> final(self)@.keeps_ownership(old(self)@),
            final(self)@ == views(txs@).fold_left(
                old(self)@,
                |s: StoreView, tx: CoordinatedTxView| s.put(tx),
            ),
    {
        let ghost put = |s: StoreView, tx: CoordinatedTxView| s.put(tx);
        let ghost start = self@;
        let mut i: usize = 0;
        assert(views(txs@).take(0).fold_left(start, put) == start);
        while i < txs.len()
            invariant
                self.wf(),
                self.max_tracking() == old(self).max_tracking(),
                i <= txs@.len(),
                put == (|s: StoreView, tx: CoordinatedTxView| s.put(tx)),
                (forall|k: int| 0 <= k < txs@.len() ==> (#[trigger] txs@[k])@.owns_output())
                    ==> self@.keeps_ownership(start),
                self@ == views(txs@).take(i as int).fold_left(start, put),
            decreases txs@.len() - i,
        {
            self.insert_tx(txs[i].clone());
            proof {
                let all = views(txs@);
                assert(all.take(i + 1).drop_last() =~= all.take(i as int));
                assert(all.take(i + 1).last() == txs@[i as int]@);
            }
            i = i + 1;
        }
        assert(views(txs@).take(i as int) =~= views(txs@));
    }

    /// Store the new value of a record.
    pub fn update_tx(&mut self, tx: &CoordinatedTx)
        requires
            old(self).wf(),
        ensures
            final(self).wf(),
            final(self).max_tracking() == old(self).max_tracking(),
            tx@.owns_output() ==> final(self)@.keeps_ownership(old(self)@),
            final(self)@ == old(self)@.put(tx@),
    {
        self.insert_tx(tx.clone());
    }

    /// Drop a record, keeping the lists.
    fn drop_record(&mut self, id: Txid)
        requires
            old(self).wf(),
        ensures
            final(self).wf(),
            final(self).max_tracking() == old(self).max_tracking(),
            final(self)@.keeps_ownership(old(self)@),
            final(self)@ == (StoreView { txs: old(self)@.txs.remove(id), ..old(self)@ }),
    {
        match self.find(id) {
            Some(i) => {
                proof {
                    lemma_record_map_remove(self.records@, i as int);
                }
                let _ = self.records.remove(i);
            },
            None => {
                assert(self@.txs.remove(id) =~= self@.txs);
            },
        }
        assert(self@.txs == old(self)@.txs.remove(id));
        assert forall|x: Txid| #[trigger] self@.txs.contains_key(x) implies old(self)@.txs.contains_key(x)
            && self@.txs[x] == old(self)@.txs[x] by {}
    }

    /// Take a txid out of the speedup list.
    fn remove_speedup_from_list(&mut self, id: Txid)
        ensures
            final(self).wf() == old(self).wf(),
            final(self).max_tracking() == old(self).max_tracking(),
            final(self)@.keeps_ownership(old(self)@),
            final(self)@ == (StoreView { speedups: without(old(self)@.speedups, id), ..old(self)@ }),
    {
        self.speedup_list = list_without(&self.speedup_list, id);
        assert(self@.txs == old(self)@.txs);
    }

    /// Remove a record; it also leaves the speedup list.
    pub fn remove_tx(&mut self, tx_id: Txid)
        requires
            old(self).wf(),
        ensures
            final(self).wf(),
            final(self).max_tracking() == old(self).max_tracking(),
            final(self)@.keeps_ownership(old(self)@),
            final(self)@ == old(self)@.remove(tx_id),
    {
        self.drop_record(tx_id);
        self.remove_speedup_from_list(tx_id);
    }

    /// The record with this txid.
    pub fn get_tx_by_id(&self, tx_id: Txid) -> (r: Option<CoordinatedTx>)
        requires
            self.wf(),
        ensures
            match r {
                Some(tx) => self@.txs.contains_key(tx_id) && tx@ == self@.txs[tx_id] && tx.txid == tx_id,
                None => !self@.txs.contains_key(tx_id),
            },
    {
        match self.find(tx_id) {
            Some(i) => {
                proof {
                    lemma_record_map(self.records@, i as int);
                }
                Some(self.records[i].clone())
            },
            None => None,
        }
    }

    /// True when a record with this txid is stored.
    pub fn tx_exists(&self, tx_id: Txid) -> (r: bool)
        requires
            self.wf(),
        ensures
            r == self@.txs.contains_key(tx_id),
    {
        self.get_tx_by_id(tx_id).is_some()
    }
}

/// Which states a listing selects.
struct StateSet {
    to_dispatch: bool,
    in_mempool: bool,
    confirmed: bool,
    finalized: bool,
    failed: bool,
}

impl StateSet {
    spec fn holds(self, state: TransactionState) -> bool {
        match state {
            TransactionState::ToDispatch => self.to_dispatch,
            TransactionState::InMempool => self.in_mempool,
            TransactionState::Confirmed => self.confirmed,
            TransactionState::Finalized => self.finalized,
            TransactionState::Failed => self.failed,
        }
    }

    fn contains(&self, state: TransactionState) -> (r: bool)
        ensures
            r == self.holds(state),
    {
        match state {
            TransactionState::ToDispatch => self.to_dispatch,
            TransactionState::InMempool => self.in_mempool,
            TransactionState::Confirmed => self.confirmed,
            TransactionState::Finalized => self.finalized,
            TransactionState::Failed => self.failed,
        }
    }
}

impl CoordinatorStorage {
    /// The records in the given states.
    fn records_in(&self, states: StateSet) -> (r: Vec<CoordinatedTx>)
        requires
            self.wf(),
        ensures
            lists_selected(
                views(r@),
                self@.txs,
                |tx: CoordinatedTxView| states.holds(tx.state),
            ),
    {
        let mut listing: Vec<CoordinatedTx> = Vec::new();
        let ghost places: Seq<int> = Seq::empty();
        for i in 0..self.records.len()
            invariant
                self.wf(),
                places.len() == listing@.len(),
                forall|k: int|
                    0 <= k < places.len() ==> 0 <= #[trigger] places[k] < i
                        && self.records@[places[k]]@ == listing@[k]@ && states.holds(
                        self.records@[places[k]].state,
                    ),
                forall|k: int, m: int|
                    0 <= k < m < places.len() ==> #[trigger] places[k] < #[trigger] places[m],
                forall|j: int|
                    0 <= j < i && states.holds((#[trigger] self.records@[j]).state)
                        ==> exists|k: int| 0 <= k < places.len() && #[trigger] places[k] == j,
        {
            if states.contains(self.records[i].state) {
                let ghost before = places;
                listing.push(self.records[i].clone());
                proof {
                    places = places.push(i as int);
                    assert forall|j: int|
                        0 <= j < i + 1 && states.holds((#[trigger] self.records@[j]).state)
                        implies exists|k: int| 0 <= k < places.len() && #[trigger] places[k] == j by {
                        if j < i {
                            let k = choose|k: int| 0 <= k < before.len() && #[trigger] before[k] == j;
                            assert(places[k] == j);
                        } else {
                            assert(places[before.len() as int] == j);
                        }
                    }
                }
            }
        }
        proof {
            let all = views(listing@);
            let keep = |tx: CoordinatedTxView| states.holds(tx.state);
            assert forall|k: int| 0 <= k < all.len() implies self@.txs.contains_key(
                (#[trigger] all[k]).txid,
            ) && self@.txs[all[k].txid] == all[k] && keep(all[k]) by {
                assert(0 <= places[k]);
                lemma_record_map(self.records@, places[k]);
            }
            assert forall|k: int, m: int| 0 <= k < m < all.len() implies (#[trigger] all[k]).txid != (
            #[trigger] all[m]).txid by {
                assert(places[k] < places[m]);
                assert(self.records@[places[k]].txid != self.records@[places[m]].txid);
            }
            assert forall|id: Txid| #[trigger]
                self@.txs.contains_key(id) && keep(self@.txs[id]) implies exists|k: int|
                0 <= k < all.len() && #[trigger] all[k] == self@.txs[id] by {
                let j = place_of(self.records@, id);
                assert(self.records@[j].txid == id);
                lemma_record_map(self.records@, j);
                assert(states.holds(self.records@[j].state));
                let k = choose|k: int| 0 <= k < places.len() && #[trigger] places[k] == j;
                assert(all[k] == self@.txs[id]);
            }
        }
        listing
    }

    /// All the records, in no particular order.
    pub fn get_all_txs(&self) -> (r: Vec<CoordinatedTx>)
        requires
            self.wf(),
        ensures
            lists_selected(views(r@), self@.txs, any_record()),
    {
        self.records_in(
            StateSet {
                to_dispatch: true,
                in_mempool: true,
                confirmed: true,
                finalized: true,
                failed: true,
            },
        )
    }

    /// The records in one state, in no particular order.
    pub fn get_by_state(&self, state: TransactionState) -> (r: Vec<CoordinatedTx>)
        requires
            self.wf(),
        ensures
            lists_selected(views(r@), self@.txs, in_state(state)),
    {
        self.records_in(
            StateSet {
                to_dispatch: state == TransactionState::ToDispatch,
                in_mempool: state == TransactionState::InMempool,
                confirmed: state == TransactionState::Confirmed,
                finalized: state == TransactionState::Finalized,
                failed: state == TransactionState::Failed,
            },
        )
    }

    /// The records that are not in a terminal state: the only ones that the coordinator acts on.
    pub fn get_active_txs(&self) -> (r: Vec<CoordinatedTx>)
        requires
            self.wf(),
        ensures
            lists_selected(views(r@), self@.txs, is_active()),
    {
        self.records_in(
            StateSet {
                to_dispatch: true,
                in_mempool: true,
                confirmed: true,
                finalized: false,
                failed: false,
            },
        )
    }

    /// The records that have reached a terminal state (`Finalized` or `Failed`).
    pub fn get_settled_txs(&self) -> (r: Vec<CoordinatedTx>)
        requires
            self.wf(),
        ensures
            lists_selected(views(r@), self@.txs, is_settled()),
    {
        self.records_in(
            StateSet {
                to_dispatch: false,
                in_mempool: false,
                confirmed: false,
                finalized: true,
                failed: true,
            },
        )
    }

    // News

    /// Store `news` unless an item with the same value is stored already, acknowledged or not.
    /// Returns whether it was stored.
    pub fn add_news(&mut self, news: CoordinatorNews) -> (r: bool)
        ensures
            final(self).wf() == old(self).wf(),
            final(self).max_tracking() == old(self).max_tracking(),
            final(self)@.keeps_ownership(old(self)@),
            final(self)@ == old(self)@.report(news@),
            r == !old(self)@.knows_news(news@),
    {
        let ghost items = self@.news;
        let n: usize = self.news.len();
        for i in 0..n
            invariant
                n == self.news@.len(),
                *self == *old(self),
                items == views(self.news@),
                forall|j: int| 0 <= j < i ==> (#[trigger] items[j]).news != news@,
        {
            if self.news[i].news.same(&news) {
                assert(items[i as int].news == news@);
                return false;
            }
        }
        self.news.push(StoredNewsItem { news, acked_at_block: None, shown_at_block: None });
        assert(self@.news =~= old(self)@.report(news@).news);
        true
    }

    /// Return the unacknowledged news not yet shown at `current_height` and mark it as shown. A second
    /// call at the same height returns nothing; at another height the news is shown again.
    pub fn get_and_mark_news(&mut self, current_height: BlockHeight) -> (r: Vec<CoordinatorNews>)
        ensures
            final(self).wf() == old(self).wf(),
            final(self).max_tracking() == old(self).max_tracking(),
            final(self)@.keeps_ownership(old(self)@),
            final(self)@ == (StoreView {
                news: mark_shown(old(self)@.news, current_height),
                ..old(self)@
            }),
            views(r@) == due_news(old(self)@.news, current_height),
    {
        let mut pending: Vec<CoordinatorNews> = Vec::new();
        let ghost items = self@.news;
        let ghost due = due_item(current_height);
        assert(views(pending@) =~= items.take(0).filter_map(due));
        let n: usize = self.news.len();
        for i in 0..n
            invariant
                n == self.news@.len(),
                self.news@.len() == items.len(),
                items == old(self)@.news,
                self.records == old(self).records,
                self.speedup_list == old(self).speedup_list,
                self.pending_speedup_parents == old(self).pending_speedup_parents,
                self.funding_list == old(self).funding_list,
                self.settings == old(self).settings,
                due == due_item(current_height),
                views(pending@) == items.take(i as int).filter_map(due),
                forall|j: int|
                    0 <= j < i ==> (#[trigger] self.news@[j])@ == mark_shown(items, current_height)[j],
                forall|j: int| i <= j < items.len() ==> (#[trigger] self.news@[j])@ == items[j],
        {
            proof {
                lemma_filter_map_step(items, due, i as int);
            }
            let unacked = self.news[i].acked_at_block.is_none();
            let shown = match self.news[i].shown_at_block {
                Some(height) => height == current_height,
                None => false,
            };
            if unacked && !shown {
                let news = self.news[i].news.clone();
                let item = StoredNewsItem {
                    news: news.clone(),
                    acked_at_block: None,
                    shown_at_block: Some(current_height),
                };
                let ghost before = views(pending@);
                pending.push(news);
                self.news.set(i, item);
                assert(views(pending@) =~= before.push(items[i as int].news));
            }
        }
        assert(items.take(items.len() as int) =~= items);
        assert(self@.news =~= mark_shown(items, current_height));
        pending
    }

    /// Mark `news` as acknowledged at `current_height`. The item is no longer shown, but it stays until
    /// a clean-up at a later block.
    pub fn ack_news(&mut self, news: CoordinatorNews, current_height: BlockHeight)
        ensures
            final(self).wf() == old(self).wf(),
            final(self).max_tracking() == old(self).max_tracking(),
            final(self)@.keeps_ownership(old(self)@),
            final(self)@ == old(self)@.acknowledge(news@, current_height),
    {
        let ghost items = self@.news;
        let n: usize = self.news.len();
        for i in 0..n
            invariant
                n == self.news@.len(),
                *self == *old(self),
                items == views(self.news@),
                items == old(self)@.news,
                forall|j: int|
                    0 <= j < i ==> !((#[trigger] items[j]).acked_at_block is None && items[j].news
                        == news@),
        {
            if self.news[i].acked_at_block.is_none() && self.news[i].news.same(&news) {
                let item = StoredNewsItem {
                    news: self.news[i].news.clone(),
                    acked_at_block: Some(current_height),
                    shown_at_block: self.news[i].shown_at_block,
                };
                self.news.set(i, item);
                proof {
                    assert(is_first_unacked(items, news@, i as int));
                    let first = choose|k: int| is_first_unacked(items, news@, k);
                    assert(first == i) by {
                        if first < i {
                            assert(!(items[first].acked_at_block is None && items[first].news == news@));
                        }
                    }
                    assert(self@.news =~= old(self)@.acknowledge(news@, current_height).news);
                }
                return;
            }
        }
    }

    /// Remove the items that were acknowledged at an earlier block.
    pub fn cleanup_news(&mut self, current_height: BlockHeight)
        ensures
            final(self).wf() == old(self).wf(),
            final(self).max_tracking() == old(self).max_tracking(),
            final(self)@.keeps_ownership(old(self)@),
            final(self)@ == (StoreView {
                news: cleaned_up(old(self)@.news, current_height),
                ..old(self)@
            }),
    {
        let ghost items = self@.news;
        let ghost keep = not_acked_before(current_height);
        let mut kept: Vec<StoredNewsItem> = Vec::new();
        proof {
            reveal(Seq::filter);
            assert(views(kept@) =~= items.take(0).filter(keep));
        }
        let n: usize = self.news.len();
        for i in 0..n
            invariant
                n == self.news@.len(),
                *self == *old(self),
                items == views(self.news@),
                keep == not_acked_before(current_height),
                views(kept@) == items.take(i as int).filter(keep),
        {
            proof {
                lemma_filter_step(items, keep, i as int);
            }
            let retained = match self.news[i].acked_at_block {
                Some(acked) => acked >= current_height,
                None => true,
            };
            if retained {
                let ghost before = views(kept@);
                kept.push(
                    StoredNewsItem {
                        news: self.news[i].news.clone(),
                        acked_at_block: self.news[i].acked_at_block,
                        shown_at_block: self.news[i].shown_at_block,
                    },
                );
                assert(views(kept@) =~= before.push(items[i as int]));
            }
        }
        assert(items.take(items.len() as int) =~= items);
        self.news = kept;
        assert(self@.txs == old(self)@.txs);
    }
}

impl CoordinatorStorage {
    // State changes

    /// Move a record to `new_state`; a missing record or a step that the lifecycle does not allow is
    /// reported instead.
    fn change_state(&mut self, tx_id: Txid, new_state: TransactionState, height: Option<BlockHeight>)
        requires
            old(self).wf(),
        ensures
            final(self).wf(),
            final(self).max_tracking() == old(self).max_tracking(),
            final(self)@.keeps_ownership(old(self)@),
            final(self)@ == old(self)@.transition(tx_id, new_state, height),
    {
        let mut tx = match self.get_tx_by_id(tx_id) {
            Some(tx) => tx,
            None => {
                self.add_news(CoordinatorNews::TxNotFound { txid: tx_id });
                return;
            },
        };
        if !tx.state.can_transition_to(&new_state) {
            self.add_news(
                CoordinatorNews::InvalidStateTransition { txid: tx_id, from: tx.state, to: new_state },
            );
            return;
        }
        if new_state == TransactionState::Finalized || new_state == TransactionState::Failed {
            tx.settled_block_height = height;
        }
        tx.state = new_state;
        self.insert_tx(tx);
    }

    /// Move a record to a non-terminal state. `Internal` error for a terminal one: that is what
    /// `settle_tx` is for.
    pub fn update_tx_state(&mut self, tx_id: Txid, new_state: TransactionState) -> (r: Result<
        (),
        BitcoinCoordinatorError,
    >)
        requires
            old(self).wf(),
        ensures
            final(self).wf(),
            final(self).max_tracking() == old(self).max_tracking(),
            final(self)@.keeps_ownership(old(self)@),
            match r {
                Ok(_) => !new_state.is_terminal() && final(self)@ == old(self)@.transition(
                    tx_id,
                    new_state,
                    None,
                ),
                Err(e) => new_state.is_terminal() && final(self)@ == old(self)@ && e.is_internal(
                    "settle_tx must be used for terminal states (Finalized/Failed)"@,
                ),
            },
    {
        if new_state == TransactionState::Finalized || new_state == TransactionState::Failed {
            return Err(
                BitcoinCoordinatorError::Internal(
                    "settle_tx must be used for terminal states (Finalized/Failed)".to_string(),
                ),
            );
        }
        self.change_state(tx_id, new_state, None);
        Ok(())
    }

    /// Put a transaction that was found neither on chain nor in the mempool back to `ToDispatch`, and
    /// arm its fail guard. The guard keeps its first deadline.
    pub fn requeue_not_found(&mut self, tx_id: Txid, guard_deadline: BlockHeight)
        requires
            old(self).wf(),
        ensures
            final(self).wf(),
            final(self).max_tracking() == old(self).max_tracking(),
            final(self)@.keeps_ownership(old(self)@),
            final(self)@ == old(self)@.requeue_not_found(tx_id, guard_deadline),
    {
        if let Some(tx) = self.get_tx_by_id(tx_id) {
            if tx.state.can_transition_to(&TransactionState::ToDispatch) {
                let mut tx = tx;
                tx.state = TransactionState::ToDispatch;
                if tx.fail_guard_until.is_none() {
                    tx.fail_guard_until = Some(guard_deadline);
                }
                self.insert_tx(tx);
                return;
            }
        }
        self.change_state(tx_id, TransactionState::ToDispatch, None);
    }

    /// Move a record to a terminal state (`Finalized` or `Failed`) and record the block height.
    /// `Internal` error for a non-terminal state.
    pub fn settle_tx(
        &mut self,
        tx_id: Txid,
        new_state: TransactionState,
        block_height: BlockHeight,
    ) -> (r: Result<(), BitcoinCoordinatorError>)
        requires
            old(self).wf(),
        ensures
            final(self).wf(),
            final(self).max_tracking() == old(self).max_tracking(),
            final(self)@.keeps_ownership(old(self)@),
            match r {
                Ok(_) => new_state.is_terminal() && final(self)@ == old(self)@.settle(
                    tx_id,
                    new_state,
                    block_height,
                ),
                Err(e) => !new_state.is_terminal() && final(self)@ == old(self)@ && e.is_internal(
                    "settle_tx must only be called with Finalized or Failed"@,
                ),
            },
    {
        if new_state != TransactionState::Finalized && new_state != TransactionState::Failed {
            return Err(
                BitcoinCoordinatorError::Internal(
                    "settle_tx must only be called with Finalized or Failed".to_string(),
                ),
            );
        }
        self.change_state(tx_id, new_state, Some(block_height));
        Ok(())
    }

    /// Put a transaction back to `ToDispatch` for another attempt and count the attempt. A missing
    /// record or a terminal one is reported instead.
    pub fn mark_as_retry(&mut self, tx_id: Txid)
        requires
            old(self).wf(),
            old(self)@.can_requeue(tx_id) ==> old(self)@.txs[tx_id].retry_count < u32::MAX,
        ensures
            final(self).wf(),
            final(self).max_tracking() == old(self).max_tracking(),
            final(self)@.keeps_ownership(old(self)@),
            final(self)@ == old(self)@.mark_as_retry(tx_id),
    {
        if let Some(tx) = self.get_tx_by_id(tx_id) {
            if tx.state.can_transition_to(&TransactionState::ToDispatch) {
                let mut tx = tx;
                tx.state = TransactionState::ToDispatch;
                tx.retry_count = tx.retry_count + 1;
                self.insert_tx(tx);
                return;
            }
        }
        self.change_state(tx_id, TransactionState::ToDispatch, None);
    }

    // Speedups

    /// Store a speedup and append its txid to the speedup list, so that it is found in creation order.
    pub fn insert_speedup(&mut self, tx: CoordinatedTx)
        requires
            old(self).wf(),
        ensures
            final(self).wf(),
            final(self).max_tracking() == old(self).max_tracking(),
            tx@.owns_output() ==> final(self)@.keeps_ownership(old(self)@),
            final(self)@ == old(self)@.put_speedup(tx@),
    {
        let txid = tx.txid;
        self.insert_tx(tx);
        if !list_contains(&self.speedup_list, txid) {
            self.speedup_list.push(txid);
        }
    }

    /// The records of a list of txids, in order; txids without a record are skipped.
    fn records_of(&self, ids: &Vec<Txid>) -> (r: Vec<CoordinatedTx>)
        requires
            self.wf(),
        ensures
            views(r@) == present(self@.txs, ids@),
    {
        let mut found: Vec<CoordinatedTx> = Vec::new();
        let ghost get = lookup(self@.txs);
        assert(views(found@) =~= ids@.take(0).filter_map(get));
        for i in 0..ids.len()
            invariant
                self.wf(),
                get == lookup(self@.txs),
                views(found@) == ids@.take(i as int).filter_map(get),
        {
            proof {
                lemma_filter_map_step(ids@, get, i as int);
            }
            if let Some(tx) = self.get_tx_by_id(ids[i]) {
                let ghost before = views(found@);
                let ghost added = tx@;
                found.push(tx);
                assert(views(found@) =~= before.push(added));
            }
        }
        assert(ids@.take(ids@.len() as int) =~= ids@);
        found
    }

    /// The speedups in creation order.
    pub fn get_speedups_ordered(&self) -> (r: Vec<CoordinatedTx>)
        requires
            self.wf(),
        ensures
            views(r@) == self@.speedup_records(),
    {
        self.records_of(&self.speedup_list)
    }

    /// Number of records.
    pub fn record_count(&self) -> (r: usize)
        requires
            self.wf(),
        ensures
            r == self@.txs.len(),
    {
        proof {
            lemma_record_count(self.records@);
        }
        self.records.len()
    }

    /// The txids from `id` on, each replaced by the one before.
    pub fn replaced_chain(&self, id: Txid) -> (r: Vec<Txid>)
        requires
            self.wf(),
        ensures
            r@ == replaced_chain(self@.txs, id, self@.txs.len()),
    {
        let mut chain: Vec<Txid> = Vec::new();
        let mut current = id;
        let mut steps: usize = self.record_count();
        assert(chain@ + replaced_chain(self@.txs, id, steps as nat) =~= replaced_chain(
            self@.txs,
            id,
            self@.txs.len(),
        ));
        loop
            invariant
                self.wf(),
                chain@ + replaced_chain(self@.txs, current, steps as nat) == replaced_chain(
                    self@.txs,
                    id,
                    self@.txs.len(),
                ),
            decreases steps,
        {
            let ghost before = chain@;
            chain.push(current);
            let next = match self.get_tx_by_id(current) {
                Some(tx) => match &tx.kind {
                    TxKind::Speedup(SpeedupKind::RBF { replaces, .. }) => Some(*replaces),
                    _ => None,
                },
                None => None,
            };
            match next {
                Some(older) => {
                    if steps == 0 {
                        assert(chain@ =~= before + seq![current]);
                        return chain;
                    }
                    assert(before + (seq![current] + replaced_chain(
                        self@.txs,
                        older,
                        (steps - 1) as nat,
                    )) =~= chain@ + replaced_chain(self@.txs, older, (steps - 1) as nat));
                    steps = steps - 1;
                    current = older;
                },
                None => {
                    assert(chain@ =~= before + seq![current]);
                    return chain;
                },
            }
        }
    }

    /// True when the output belongs to a speedup on record.
    pub fn is_speedup_derived(&self, outpoint: &OutPoint) -> (r: bool)
        requires
            self.wf(),
        ensures
            r == self@.has_speedup(outpoint.txid),
    {
        match self.get_tx_by_id(outpoint.txid) {
            Some(tx) => match &tx.kind {
                TxKind::Speedup(_) => true,
                _ => false,
            },
            None => false,
        }
    }

    /// Length of the speedup list.
    pub fn speedup_count(&self) -> (r: usize)
        ensures
            r == self@.speedups.len(),
    {
        self.speedup_list.len()
    }

    // Pending speedup parents

    /// Record that a parent waits for a CPFP.
    pub fn add_pending_speedup_parent(&mut self, txid: Txid)
        ensures
            final(self).wf() == old(self).wf(),
            final(self).max_tracking() == old(self).max_tracking(),
            final(self)@.keeps_ownership(old(self)@),
            final(self)@ == (StoreView {
                pending: append_new(old(self)@.pending, txid),
                ..old(self)@
            }),
    {
        if !list_contains(&self.pending_speedup_parents, txid) {
            self.pending_speedup_parents.push(txid);
        }
        assert(self@.txs == old(self)@.txs);
    }

    /// Put `txids` at the front of the pending parents, in order, except those already present.
    pub fn prepend_pending_speedup_parents(&mut self, txids: &[Txid])
        ensures
            final(self).wf() == old(self).wf(),
            final(self).max_tracking() == old(self).max_tracking(),
            final(self)@.keeps_ownership(old(self)@),
            final(self)@ == old(self)@.prepend_pending(txids@),
    {
        let ghost absent = not_listed(self.pending_speedup_parents@);
        let ghost pending = self.pending_speedup_parents@;
        let mut front: Vec<Txid> = Vec::new();
        proof {
            reveal(Seq::filter);
            assert(txids@.take(0).filter(absent) =~= Seq::empty());
        }
        for i in 0..txids.len()
            invariant
                *self == *old(self),
                pending == self.pending_speedup_parents@,
                absent == not_listed(pending),
                front@ == txids@.take(i as int).filter(absent),
        {
            proof {
                lemma_filter_step(txids@, absent, i as int);
            }
            if !list_contains(&self.pending_speedup_parents, txids[i]) {
                front.push(txids[i]);
            }
        }
        assert(txids@.take(txids@.len() as int) =~= txids@);
        front.append(&mut self.pending_speedup_parents);
        self.pending_speedup_parents = front;
        assert(self@.txs == old(self)@.txs);
    }

    /// Take a txid out of the pending parents.
    pub fn remove_pending_speedup_parent(&mut self, txid: Txid)
        ensures
            final(self).wf() == old(self).wf(),
            final(self).max_tracking() == old(self).max_tracking(),
            final(self)@.keeps_ownership(old(self)@),
            final(self)@ == (StoreView { pending: without(old(self)@.pending, txid), ..old(self)@ }),
    {
        self.pending_speedup_parents = list_without(&self.pending_speedup_parents, txid);
        assert(self@.txs == old(self)@.txs);
    }

    /// The pending parents that can be sped up: those in the mempool or on chain. Parents that are
    /// gone or have failed leave the list; those not yet broadcast stay in it for later.
    pub fn get_pending_speedup_parents(&mut self) -> (r: Vec<CoordinatedTx>)
        requires
            old(self).wf(),
        ensures
            final(self).wf(),
            final(self).max_tracking() == old(self).max_tracking(),
            final(self)@.keeps_ownership(old(self)@),
            final(self)@ == old(self)@.prune_pending(),
            views(r@) == old(self)@.ready_parents(),
    {
        let ghost ids = self.pending_speedup_parents@;
        let ghost alive = self@.is_not_dead();
        let ghost ready = self@.broadcast_parent();
        let mut kept: Vec<Txid> = Vec::new();
        let mut live: Vec<CoordinatedTx> = Vec::new();
        let n: usize = self.pending_speedup_parents.len();
        proof {
            reveal(Seq::filter);
            assert(ids.take(0).filter(alive) =~= Seq::empty());
            assert(views(live@) =~= ids.take(0).filter_map(ready));
        }
        for i in 0..n
            invariant
                *self == *old(self),
                self.wf(),
                ids == self.pending_speedup_parents@,
                n == ids.len(),
                alive == self@.is_not_dead(),
                ready == self@.broadcast_parent(),
                kept@ == ids.take(i as int).filter(alive),
                views(live@) == ids.take(i as int).filter_map(ready),
        {
            proof {
                lemma_filter_step(ids, alive, i as int);
                lemma_filter_map_step(ids, ready, i as int);
            }
            let id = self.pending_speedup_parents[i];
            if let Some(tx) = self.get_tx_by_id(id) {
                if tx.state != TransactionState::Failed {
                    kept.push(id);
                    if tx.state != TransactionState::ToDispatch {
                        let ghost before = views(live@);
                        let ghost added = tx@;
                        live.push(tx);
                        assert(views(live@) =~= before.push(added));
                    }
                }
            }
        }
        assert(ids.take(ids.len() as int) =~= ids);
        self.pending_speedup_parents = kept;
        live
    }

    /// Put the protocol parents of a failed CPFP back at the front of the pending parents; other
    /// records have none.
    pub fn requeue_protocol_parents(&mut self, failed_cpfp: &CoordinatedTx)
        requires
            old(self).wf(),
        ensures
            final(self).wf(),
            final(self).max_tracking() == old(self).max_tracking(),
            final(self)@.keeps_ownership(old(self)@),
            final(self)@ == old(self)@.requeue_parents(failed_cpfp@),
    {
        let parents = match &failed_cpfp.kind {
            TxKind::Speedup(SpeedupKind::CPFP { parents, .. }) => parents,
            _ => return,
        };
        let ghost protocol = self@.is_protocol_parent();
        let mut front: Vec<Txid> = Vec::new();
        proof {
            reveal(Seq::filter);
            assert(parents@.take(0).filter(protocol) =~= Seq::empty());
        }
        for i in 0..parents.len()
            invariant
                *self == *old(self),
                self.wf(),
                protocol == self@.is_protocol_parent(),
                front@ == parents@.take(i as int).filter(protocol),
        {
            proof {
                lemma_filter_step(parents@, protocol, i as int);
            }
            if let Some(parent) = self.get_tx_by_id(parents[i]) {
                if let TxKind::NeedsSpeedup(_) = &parent.kind {
                    front.push(parents[i]);
                }
            }
        }
        assert(parents@.take(parents@.len() as int) =~= parents@);
        self.prepend_pending_speedup_parents(front.as_slice());
    }
}

impl CoordinatorStorage {
    // Eviction

    /// True when a listed CPFP that has neither failed nor finalized covers `id`.
    fn is_live_covered(&self, id: Txid) -> (r: bool)
        requires
            self.wf(),
        ensures
            r == self@.is_live_covered(id),
    {
        for i in 0..self.speedup_list.len()
            invariant
                self.wf(),
                forall|j: int| 0 <= j < i ==> !self@.covers(#[trigger] self@.speedups[j], id),
        {
            let speedup = self.speedup_list[i];
            let mut covers = false;
            if let Some(tx) = self.get_tx_by_id(speedup) {
                if tx.state != TransactionState::Failed && tx.state != TransactionState::Finalized {
                    if let TxKind::Speedup(SpeedupKind::CPFP { parents, .. }) = &tx.kind {
                        covers = list_contains(parents, id);
                    }
                }
            }
            assert(covers == self@.covers(speedup, id));
            if covers {
                assert(self@.covers(self@.speedups[i as int], id));
                return true;
            }
        }
        false
    }

    /// True when the settled record `tx` is due for eviction.
    fn is_evictable(&self, tx: &CoordinatedTx, current_height: BlockHeight) -> (r: bool)
        requires
            self.wf(),
            self@.txs.contains_key(tx.txid),
            self@.txs[tx.txid] == tx@,
            tx.state.is_terminal(),
        ensures
            r == self@.is_evictable(tx.txid, current_height, self.max_tracking()),
    {
        let settled = match tx.settled_block_height {
            Some(settled) => settled,
            None => return false,
        };
        if current_height.saturating_sub(settled) < self.settings.max_tracking_confirmations {
            return false;
        }
        if let TxKind::NeedsSpeedup(_) = &tx.kind {
            if list_contains(&self.pending_speedup_parents, tx.txid) || self.is_live_covered(tx.txid) {
                return false;
            }
        }
        !self.queues(tx.txid)
    }

    /// Remove the records that have been in a terminal state for at least
    /// `max_tracking_confirmations` blocks, with eviction news for each. Kept are parents that wait
    /// for a CPFP or are covered by a live one, and the entries of the funding queue.
    pub fn evict_stale_txs(&mut self, current_height: BlockHeight)
        requires
            old(self).wf(),
        ensures
            final(self).wf(),
            final(self).max_tracking() == old(self).max_tracking(),
            final(self)@.keeps_ownership(old(self)@),
            final(self)@.txs == old(self)@.txs.remove_keys(
                old(self)@.evictable(current_height, old(self).max_tracking()),
            ),
            final(self)@.speedups == without_all(
                old(self)@.speedups,
                old(self)@.evictable(current_height, old(self).max_tracking()),
            ),
            final(self)@.pending == old(self)@.pending,
            final(self)@.funding == old(self)@.funding,
            old(self)@.reports_evictions(
                final(self)@.news,
                old(self)@.evictable(current_height, old(self).max_tracking()),
            ),
    {
        let ghost start = self@;
        let ghost evictable = start.evictable(current_height, self.max_tracking());
        let settled = self.get_settled_txs();
        let ghost all = views(settled@);
        let mut stale: Vec<(Txid, String)> = Vec::new();
        for i in 0..settled.len()
            invariant
                *self == *old(self),
                self.wf(),
                start == self@,
                all == views(settled@),
                evictable == start.evictable(current_height, self.max_tracking()),
                lists_selected(all, start.txs, is_settled()),
                forall|k: int|
                    0 <= k < stale@.len() ==> evictable.contains((#[trigger] stale@[k]).0)
                        && stale@[k].1@ == start.txs[stale@[k].0].context,
                forall|j: int|
                    0 <= j < i && evictable.contains((#[trigger] all[j]).txid) ==> exists|k: int|
                        0 <= k < stale@.len() && (#[trigger] stale@[k]).0 == all[j].txid,
        {
            assert(all[i as int] == settled@[i as int]@);
            assert(start.txs.contains_key(all[i as int].txid));
            let ghost before = stale@;
            if self.is_evictable(&settled[i], current_height) {
                stale.push((settled[i].txid, settled[i].context.clone()));
                assert(stale@[before.len() as int].0 == all[i as int].txid);
                assert forall|j: int|
                    0 <= j < i + 1 && evictable.contains((#[trigger] all[j]).txid) implies exists|k: int|
                    0 <= k < stale@.len() && (#[trigger] stale@[k]).0 == all[j].txid by {
                    if j < i {
                        let k = choose|k: int|
                            0 <= k < before.len() && (#[trigger] before[k]).0 == all[j].txid;
                        assert(stale@[k].0 == all[j].txid);
                    }
                }
            }
        }
        let ghost gone: Set<Txid> = Set::empty();
        proof {
            assert(start.txs.remove_keys(gone) =~= start.txs);
            lemma_filter_all(start.speedups, outside_of(gone));
            assert(start.news.take(start.news.len() as int) =~= start.news);
        }
        for i in 0..stale.len()
            invariant
                self.wf(),
                self.max_tracking() == old(self).max_tracking(),
                forall|k: int|
                    0 <= k < stale@.len() ==> evictable.contains((#[trigger] stale@[k]).0)
                        && stale@[k].1@ == start.txs[stale@[k].0].context,
                forall|id: Txid| #[trigger]
                    gone.contains(id) <==> exists|k: int| 0 <= k < i && (#[trigger] stale@[k]).0 == id,
                self@.txs == start.txs.remove_keys(gone),
                self@.speedups == without_all(start.speedups, gone),
                self@.pending == start.pending,
                self@.funding == start.funding,
                start.reports_evictions(self@.news, gone),
        {
            let id = stale[i].0;
            let ghost before = self@;
            let ghost after = gone.insert(id);
            self.remove_tx(id);
            assert(stale@[i as int].1@ == start.txs[stale@[i as int].0].context);
            self.add_news(
                CoordinatorNews::TransactionEvicted { txid: id, context: stale[i].1.clone() },
            );
            proof {
                assert(before.txs.remove(id) =~= start.txs.remove_keys(after));
                lemma_filter_twice(
                    start.speedups,
                    outside_of(gone),
                    other_than(id),
                    outside_of(after),
                );
                lemma_eviction_reported(start, before.news, self@.news, gone, id);
                assert forall|x: Txid| #[trigger] after.contains(x) <==> exists|k: int|
                    0 <= k < i + 1 && (#[trigger] stale@[k]).0 == x by {
                    if x == id {
                        assert(stale@[i as int].0 == x);
                    }
                    if gone.contains(x) {
                        let k = choose|k: int| 0 <= k < i && (#[trigger] stale@[k]).0 == x;
                        assert(stale@[k].0 == x);
                    }
                }
                gone = after;
            }
        }
        proof {
            assert(gone =~= evictable) by {
                assert forall|id: Txid| gone.contains(id) <==> evictable.contains(id) by {
                    if gone.contains(id) {
                        let k = choose|k: int| 0 <= k < stale@.len() && (#[trigger] stale@[k]).0 == id;
                        assert(evictable.contains(stale@[k].0));
                    }
                    if evictable.contains(id) {
                        assert(start.txs.contains_key(id) && is_settled()(start.txs[id]));
                        let j = choose|j: int| 0 <= j < all.len() && #[trigger] all[j] == start.txs[id];
                        assert(start.txs.contains_key(all[j].txid) && start.txs[all[j].txid] == all[j]);
                        lemma_record_txid(old(self).records@, id);
                        assert(all[j].txid == id);
                        let k = choose|k: int|
                            0 <= k < stale@.len() && (#[trigger] stale@[k]).0 == all[j].txid;
                        assert(stale@[k].0 == id);
                    }
                }
            }
        }
    }
}

proof fn lemma_record_txid(records: Seq<CoordinatedTx>, id: Txid)
    requires
        record_map(records).contains_key(id),
    ensures
        record_map(records)[id].txid == id,
{
    let p = place_of(records, id);
    assert(has_record(records, id));
    assert(records[p].txid == id);
}

impl CoordinatorStorage {
    /// Every record is stored under its own txid.
    pub proof fn law_records_are_keyed(self)
        ensures
            self@.is_keyed(),
    {
        assert forall|id: Txid| #[trigger] self@.txs.contains_key(id) implies self@.txs[id].txid == id by {
            lemma_record_txid(self.records@, id);
        }
    }

    /// No output is in the queue twice as a sibling.
    pub proof fn law_no_output_is_listed_twice(self)
        requires
            self.wf(),
        ensures
            siblings_differ(self@.funding),
    {
    }

    // Saving and restoring

    /// The news items with their marks, in order of arrival.
    pub fn news_items(&self) -> (r: Vec<StoredNewsItem>)
        ensures
            views(r@) == self@.news,
    {
        let mut items: Vec<StoredNewsItem> = Vec::new();
        let ghost all = self@.news;
        for i in 0..self.news.len()
            invariant
                all == views(self.news@),
                views(items@) == all.take(i as int),
        {
            let ghost before = views(items@);
            items.push(
                StoredNewsItem {
                    news: self.news[i].news.clone(),
                    acked_at_block: self.news[i].acked_at_block,
                    shown_at_block: self.news[i].shown_at_block,
                },
            );
            assert(views(items@) =~= before.push(all[i as int]));
            assert(all.take(i + 1) =~= before.push(all[i as int]));
        }
        assert(all.take(all.len() as int) =~= all);
        items
    }

    /// The txids of the speedups, in creation order.
    pub fn speedup_txids(&self) -> (r: Vec<Txid>)
        ensures
            r@ == self@.speedups,
    {
        let ids = self.speedup_list.clone();
        assert(ids@ =~= self.speedup_list@);
        ids
    }

    /// The txids of the parents that wait for a CPFP, in order.
    pub fn pending_txids(&self) -> (r: Vec<Txid>)
        ensures
            r@ == self@.pending,
    {
        let ids = self.pending_speedup_parents.clone();
        assert(ids@ =~= self.pending_speedup_parents@);
        ids
    }

    /// The entries of the funding queue, in order.
    pub fn funding_entries(&self) -> (r: Vec<FundingEntry>)
        ensures
            r@ == self@.funding,
    {
        let entries = self.funding_list.clone();
        assert(entries@ =~= self.funding_list@);
        entries
    }

    /// A store made of saved parts. Of several siblings for one output the first is taken.
    pub fn restore(
        settings: CoordinatorStorageSettings,
        records: Vec<CoordinatedTx>,
        news: Vec<StoredNewsItem>,
        speedups: Vec<Txid>,
        pending: Vec<Txid>,
        funding: Vec<FundingEntry>,
    ) -> (r: Self)
        ensures
            r.wf(),
            r.max_tracking() == settings.max_tracking_confirmations,
            (forall|i: int| 0 <= i < records@.len() ==> (#[trigger] records@[i])@.owns_output())
                ==> r@.owns_outputs(),
            r@ == (StoreView {
                txs: by_txid(views(records@)),
                news: views(news@),
                speedups: speedups@,
                pending: pending@,
                funding: listed_once(funding@),
            }),
    {
        let mut storage = CoordinatorStorage::new(settings);
        let ghost all = views(records@);
        for i in 0..records.len()
            invariant
                storage.wf(),
                storage.max_tracking() == settings.max_tracking_confirmations,
                all == views(records@),
                storage@.txs == by_txid(all.take(i as int)),
                (forall|k: int| 0 <= k < records@.len() ==> (#[trigger] records@[k])@.owns_output())
                    ==> storage@.owns_outputs(),
        {
            proof {
                assert(all.take(i + 1).drop_last() =~= all.take(i as int));
                assert(all.take(i + 1).last() == records@[i as int]@);
            }
            storage.insert_tx(records[i].clone());
        }
        assert(all.take(all.len() as int) =~= all);
        let ghost filled = storage@;
        storage.news = news;
        storage.speedup_list = speedups;
        storage.pending_speedup_parents = pending;
        storage.funding_list = first_siblings(&funding);
        assert(storage@.txs == filled.txs);
        storage
    }
}

/// Reporting one more eviction keeps the news in order.
proof fn lemma_eviction_reported(
    start: StoreView,
    before: Seq<NewsItemView>,
    after: Seq<NewsItemView>,
    gone: Set<Txid>,
    id: Txid,
)
    requires
        start.reports_evictions(before, gone),
        after == (StoreView { news: before, ..start }).report(start.eviction_news(id)).news,
    ensures
        start.reports_evictions(after, gone.insert(id)),
{
    let news = start.eviction_news(id);
    let held = StoreView { news: before, ..start };
    let base = start.news.len() as int;
    assert forall|i: int| base <= i < before.len() implies start.is_fresh_eviction(
        #[trigger] before[i],
        gone.insert(id),
    ) by {
        assert(start.is_fresh_eviction(before[i], gone));
    }
    if held.knows_news(news) {
        let k = choose|k: int| 0 <= k < before.len() && (#[trigger] before[k]).news == news;
        assert(after[k].news == news);
    } else {
        let item = NewsItemView { news, acked_at_block: None, shown_at_block: None };
        assert(after == before.push(item));
        assert(after.take(base) =~= before.take(base));
        assert(!start.knows_news(news)) by {
            if start.knows_news(news) {
                let k = choose|k: int| 0 <= k < start.news.len() && (#[trigger] start.news[k]).news == news;
                assert(before.take(base)[k] == before[k]);
                assert(before[k].news == news);
            }
        }
        assert forall|i: int| base <= i < after.len() implies start.is_fresh_eviction(
            #[trigger] after[i],
            gone.insert(id),
        ) by {
            if i < before.len() {
                assert(start.is_fresh_eviction(before[i], gone.insert(id)));
            }
        }
        assert forall|i: int, j: int| base <= i < j < after.len() implies (#[trigger] after[i]).news != (
        #[trigger] after[j]).news by {
            if j < before.len() {
                assert(before[i].news != before[j].news);
            } else {
                assert(before[i].news != news);
            }
        }
        assert forall|x: Txid| #[trigger] gone.insert(id).contains(x) implies exists|i: int|
            0 <= i < after.len() && (#[trigger] after[i]).news == start.eviction_news(x) by {
            if x == id {
                assert(after[before.len() as int].news == news);
            } else {
                let k = choose|k: int|
                    0 <= k < before.len() && (#[trigger] before[k]).news == start.eviction_news(x);
                assert(after[k].news == start.eviction_news(x));
            }
        }
    }
}

impl CoordinatedTx {
    /// A record without a transaction, final on chain: nothing is left to do for it.
    pub fn new_empty(txid: Txid) -> (r: CoordinatedTx)
        ensures
            r@ == empty_record(txid),
    {
        let tx = Transaction { version: 2, lock_time: 0, input: Vec::new(), output: Vec::new() };
        assert(tx@.input =~= Seq::empty());
        assert(tx@.output =~= Seq::empty());
        CoordinatedTx {
            txid,
            tx,
            kind: TxKind::Normal,
            state: TransactionState::Finalized,
            target_block_height: 0,
            confirmation_trigger: None,
            stuck_in_mempool_blocks: None,
            settled_block_height: None,
            broadcast_block_height: None,
            fail_guard_until: None,
            retry_count: 0,
            fee_info: FeeInfo { fee: 0, fee_rate: 0, package_fee_rate: 0, weight: 0 },
            context: String::new(),
        }
    }
}

/// The record of a funding UTXO.
fn funding_record_for(data: FundingData) -> (r: CoordinatedTx)
    ensures
        r@ == funding_record(data),
{
    let mut record = CoordinatedTx::new_empty(data.utxo.txid);
    record.kind = TxKind::Funding(data);
    record
}

/// The queue with only the first sibling for each output.
fn first_siblings(queue: &Vec<FundingEntry>) -> (r: Vec<FundingEntry>)
    ensures
        r@ == listed_once(queue@),
        siblings_differ(r@),
{
    let ghost all = queue@;
    let mut kept: Vec<FundingEntry> = Vec::new();
    assert(kept@ =~= listed_once(all.take(0)));
    for i in 0..queue.len()
        invariant
            all == queue@,
            kept@ == listed_once(all.take(i as int)),
            siblings_differ(kept@),
    {
        proof {
            assert(all.take(i + 1).drop_last() =~= all.take(i as int));
            assert(all.take(i + 1).last() == all[i as int]);
        }
        let entry = queue[i];
        let known = match entry {
            FundingEntry::Record(_) => false,
            FundingEntry::Sibling(data) => lists_output(&kept, data.utxo.txid, data.utxo.vout),
        };
        if !known {
            proof {
                lemma_added_sibling_differs(kept@, entry);
            }
            kept.push(entry);
        }
    }
    assert(all.take(all.len() as int) =~= all);
    kept
}

/// True when there is a sibling for the output in the queue.
fn lists_output(queue: &Vec<FundingEntry>, txid: Txid, vout: u32) -> (r: bool)
    ensures
        r == has_output(queue@, txid, vout),
{
    for i in 0..queue.len()
        invariant
            forall|j: int| 0 <= j < i ==> !is_output(#[trigger] queue@[j], txid, vout),
    {
        if let FundingEntry::Sibling(data) = queue[i] {
            if data.utxo.txid == txid && data.utxo.vout == vout {
                assert(is_output(queue@[i as int], txid, vout));
                return true;
            }
        }
    }
    false
}

/// The txids of the entries that are records, in order.
fn record_txids_of(queue: &Vec<FundingEntry>) -> (r: Vec<Txid>)
    ensures
        r@ == record_txids(queue@),
{
    let ghost f = entry_txid();
    let mut ids: Vec<Txid> = Vec::new();
    assert(ids@ =~= queue@.take(0).filter_map(f));
    for i in 0..queue.len()
        invariant
            f == entry_txid(),
            ids@ == queue@.take(i as int).filter_map(f),
    {
        proof {
            lemma_filter_map_step(queue@, f, i as int);
        }
        if let FundingEntry::Record(id) = queue[i] {
            ids.push(id);
        }
    }
    assert(queue@.take(queue@.len() as int) =~= queue@);
    ids
}

/// True when one of the UTXOs is the given output.
fn spends(inputs: &Vec<Utxo>, txid: Txid, vout: u32) -> (r: bool)
    ensures
        r == exists|i: int|
            0 <= i < inputs@.len() && (#[trigger] inputs@[i]).txid == txid && inputs@[i].vout == vout,
{
    for i in 0..inputs.len()
        invariant
            forall|j: int|
                0 <= j < i ==> !((#[trigger] inputs@[j]).txid == txid && inputs@[j].vout == vout),
    {
        if inputs[i].txid == txid && inputs[i].vout == vout {
            return true;
        }
    }
    false
}

impl CoordinatorStorage {
    // Funding queue

    /// The records of the funding queue, in order.
    pub fn read_funding_records(&self) -> (r: Vec<CoordinatedTx>)
        requires
            self.wf(),
        ensures
            views(r@) == self@.funding_records(),
    {
        let ghost queue = self@.funding;
        let ghost find = entry_record(self@.txs);
        let mut found: Vec<CoordinatedTx> = Vec::new();
        assert(views(found@) =~= queue.take(0).filter_map(find));
        for i in 0..self.funding_list.len()
            invariant
                self.wf(),
                queue == self.funding_list@,
                find == entry_record(self@.txs),
                views(found@) == queue.take(i as int).filter_map(find),
        {
            proof {
                lemma_filter_map_step(queue, find, i as int);
            }
            let record = match self.funding_list[i] {
                FundingEntry::Record(id) => self.get_tx_by_id(id),
                FundingEntry::Sibling(data) => if self.has_own_record(data.utxo.txid, data.utxo.vout) {
                    None
                } else {
                    Some(funding_record_for(data))
                },
            };
            if let Some(record) = record {
                let ghost before = views(found@);
                let ghost added = record@;
                found.push(record);
                assert(views(found@) =~= before.push(added));
            }
        }
        assert(queue.take(queue.len() as int) =~= queue);
        found
    }

    /// True when the record of a transaction stands for this output.
    fn has_own_record(&self, txid: Txid, vout: u32) -> (r: bool)
        requires
            self.wf(),
        ensures
            r == has_own_record(self@.txs, txid, vout),
    {
        match self.get_tx_by_id(txid) {
            Some(tx) => match &tx.kind {
                TxKind::Funding(data) => data.utxo.vout == vout,
                TxKind::Speedup(_) => true,
                _ => false,
            },
            None => false,
        }
    }

    /// True when the record with this txid is an entry of the queue.
    fn queues(&self, txid: Txid) -> (r: bool)
        ensures
            r == self@.funding.contains(FundingEntry::Record(txid)),
    {
        for i in 0..self.funding_list.len()
            invariant
                forall|j: int| 0 <= j < i ==> self.funding_list@[j] != FundingEntry::Record(txid),
        {
            if let FundingEntry::Record(id) = self.funding_list[i] {
                if id == txid {
                    assert(self.funding_list@[i as int] == FundingEntry::Record(txid));
                    return true;
                }
            }
        }
        false
    }

    /// Append a funding UTXO to the queue, unclaimed. It becomes a sibling when the record of its
    /// transaction stands for another output. One that is in the queue keeps its place.
    pub fn append_funding(&mut self, utxo: Utxo)
        requires
            old(self).wf(),
        ensures
            final(self).wf(),
            final(self).max_tracking() == old(self).max_tracking(),
            final(self)@.keeps_ownership(old(self)@),
            final(self)@ == old(self)@.append_funding(utxo),
    {
        let txid = utxo.txid;
        let data = FundingData { utxo, spent: false };
        let stands = self.has_own_record(txid, utxo.vout);
        if !stands && lists_output(&self.funding_list, txid, utxo.vout) {
            let ghost before = self.funding_list@;
            let n: usize = self.funding_list.len();
            for i in 0..n
                invariant
                    n == before.len(),
                    self.funding_list@.len() == n,
                    has_output(before, txid, utxo.vout),
                    txid == utxo.txid,
                    FundingEntry::Sibling(data) == sibling(utxo, false),
                    forall|j: int|
                        0 <= j < n ==> #[trigger] self.funding_list@[j] == if j < i {
                            with_output(before, utxo)[j]
                        } else {
                            before[j]
                        },
                    *self == (CoordinatorStorage { funding_list: self.funding_list, ..*old(self) }),
            {
                if let FundingEntry::Sibling(held) = self.funding_list[i] {
                    if held.utxo.txid == txid && held.utxo.vout == utxo.vout {
                        self.funding_list.set(i, FundingEntry::Sibling(data));
                    }
                }
            }
            assert(self.funding_list@ =~= with_output(before, utxo));
            proof {
                lemma_relabelled_siblings_differ(before, self.funding_list@);
            }
            return;
        }
        if !stands {
            if let Some(found) = self.get_tx_by_id(txid) {
                if let TxKind::Funding(_) = &found.kind {
                    proof {
                        lemma_added_sibling_differs(self.funding_list@, FundingEntry::Sibling(data));
                    }
                    self.funding_list.push(FundingEntry::Sibling(data));
                    return;
                }
            }
        }
        self.insert_tx(funding_record_for(data));
        if !self.queues(txid) {
            proof {
                lemma_added_sibling_differs(self.funding_list@, FundingEntry::Record(txid));
            }
            self.funding_list.push(FundingEntry::Record(txid));
        }
    }

    /// Set or clear the claim mark of an output of the transaction `txid`: that of its record when the
    /// record stands for the output, and else that of the sibling.
    pub fn mark_output(&mut self, txid: Txid, vout: u32, spent: bool)
        requires
            old(self).wf(),
        ensures
            final(self).wf(),
            final(self).max_tracking() == old(self).max_tracking(),
            final(self)@.keeps_ownership(old(self)@),
            final(self)@ == old(self)@.mark_output(txid, vout, spent),
    {
        if self.has_own_record(txid, vout) {
            self.set_spent(txid, spent);
            return;
        }
        let ghost marked = *self;
        let ghost before = self.funding_list@;
        let n: usize = self.funding_list.len();
        for i in 0..n
            invariant
                n == before.len(),
                self.funding_list@.len() == n,
                before == marked.funding_list@,
                forall|j: int|
                    0 <= j < n ==> #[trigger] self.funding_list@[j] == if j < i {
                        mark_listed(before, txid, vout, spent)[j]
                    } else {
                        before[j]
                    },
                *self == (CoordinatorStorage { funding_list: self.funding_list, ..marked }),
        {
            if let FundingEntry::Sibling(held) = self.funding_list[i] {
                if held.utxo.txid == txid && held.utxo.vout == vout {
                    self.funding_list.set(
                        i,
                        FundingEntry::Sibling(FundingData { utxo: held.utxo, spent }),
                    );
                }
            }
        }
        assert(self.funding_list@ =~= mark_listed(before, txid, vout, spent));
        proof {
            lemma_relabelled_siblings_differ(before, self.funding_list@);
        }
    }

    /// Set or clear the claim mark of a funding or speedup record. Nothing happens for other kinds or
    /// when there is no such record.
    pub fn set_spent(&mut self, txid: Txid, spent: bool)
        requires
            old(self).wf(),
        ensures
            final(self).wf(),
            final(self).max_tracking() == old(self).max_tracking(),
            final(self)@.keeps_ownership(old(self)@),
            final(self)@ == old(self)@.set_spent(txid, spent),
    {
        let mut tx = match self.get_tx_by_id(txid) {
            Some(tx) => tx,
            None => return,
        };
        match &mut tx.kind {
            TxKind::Funding(data) => {
                data.spent = spent;
            },
            TxKind::Speedup(kind) => {
                kind.context_mut().spent = spent;
            },
            _ => {},
        }
        assert(tx@ == with_spent(self@.txs[txid], spent));
        self.insert_tx(tx);
    }

    /// Drop the funding queue and the records in it.
    pub fn clear_funding_records(&mut self)
        requires
            old(self).wf(),
        ensures
            final(self).wf(),
            final(self).max_tracking() == old(self).max_tracking(),
            final(self)@.keeps_ownership(old(self)@),
            final(self)@ == old(self)@.clear_funding(),
    {
        let ghost start = self@;
        let ids = record_txids_of(&self.funding_list);
        self.funding_list = Vec::new();
        assert(self@.funding =~= Seq::empty());
        assert(start.txs.remove_keys(ids@.take(0).to_set()) =~= start.txs);
        for i in 0..ids.len()
            invariant
                self.wf(),
                self.max_tracking() == old(self).max_tracking(),
                ids@ == record_txids(start.funding),
                self@ == (StoreView {
                    txs: start.txs.remove_keys(ids@.take(i as int).to_set()),
                    funding: Seq::empty(),
                    ..start
                }),
        {
            self.drop_record(ids[i]);
            proof {
                let before = ids@.take(i as int);
                let after = ids@.take(i + 1);
                assert(after =~= before.push(ids@[i as int]));
                assert forall|x: Txid| after.to_set().contains(x) <==> before.to_set().contains(x) || x
                    == ids@[i as int] by {
                    if before.contains(x) {
                        let k = choose|k: int| 0 <= k < before.len() && before[k] == x;
                        assert(after[k] == x);
                    }
                    assert(after[i as int] == ids@[i as int]);
                }
                assert(start.txs.remove_keys(before.to_set()).remove(ids@[i as int])
                    =~= start.txs.remove_keys(after.to_set()));
            }
        }
        assert(ids@.take(ids@.len() as int) =~= ids@);
    }

    /// When a speedup finalizes, the queue entries that funded it are replaced by the speedup itself,
    /// whose change output they became. It takes the place of the first of them; their
    /// records are dropped with eviction news, and the speedup leaves the speedup list.
    /// `InvariantViolation`, with nothing changed, when a speedup in the queue has no output.
    pub fn replace_funding_on_finalize(&mut self, txid: Txid) -> (r: Result<(), BitcoinCoordinatorError>)
        requires
            old(self).wf(),
        ensures
            final(self).wf(),
            final(self).max_tracking() == old(self).max_tracking(),
            final(self)@.keeps_ownership(old(self)@),
            match r {
                Ok(_) => !old(self)@.replacing_fails(txid) && final(self)@ == old(
                    self,
                )@.replace_funding(txid),
                Err(e) => old(self)@.replacing_fails(txid) && final(self)@ == old(self)@ && e.is_violation(
                    old(self)@.broken_queue_text(),
                ),
            },
    {
        let tx = match self.get_tx_by_id(txid) {
            Some(tx) => tx,
            None => return Ok(()),
        };
        let kind = match &tx.kind {
            TxKind::Speedup(kind) => kind,
            _ => return Ok(()),
        };
        let inputs = &kind.context().funding_inputs;
        let ghost start = self@;
        let ghost ids = self.funding_list@;
        let ghost funds = start.is_spent_by(inputs@);
        let ghost rest = start.is_not_spent_by(inputs@);
        let ghost broken = start.has_no_change();
        let mut spent: Vec<FundingEntry> = Vec::new();
        let mut kept: Vec<FundingEntry> = Vec::new();
        let mut position: usize = 0;
        let n: usize = self.funding_list.len();
        proof {
            reveal(Seq::filter);
            assert(ids.take(0).filter(funds) =~= Seq::empty());
            assert(ids.take(0).filter(rest) =~= Seq::empty());
        }
        for i in 0..n
            invariant
                *self == *old(self),
                self.wf(),
                start == self@,
                ids == self.funding_list@,
                n == ids.len(),
                funds == start.is_spent_by(inputs@),
                rest == start.is_not_spent_by(inputs@),
                start.txs.contains_key(txid) && start.txs[txid].is_speedup(),
                spent@ == ids.take(i as int).filter(funds),
                kept@ == ids.take(i as int).filter(rest),
                broken == start.has_no_change(),
                find_first(ids.take(i as int), broken) is None,
                spent@.len() == 0 ==> kept@.len() == i && forall|j: int|
                    0 <= j < i ==> !start.funds(#[trigger] ids[j], inputs@),
                spent@.len() > 0 ==> position <= kept@.len() && start.is_first_spent(
                    inputs@,
                    position as int,
                ),
        {
            proof {
                lemma_filter_step(ids, funds, i as int);
                lemma_filter_step(ids, rest, i as int);
                lemma_find_first_step(ids, broken, i as int);
                if broken(ids[i as int]) {
                    lemma_find_first_prefix(ids, broken, i + 1);
                }
            }
            let entry = self.funding_list[i];
            let mut matched = false;
            match entry {
                FundingEntry::Record(id) => {
                    if let Some(record) = self.get_tx_by_id(id) {
                        match &record.kind {
                            TxKind::Funding(data) => {
                                matched = spends(inputs, data.utxo.txid, data.utxo.vout);
                            },
                            TxKind::Speedup(_) => {
                                let vout: u32 = match record.last_output() {
                                    Ok((_, vout)) => vout,
                                    Err(e) => return Err(e),
                                };
                                matched = spends(inputs, record.txid, vout);
                            },
                            _ => {},
                        }
                    }
                },
                FundingEntry::Sibling(data) => {
                    matched = spends(inputs, data.utxo.txid, data.utxo.vout);
                },
            }
            assert(matched == start.funds(entry, inputs@));
            if matched {
                if spent.len() == 0 {
                    position = i;
                }
                spent.push(entry);
            } else {
                kept.push(entry);
            }
        }
        assert(ids.take(ids.len() as int) =~= ids);
        if spent.len() == 0 {
            return Ok(());
        }
        let ghost used = spent@;
        let spent = record_txids_of(&spent);
        proof {
            let first = start.first_spent(inputs@);
            assert(start.is_first_spent(inputs@, first));
            if first < position {
                assert(!start.funds(ids[first], inputs@));
            }
            if position < first {
                assert(!start.funds(ids[position as int], inputs@));
            }
            lemma_filter_members(ids, funds);
            lemma_record_txids_members(used);
        }
        let ghost gone: Set<Txid> = Set::empty();
        let mut k: usize = spent.len();
        proof {
            assert(start.txs.remove_keys(gone) =~= start.txs);
            lemma_filter_all(start.speedups, outside_of(gone));
            assert(spent@.take(k as int) =~= spent@);
            assert forall|x: Txid| spent@.contains(x) implies start.txs.contains_key(x) by {
                assert(used.contains(FundingEntry::Record(x)));
                assert(funds(FundingEntry::Record(x)));
            }
        }
        while k > 0
            invariant
                k <= spent@.len(),
                self.wf(),
                self.max_tracking() == old(self).max_tracking(),
                forall|x: Txid| spent@.contains(x) ==> start.txs.contains_key(x),
                forall|x: Txid| #[trigger]
                    gone.contains(x) <==> exists|j: int| k <= j < spent@.len() && #[trigger] spent@[j] == x,
                forall|x: Txid| #[trigger]
                    gone.contains(x) ==> (StoreView { news: self@.news, ..start }).knows_news(
                        start.eviction_news(x),
                    ),
                self@ == (StoreView {
                    txs: start.txs.remove_keys(gone),
                    news: self@.news,
                    speedups: without_all(start.speedups, gone),
                    ..start
                }),
                (StoreView { news: self@.news, ..start }).report_evictions(spent@.take(k as int)).news
                    == start.report_evictions(spent@).news,
            decreases k,
        {
            k = k - 1;
            let id = spent[k];
            let ghost before = self@;
            let ghost held = StoreView { news: self@.news, ..start };
            let ghost after = gone.insert(id);
            assert(spent@.contains(id));
            proof {
                let todo = spent@.take(k + 1);
                assert(todo.last() == id);
                assert(todo.drop_last() =~= spent@.take(k as int));
            }
            let removed = self.get_tx_by_id(id);
            self.drop_record(id);
            self.remove_speedup_from_list(id);
            if let Some(record) = removed {
                self.add_news(
                    CoordinatorNews::TransactionEvicted { txid: id, context: record.context.clone() },
                );
            }
            proof {
                assert(self@.news == held.report(start.eviction_news(id)).news);
                assert(before.txs.remove(id) =~= start.txs.remove_keys(after));
                lemma_filter_twice(start.speedups, outside_of(gone), other_than(id), outside_of(after));
                let now = StoreView { news: self@.news, ..start };
                assert(now == held.report(start.eviction_news(id)));
                assert forall|x: Txid| #[trigger] after.contains(x) implies now.knows_news(
                    start.eviction_news(x),
                ) by {
                    if x == id {
                        if !held.knows_news(start.eviction_news(id)) {
                            assert(now.news[held.news.len() as int].news == start.eviction_news(id));
                        }
                    } else {
                        assert(gone.contains(x));
                        let j = choose|j: int|
                            0 <= j < held.news.len() && (#[trigger] held.news[j]).news
                                == start.eviction_news(x);
                        assert(now.news[j].news == start.eviction_news(x));
                    }
                }
                assert forall|x: Txid| #[trigger] after.contains(x) <==> exists|j: int|
                    k <= j < spent@.len() && #[trigger] spent@[j] == x by {
                    if x == id {
                        assert(spent@[k as int] == x);
                    } else if gone.contains(x) {
                        let j = choose|j: int| k < j < spent@.len() && #[trigger] spent@[j] == x;
                        assert(spent@[j] == x);
                    }
                }
                gone = after;
            }
        }
        proof {
            assert(gone =~= spent@.to_set()) by {
                assert forall|x: Txid| gone.contains(x) <==> spent@.to_set().contains(x) by {
                    if spent@.contains(x) {
                        let j = choose|j: int| 0 <= j < spent@.len() && spent@[j] == x;
                        assert(spent@[j] == x);
                    }
                }
            }
            assert(spent@.take(0).len() == 0);
        }
        proof {
            lemma_filter_keeps_siblings_apart(ids, rest);
            lemma_inserted_record_differs(kept@, position as int, txid);
        }
        kept.insert(position, FundingEntry::Record(txid));
        self.funding_list = kept;
        self.remove_speedup_from_list(txid);
        Ok(())
    }

    // Dispatch

    /// True when the coordinator tracks the transaction: a record that is not a funding UTXO, which
    /// comes from outside and is on chain already.
    pub fn is_tx_known(&self, txid: &Txid) -> (r: bool)
        requires
            self.wf(),
        ensures
            r == self@.is_tracked(*txid),
    {
        match self.get_tx_by_id(*txid) {
            Some(tx) => match &tx.kind {
                TxKind::Funding(_) => false,
                _ => true,
            },
            None => false,
        }
    }
}

/// True when the list contains `id`.
fn list_contains(ids: &Vec<Txid>, id: Txid) -> (r: bool)
    ensures
        r == ids@.contains(id),
{
    for i in 0..ids.len()
        invariant
            forall|j: int| 0 <= j < i ==> ids@[j] != id,
    {
        if ids[i] == id {
            return true;
        }
    }
    false
}

/// The list with every occurrence of `id` taken out.
fn list_without(ids: &Vec<Txid>, id: Txid) -> (r: Vec<Txid>)
    ensures
        r@ == without(ids@, id),
{
    let mut kept: Vec<Txid> = Vec::new();
    let ghost p = other_than(id);
    proof {
        reveal(Seq::filter);
        assert(ids@.take(0).filter(p) =~= Seq::empty());
    }
    for i in 0..ids.len()
        invariant
            p == other_than(id),
            kept@ == ids@.take(i as int).filter(p),
    {
        proof {
            lemma_filter_step(ids@, p, i as int);
        }
        if ids[i] != id {
            kept.push(ids[i]);
        }
    }
    assert(ids@.take(ids@.len() as int) =~= ids@);
    kept
}

} // verus!
