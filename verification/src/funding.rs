use crate::config::FundingSettings;
use crate::errors::BitcoinCoordinatorError;
use crate::lemmas::{lemma_find_first_prefix, lemma_find_first_step, lemma_find_last_step};
use crate::model::{find_first, find_last, is_broadcast, StoreView};
use crate::primitives::{views, Txid};
use crate::storage::CoordinatorStorage;
use crate::types::{
    CoordinatedTx, CoordinatedTxView, CoordinatorNews, CoordinatorNewsView, TransactionState,
    TxKind, TxKindView, Utxo,
};
use vstd::prelude::*;

verus! {

/// What the funding manager needs of the storage.
pub trait FundingStorage {
    /// The storage is in order.
    spec fn holds_together(&self) -> bool;

    /// What is stored.
    spec fn store(&self) -> StoreView;

    /// How many blocks a settled record is kept; no operation on the funding changes it.
    spec fn retention(&self) -> u32;

    /// The records of the funding queue, in order.
    fn read_funding_records(&self) -> (r: Vec<CoordinatedTx>)
        requires
            self.holds_together(),
        ensures
            views(r@) == self.store().funding_records(),
    ;

    /// Append a funding UTXO to the queue, unclaimed.
    fn append_funding(&mut self, utxo: Utxo)
        requires
            old(self).holds_together(),
        ensures
            final(self).holds_together(),
            final(self).retention() == old(self).retention(),
            final(self).store().keeps_ownership(old(self).store()),
            final(self).store() == old(self).store().append_funding(utxo),
    ;

    /// Set or clear the claim mark of a record.
    fn set_spent(&mut self, txid: Txid, spent: bool)
        requires
            old(self).holds_together(),
        ensures
            final(self).holds_together(),
            final(self).retention() == old(self).retention(),
            final(self).store().keeps_ownership(old(self).store()),
            final(self).store() == old(self).store().set_spent(txid, spent),
    ;

    /// Set or clear the claim mark of an output of the transaction `txid`.
    fn mark_output(&mut self, txid: Txid, vout: u32, spent: bool)
        requires
            old(self).holds_together(),
        ensures
            final(self).holds_together(),
            final(self).retention() == old(self).retention(),
            final(self).store().keeps_ownership(old(self).store()),
            final(self).store() == old(self).store().mark_output(txid, vout, spent),
    ;

    /// Drop the funding queue and the records in it.
    fn clear_funding_records(&mut self)
        requires
            old(self).holds_together(),
        ensures
            final(self).holds_together(),
            final(self).retention() == old(self).retention(),
            final(self).store().keeps_ownership(old(self).store()),
            final(self).store() == old(self).store().clear_funding(),
    ;

    /// When a speedup finalizes, replace the queue entries that funded it by the speedup itself.
    fn replace_funding_on_finalize(&mut self, txid: Txid) -> (r: Result<(), BitcoinCoordinatorError>)
        requires
            old(self).holds_together(),
        ensures
            final(self).holds_together(),
            final(self).retention() == old(self).retention(),
            final(self).store().keeps_ownership(old(self).store()),
            match r {
                Ok(_) => !old(self).store().replacing_fails(txid) && final(self).store() == old(self).store().replace_funding(txid),
                Err(e) => old(self).store().replacing_fails(txid) && final(self).store() == old(self).store() && e.is_violation(
                    old(self).store().broken_queue_text(),
                ),
            },
    ;
}

impl FundingStorage for CoordinatorStorage {
    open spec fn holds_together(&self) -> bool {
        self.wf()
    }

    open spec fn store(&self) -> StoreView {
        self@
    }

    open spec fn retention(&self) -> u32 {
        self.max_tracking()
    }

    fn read_funding_records(&self) -> (r: Vec<CoordinatedTx>) {
        CoordinatorStorage::read_funding_records(self)
    }

    fn append_funding(&mut self, utxo: Utxo) {
        CoordinatorStorage::append_funding(self, utxo);
    }

    fn set_spent(&mut self, txid: Txid, spent: bool) {
        CoordinatorStorage::set_spent(self, txid, spent);
    }

    fn mark_output(&mut self, txid: Txid, vout: u32, spent: bool) {
        CoordinatorStorage::mark_output(self, txid, vout, spent);
    }

    fn clear_funding_records(&mut self) {
        CoordinatorStorage::clear_funding_records(self);
    }

    fn replace_funding_on_finalize(&mut self, txid: Txid) -> (r: Result<(), BitcoinCoordinatorError>) {
        CoordinatorStorage::replace_funding_on_finalize(self, txid)
    }
}

/// Holds of the speedups whose change is free: on chain or in the mempool, not being replaced and not
/// claimed. A record that is no speedup is not passed over either: it has no place in the list.
pub open spec fn is_free_tip(all: Seq<CoordinatedTxView>) -> spec_fn(CoordinatedTxView) -> bool {
    |tx: CoordinatedTxView|
        is_broadcast(tx.state) && (tx.is_speedup() ==> !tx.has_live_replacement(all)
            && !tx.speedup().context().spent)
}

/// Holds of the queue entries that are not claimed. An entry that offers no output is not passed over
/// either: it has no place in the queue.
pub open spec fn is_unclaimed() -> spec_fn(CoordinatedTxView) -> bool {
    |tx: CoordinatedTxView|
        match tx.funding_info() {
            Some((_, spent)) => !spent,
            None => true,
        }
}

/// Holds of the funding UTXOs of the queue that are not claimed.
pub open spec fn is_spare() -> spec_fn(CoordinatedTxView) -> bool {
    |tx: CoordinatedTxView|
        match tx.kind {
            TxKindView::Funding(data) => !data.spent,
            _ => false,
        }
}

/// The record whose output funds the next speedup, and that output: the change of the latest speedup
/// with free change, or else the first queue entry that is not claimed. An error, with the reason, when
/// the record offers no output.
pub open spec fn next_funding(all: Seq<CoordinatedTxView>, store: StoreView) -> Result<
    Option<(CoordinatedTxView, Utxo)>,
    Seq<char>,
> {
    match find_last(all, is_free_tip(all)) {
        Some(tip) => match tip.change_utxo() {
            Some(utxo) => Ok(Some((tip, utxo))),
            None => Err(tip.no_change_text()),
        },
        None => match find_first(store.funding_records(), is_unclaimed()) {
            Some(entry) => match entry.funding_info() {
                Some((utxo, _)) => Ok(Some((entry, utxo))),
                None => Err(entry.no_funding_text()),
            },
            None => Ok(None),
        },
    }
}

/// The store after releasing the claims on `utxos`, in order.
pub open spec fn release(store: StoreView, utxos: Seq<Utxo>) -> StoreView
    decreases utxos.len(),
{
    if utxos.len() == 0 {
        store
    } else {
        release(store, utxos.drop_last()).mark_output(utxos.last().txid, utxos.last().vout, false)
    }
}

/// Hands out funding for speedups and takes it back.
#[derive(Clone, Copy, Debug)]
pub struct FundingManager {
    pub settings: FundingSettings,
}

impl FundingManager {
    pub fn new(settings: FundingSettings) -> (r: Self)
        ensures
            r.settings == settings,
    {
        FundingManager { settings }
    }

    /// Append `utxo` to the funding queue, or return news when it is too small.
    pub fn set_funding<S: FundingStorage>(&self, storage: &mut S, utxo: Utxo) -> (r: Option<
        CoordinatorNews,
    >)
        requires
            old(storage).holds_together(),
        ensures
            final(storage).holds_together(),
            final(storage).retention() == old(storage).retention(),
            final(storage).store().keeps_ownership(old(storage).store()),
            match r {
                Some(news) => utxo.amount < self.settings.min_funding_amount_sats && news@
                    == (CoordinatorNewsView::InvalidFundingUtxo {
                    amount: utxo.amount,
                    min_required: self.settings.min_funding_amount_sats,
                }) && final(storage).store() == old(storage).store(),
                None => utxo.amount >= self.settings.min_funding_amount_sats && final(storage).store()
                    == old(storage).store().append_funding(utxo),
            },
    {
        match self.validate(&utxo) {
            Ok(_) => {
                storage.append_funding(utxo);
                None
            },
            Err(news) => Some(news),
        }
    }

    /// Drop all the funding.
    pub fn clear_funding<S: FundingStorage>(&self, storage: &mut S)
        requires
            old(storage).holds_together(),
        ensures
            final(storage).holds_together(),
            final(storage).retention() == old(storage).retention(),
            final(storage).store().keeps_ownership(old(storage).store()),
            final(storage).store() == old(storage).store().clear_funding(),
    {
        storage.clear_funding_records();
    }

    /// True when the funding queue has an entry.
    pub fn has_funding<S: FundingStorage>(&self, storage: &S) -> (r: bool)
        requires
            storage.holds_together(),
        ensures
            r == (storage.store().funding_records().len() > 0),
    {
        let records = storage.read_funding_records();
        let r = records.len() > 0;
        assert(views(records@).len() == records@.len());
        r
    }

    /// Claims the funding of the next speedup: the change of the latest free speedup, or else the first
    /// unclaimed entry of the queue; `None` when there is neither. The flag says whether it comes from a
    /// speedup: only then may a second input be combined with it. `InvariantViolation` when the source
    /// offers no output.
    pub fn get_funding<S: FundingStorage>(&self, storage: &mut S, speedups: &[CoordinatedTx]) -> (r: Result<
        Option<(Utxo, bool)>,
        BitcoinCoordinatorError,
    >)
        requires
            old(storage).holds_together(),
        ensures
            final(storage).holds_together(),
            final(storage).retention() == old(storage).retention(),
            final(storage).store().keeps_ownership(old(storage).store()),
            match r {
                Ok(Some((utxo, is_speedup))) => next_funding(
                    views(speedups@),
                    old(storage).store(),
                ) matches Ok(Some((source, output))) && utxo == output && is_speedup
                    == source.is_speedup() && final(storage).store() == old(storage).store().mark_output(
                    source.txid,
                    output.vout,
                    true,
                ),
                Ok(None) => next_funding(views(speedups@), old(storage).store()) == Ok::<
                    Option<(CoordinatedTxView, Utxo)>,
                    Seq<char>,
                >(None) && final(storage).store() == old(storage).store(),
                Err(e) => next_funding(views(speedups@), old(storage).store()) matches Err(reason)
                    && final(storage).store() == old(storage).store() && e.is_violation(reason),
            },
    {
        let ghost all = views(speedups@);
        let ghost free = is_free_tip(all);
        let mut i: usize = speedups.len();
        assert(all.take(i as int) =~= all);
        while i > 0
            invariant
                i <= speedups@.len(),
                all == views(speedups@),
                free == is_free_tip(all),
                *storage == *old(storage),
                storage.holds_together(),
                find_last(all, free) == find_last(all.take(i as int), free),
            decreases i,
        {
            i = i - 1;
            let tx = &speedups[i];
            proof {
                lemma_find_last_step(all, free, i as int);
                assert(all[i as int] == tx@);
            }
            let live = tx.state == TransactionState::InMempool || tx.state
                == TransactionState::Confirmed || tx.state == TransactionState::Finalized;
            if live {
                let kind = match tx.speedup_kind() {
                    Ok(kind) => kind,
                    Err(e) => return Err(e),
                };
                if !tx.has_live_replacement(speedups) && !kind.context().spent {
                    let (utxo, _) = match tx.get_funding_info() {
                        Ok(info) => info,
                        Err(e) => return Err(e),
                    };
                    storage.mark_output(tx.txid, utxo.vout, true);
                    return Ok(Some((utxo, true)));
                }
            }
        }
        let records = storage.read_funding_records();
        let ghost queue = views(records@);
        let ghost unclaimed = is_unclaimed();
        for k in 0..records.len()
            invariant
                all == views(speedups@),
                find_last(all, is_free_tip(all)) is None,
                *storage == *old(storage),
                storage.holds_together(),
                queue == views(records@),
                queue == storage.store().funding_records(),
                unclaimed == is_unclaimed(),
                find_first(queue.take(k as int), unclaimed) is None,
        {
            let record = &records[k];
            proof {
                lemma_find_first_step(queue, unclaimed, k as int);
                assert(queue[k as int] == record@);
                if unclaimed(queue[k as int]) {
                    lemma_find_first_prefix(queue, unclaimed, k + 1);
                }
            }
            let (utxo, spent) = match record.get_funding_info() {
                Ok(info) => info,
                Err(e) => return Err(e),
            };
            if !spent {
                let is_speedup = match &record.kind {
                    TxKind::Speedup(_) => true,
                    _ => false,
                };
                storage.mark_output(record.txid, utxo.vout, true);
                return Ok(Some((utxo, is_speedup)));
            }
        }
        assert(queue.take(queue.len() as int) =~= queue);
        Ok(None)
    }

    /// Claims a second funding input when the first one cannot pay: the first unclaimed funding UTXO of
    /// the queue. Nothing is released when there is none.
    pub fn get_combine_funding<S: FundingStorage>(&self, storage: &mut S) -> (r: Option<Utxo>)
        requires
            old(storage).holds_together(),
        ensures
            final(storage).holds_together(),
            final(storage).retention() == old(storage).retention(),
            final(storage).store().keeps_ownership(old(storage).store()),
            match find_first(old(storage).store().funding_records(), is_spare()) {
                Some(entry) => r == Some(entry.kind->Funding_0.utxo) && final(storage).store() == old(storage).store().mark_output(
                    entry.txid,
                    entry.kind->Funding_0.utxo.vout,
                    true,
                ),
                None => r is None && final(storage).store() == old(storage).store(),
            },
    {
        let records = storage.read_funding_records();
        let ghost queue = views(records@);
        let ghost spare = is_spare();
        for k in 0..records.len()
            invariant
                *storage == *old(storage),
                storage.holds_together(),
                queue == views(records@),
                queue == storage.store().funding_records(),
                spare == is_spare(),
                find_first(queue.take(k as int), spare) is None,
        {
            let record = &records[k];
            proof {
                lemma_find_first_step(queue, spare, k as int);
                assert(queue[k as int] == record@);
                if spare(queue[k as int]) {
                    lemma_find_first_prefix(queue, spare, k + 1);
                }
            }
            if let TxKind::Funding(data) = &record.kind {
                if !data.spent {
                    storage.mark_output(record.txid, data.utxo.vout, true);
                    return Some(data.utxo);
                }
            }
        }
        assert(queue.take(queue.len() as int) =~= queue);
        None
    }

    /// Takes back the claims on `utxos`, after a build that failed.
    pub fn release_marks<S: FundingStorage>(&self, storage: &mut S, utxos: &[Utxo])
        requires
            old(storage).holds_together(),
        ensures
            final(storage).holds_together(),
            final(storage).retention() == old(storage).retention(),
            final(storage).store().keeps_ownership(old(storage).store()),
            final(storage).store() == release(old(storage).store(), utxos@),
    {
        for i in 0..utxos.len()
            invariant
                storage.holds_together(),
                storage.retention() == old(storage).retention(),
                storage.store().keeps_ownership(old(storage).store()),
                storage.store() == release(old(storage).store(), utxos@.take(i as int)),
        {
            proof {
                assert(utxos@.take(i + 1).drop_last() =~= utxos@.take(i as int));
                assert(utxos@.take(i + 1).last() == utxos@[i as int]);
            }
            storage.mark_output(utxos[i].txid, utxos[i].vout, false);
        }
        assert(utxos@.take(utxos@.len() as int) =~= utxos@);
    }

    /// Takes back the claims on every funding input of the speedup `tx`. `InvariantViolation` when it is
    /// no speedup.
    pub fn mark_parents_unspent<S: FundingStorage>(&self, storage: &mut S, tx: &CoordinatedTx) -> (r: Result<
        (),
        BitcoinCoordinatorError,
    >)
        requires
            old(storage).holds_together(),
        ensures
            final(storage).holds_together(),
            final(storage).retention() == old(storage).retention(),
            final(storage).store().keeps_ownership(old(storage).store()),
            match r {
                Ok(_) => tx@.is_speedup() && final(storage).store() == release(
                    old(storage).store(),
                    tx@.speedup().context().funding_inputs,
                ),
                Err(e) => !tx@.is_speedup() && final(storage).store() == old(storage).store()
                    && e.is_violation(tx@.no_speedup_text()),
            },
    {
        let kind = match tx.speedup_kind() {
            Ok(kind) => kind,
            Err(e) => return Err(e),
        };
        self.release_marks(storage, kind.context().funding_inputs.as_slice());
        Ok(())
    }

    /// When a speedup finalizes, replaces the queue entries that funded it by the speedup itself.
    pub fn replace_on_finalize<S: FundingStorage>(&self, storage: &mut S, txid: Txid) -> (r: Result<
        (),
        BitcoinCoordinatorError,
    >)
        requires
            old(storage).holds_together(),
        ensures
            final(storage).holds_together(),
            final(storage).retention() == old(storage).retention(),
            final(storage).store().keeps_ownership(old(storage).store()),
            match r {
                Ok(_) => !old(storage).store().replacing_fails(txid) && final(storage).store() == old(storage).store().replace_funding(txid),
                Err(e) => old(storage).store().replacing_fails(txid) && final(storage).store() == old(storage).store() && e.is_violation(
                    old(storage).store().broken_queue_text(),
                ),
            },
    {
        storage.replace_funding_on_finalize(txid)
    }

    /// Accepts a UTXO of at least the minimal amount.
    fn validate(&self, utxo: &Utxo) -> (r: Result<(), CoordinatorNews>)
        ensures
            match r {
                Ok(_) => utxo.amount >= self.settings.min_funding_amount_sats,
                Err(news) => utxo.amount < self.settings.min_funding_amount_sats && news@
                    == (CoordinatorNewsView::InvalidFundingUtxo {
                    amount: utxo.amount,
                    min_required: self.settings.min_funding_amount_sats,
                }),
            },
    {
        if utxo.amount < self.settings.min_funding_amount_sats {
            Err(
                CoordinatorNews::InvalidFundingUtxo {
                    amount: utxo.amount,
                    min_required: self.settings.min_funding_amount_sats,
                },
            )
        } else {
            Ok(())
        }
    }
}

} // verus!
