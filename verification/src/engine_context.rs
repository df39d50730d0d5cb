use crate::config::CoordinatorSettings;
use crate::dispatcher::{DispatchOutcome, DispatchOutcomeView, Dispatcher};
use crate::errors::BitcoinCoordinatorError;
use crate::fee::{monus, FeeManager};
use crate::funding::FundingManager;
use crate::helper::now_secs;
use crate::lemmas::{lemma_filter_all, lemma_filter_step};
use crate::lifecycle::{funding_outpoints, meet, not_among, Verdict};
use crate::primitives::{views, BlockHeight, OutPoint, Txid};
use crate::storage::CoordinatorStorage;
use crate::types::{
    CoordinatedTx, CoordinatedTxView, CoordinatorNews, FeeInfo, MonitorRequest, MonitorRequestView,
    SpeedupKind, TransactionState, TxKind,
};
use vstd::prelude::*;

verus! {

/// What the node says of a transaction that it refused.
#[derive(Debug)]
pub struct NodeState {
    /// Number of confirmations when the node has the transaction, zero in the mempool.
    pub confirmations: Option<u32>,
    /// Inputs that are missing or spent; only looked for when the node does not have the transaction.
    pub gone: Vec<OutPoint>,
}

/// The services that both engines share: they work on the same storage, funding, dispatcher and fees.
#[derive(Debug)]
pub struct EngineContext {
    pub fee_manager: FeeManager,
    pub funding_manager: FundingManager,
    pub storage: CoordinatorStorage,
    pub dispatcher: Dispatcher,
    pub coordinator_config: CoordinatorSettings,
    /// Number of confirmations at which a transaction is final.
    pub max_monitoring_confirmations: u32,
    /// When a retry was last let through, in seconds.
    pub last_retry_at: Option<u64>,
}

/// Holds of the transactions that were not tried before.
pub open spec fn is_first_attempt() -> spec_fn(CoordinatedTxView) -> bool {
    |tx: CoordinatedTxView| tx.retry_count == 0
}

/// One of the transactions was tried before.
pub open spec fn has_retries(txs: Seq<CoordinatedTxView>) -> bool {
    exists|i: int| 0 <= i < txs.len() && (#[trigger] txs[i]).retry_count > 0
}

/// The request to follow a transaction that was broadcast.
pub open spec fn watch_broadcast(tx: CoordinatedTxView) -> MonitorRequestView {
    MonitorRequestView::Watch {
        txids: seq![tx.txid],
        context: tx.context,
        confirmation_trigger: tx.confirmation_trigger,
        search_in_mempool: true,
    }
}

/// What an outcome means. A speedup that was lost with a parent leaves its other parents to be covered
/// anew, as one that lost its funding does.
pub open spec fn verdict_of(
    tx: CoordinatedTxView,
    outcome: DispatchOutcomeView,
    node: NodeState,
    height: BlockHeight,
    attempts: u32,
) -> Verdict {
    match outcome {
        DispatchOutcomeView::Success => Verdict::Accepted,
        DispatchOutcomeView::Fatal(_) => Verdict::Failed { funding_missing: false },
        DispatchOutcomeView::ParentFailed => Verdict::Failed { funding_missing: true },
        DispatchOutcomeView::DispatchError(_) => tx.refused(
            node.confirmations,
            node.gone@,
            height,
            attempts,
        ),
    }
}

impl EngineContext {
    /// The storage and the statistics are in order.
    pub open spec fn wf(self) -> bool {
        self.storage.wf() && self.dispatcher.wf()
    }

    /// Everything but the records, news and lists is the same.
    pub open spec fn keeps_services(self, before: EngineContext) -> bool {
        &&& self.wf()
        &&& self.fee_manager == before.fee_manager
        &&& self.funding_manager == before.funding_manager
        &&& self.dispatcher == before.dispatcher
        &&& self.coordinator_config == before.coordinator_config
        &&& self.max_monitoring_confirmations == before.max_monitoring_confirmations
        &&& self.last_retry_at == before.last_retry_at
        &&& self.storage.max_tracking() == before.storage.max_tracking()
    }

    /// That, and the funding records still hold outputs of their own transactions, if they did before.
    pub open spec fn keeps(self, before: EngineContext) -> bool {
        self.keeps_services(before) && self.storage@.keeps_ownership(before.storage@)
    }

    pub fn new(
        fee_manager: FeeManager,
        funding_manager: FundingManager,
        dispatcher: Dispatcher,
        storage: CoordinatorStorage,
        coordinator_config: CoordinatorSettings,
        max_monitoring_confirmations: u32,
    ) -> (r: Self)
        requires
            storage.wf(),
            dispatcher.wf(),
        ensures
            r.wf(),
            r.fee_manager == fee_manager,
            r.funding_manager == funding_manager,
            r.dispatcher == dispatcher,
            r.storage == storage,
            r.coordinator_config == coordinator_config,
            r.max_monitoring_confirmations == max_monitoring_confirmations,
            r.last_retry_at is None,
    {
        EngineContext {
            fee_manager,
            funding_manager,
            storage,
            dispatcher,
            coordinator_config,
            max_monitoring_confirmations,
            last_retry_at: None,
        }
    }

    /// A confirmed transaction reappeared in the mempool: it is back to `InMempool`, with a new
    /// broadcast height.
    pub fn mark_reorg(&mut self, tx: &CoordinatedTx, current_height: BlockHeight)
        requires
            old(self).wf(),
        ensures
            final(self).keeps_services(*old(self)),
            tx@.owns_output() ==> final(self).keeps(*old(self)),
            final(self).storage@ == old(self).storage@.put(tx@.reorged(current_height)),
    {
        let mut updated = tx.clone();
        updated.state = TransactionState::InMempool;
        updated.broadcast_block_height = Some(current_height);
        self.storage.update_tx(&updated);
    }

    /// The transaction has the maximal number of confirmations.
    pub fn mark_finalized(&mut self, txid: Txid, current_height: BlockHeight)
        requires
            old(self).wf(),
        ensures
            final(self).keeps(*old(self)),
            final(self).storage@ == old(self).storage@.settle(
                txid,
                TransactionState::Finalized,
                current_height,
            ),
    {
        let _ = self.storage.settle_tx(txid, TransactionState::Finalized, current_height);
    }

    /// The transaction is on chain.
    pub fn mark_confirmed(&mut self, txid: Txid)
        requires
            old(self).wf(),
        ensures
            final(self).keeps(*old(self)),
            final(self).storage@ == old(self).storage@.transition(
                txid,
                TransactionState::Confirmed,
                None,
            ),
    {
        let _ = self.storage.update_tx_state(txid, TransactionState::Confirmed);
    }

    /// The block of the transaction was orphaned: it counts as in the mempool.
    pub fn mark_orphan(&mut self, txid: Txid)
        requires
            old(self).wf(),
        ensures
            final(self).keeps(*old(self)),
            final(self).storage@ == old(self).storage@.transition(
                txid,
                TransactionState::InMempool,
                None,
            ),
    {
        let _ = self.storage.update_tx_state(txid, TransactionState::InMempool);
    }

    /// The retry interval has passed at time `now`.
    pub open spec fn retry_is_due(self, now: u64) -> bool {
        match self.last_retry_at {
            None => true,
            Some(last) => monus(now as int, last as int)
                >= self.coordinator_config.retry_interval_seconds,
        }
    }

    /// `after` is this context, and `kept` what is left of `txs`, once retries were held back at time
    /// `now`: they are let through when the retry interval has passed, which starts a new interval.
    pub open spec fn holds_back(
        self,
        after: EngineContext,
        txs: Seq<CoordinatedTxView>,
        kept: Seq<CoordinatedTxView>,
        now: u64,
    ) -> bool {
        &&& kept == if self.retry_is_due(now) {
            txs
        } else {
            txs.filter(is_first_attempt())
        }
        &&& after.last_retry_at == if self.retry_is_due(now) && has_retries(txs) {
            Some(now)
        } else {
            self.last_retry_at
        }
        &&& after.storage == self.storage
        &&& after.keeps(EngineContext { last_retry_at: after.last_retry_at, ..self })
    }

    /// Takes out the transactions that were tried before, unless the retry interval has passed at time
    /// `now`; a retry that is let through starts a new interval. Both engines share the interval.
    pub fn limit_retries(&mut self, txs: Vec<CoordinatedTx>, now: u64) -> (r: Vec<CoordinatedTx>)
        requires
            old(self).wf(),
        ensures
            old(self).holds_back(*final(self), views(txs@), views(r@), now),
    {
        let retry_ready = match self.last_retry_at {
            None => true,
            Some(last) => now.saturating_sub(last) >= self.coordinator_config.retry_interval_seconds,
        };
        let ghost all = views(txs@);
        let ghost first = is_first_attempt();
        let mut retried = false;
        let mut kept: Vec<CoordinatedTx> = Vec::new();
        proof {
            reveal(Seq::filter);
            assert(views(kept@) =~= all.take(0).filter(first));
            assert(views(kept@) =~= all.take(0));
        }
        for i in 0..txs.len()
            invariant
                *self == *old(self),
                all == views(txs@),
                first == is_first_attempt(),
                retried == has_retries(all.take(i as int)),
                retry_ready ==> views(kept@) == all.take(i as int),
                !retry_ready ==> views(kept@) == all.take(i as int).filter(first),
        {
            proof {
                lemma_filter_step(all, first, i as int);
                assert(all[i as int] == txs@[i as int]@);
                assert(all.take(i + 1) =~= all.take(i as int).push(all[i as int]));
            }
            let is_retry = txs[i].retry_count > 0;
            if is_retry {
                retried = true;
                assert(all.take(i + 1)[i as int].retry_count > 0);
            }
            proof {
                if has_retries(all.take(i as int)) {
                    let j = choose|j: int| 0 <= j < i && (#[trigger] all.take(i as int)[j]).retry_count > 0;
                    assert(all.take(i + 1)[j].retry_count > 0);
                }
                if has_retries(all.take(i + 1)) && !is_retry {
                    let j = choose|j: int| 0 <= j <= i && (#[trigger] all.take(i + 1)[j]).retry_count > 0;
                    assert(all.take(i as int)[j].retry_count > 0);
                }
            }
            if !is_retry || retry_ready {
                let ghost before = views(kept@);
                kept.push(txs[i].clone());
                assert(views(kept@) =~= before.push(all[i as int]));
            }
        }
        assert(all.take(all.len() as int) =~= all);
        if retried && retry_ready {
            self.last_retry_at = Some(now);
        }
        kept
    }

    /// Takes out the transactions that were tried before if the retry interval has not passed by the
    /// machine's clock. The time is whatever the clock says; without a retry it does not matter.
    pub fn apply_retry_rate_limit(&mut self, txs: Vec<CoordinatedTx>) -> (r: Vec<CoordinatedTx>)
        requires
            old(self).wf(),
        ensures
            exists|now: u64| old(self).holds_back(*final(self), views(txs@), views(r@), now),
            old(self).last_retry_at is None ==> views(r@) == views(txs@),
            !has_retries(views(txs@)) ==> views(r@) == views(txs@) && final(self).last_retry_at == old(self).last_retry_at,
    {
        proof {
            if !has_retries(views(txs@)) {
                lemma_filter_all(views(txs@), is_first_attempt());
            }
        }
        let now: u64 = now_secs();
        self.limit_retries(txs, now)
    }

    /// The outpoints that the node has to be asked about when it refused `tx`: the funding inputs first,
    /// since a missing one can be replaced, and then the others.
    pub fn inputs_to_probe(&self, tx: &CoordinatedTx) -> (r: Vec<OutPoint>)
        ensures
            r@ == tx@.funding_inputs() + tx@.other_inputs(),
    {
        let mut probes = self.funding_of(tx);
        let mut others = self.other_inputs_of(tx);
        probes.append(&mut others);
        probes
    }

    fn funding_of(&self, tx: &CoordinatedTx) -> (r: Vec<OutPoint>)
        ensures
            r@ == tx@.funding_inputs(),
    {
        let mut outpoints: Vec<OutPoint> = Vec::new();
        if let TxKind::Speedup(kind) = &tx.kind {
            let inputs = &kind.context().funding_inputs;
            for i in 0..inputs.len()
                invariant
                    outpoints@ == funding_outpoints(inputs@).take(i as int),
            {
                outpoints.push(OutPoint { txid: inputs[i].txid, vout: inputs[i].vout });
                assert(outpoints@ =~= funding_outpoints(inputs@).take(i + 1));
            }
            assert(outpoints@ =~= funding_outpoints(inputs@));
        }
        outpoints
    }

    fn other_inputs_of(&self, tx: &CoordinatedTx) -> (r: Vec<OutPoint>)
        ensures
            r@ == tx@.other_inputs(),
    {
        let funding = self.funding_of(tx);
        let ghost all = tx@.tx.outpoints();
        let ghost other = not_among(funding@);
        let mut outpoints: Vec<OutPoint> = Vec::new();
        proof {
            reveal(Seq::filter);
            assert(outpoints@ =~= all.take(0).filter(other));
        }
        for i in 0..tx.tx.input.len()
            invariant
                all == tx@.tx.outpoints(),
                other == not_among(funding@),
                outpoints@ == all.take(i as int).filter(other),
        {
            proof {
                lemma_filter_step(all, other, i as int);
            }
            let op = tx.tx.input[i].previous_output;
            assert(op == all[i as int]);
            if !has_outpoint(&funding, op) {
                outpoints.push(op);
            }
        }
        assert(all.take(all.len() as int) =~= all);
        outpoints
    }

    /// What the missing inputs of `tx` mean: `Some(true)` when a funding input is gone, which can be
    /// recreated, `Some(false)` when another input is gone, and `None` when every input is intact.
    pub fn missing_input_kind(&self, tx: &CoordinatedTx, gone: &Vec<OutPoint>) -> (r: Option<bool>)
        ensures
            r == tx@.missing_input(gone@),
    {
        let funding = self.funding_of(tx);
        if any_among(&funding, gone) {
            return Some(true);
        }
        let others = self.other_inputs_of(tx);
        if any_among(&others, gone) {
            return Some(false);
        }
        None
    }

    /// What a refused broadcast means, by the state of the node:
    /// 1. the node has the transaction: accepted, in the mempool or on chain;
    /// 2. an input is gone: failed, unless a reorg may still bring it back;
    /// 3. every input is intact: tried again until the attempts are used up.
    pub fn classify_dispatch_error(
        &self,
        tx: &CoordinatedTx,
        node: &NodeState,
        current_height: BlockHeight,
    ) -> (r: Verdict)
        requires
            tx.retry_count < u32::MAX,
        ensures
            r == tx@.refused(
                node.confirmations,
                node.gone@,
                current_height,
                self.coordinator_config.retry_attempts_sending_tx,
            ),
    {
        match node.confirmations {
            Some(0) => return Verdict::Accepted,
            Some(_) => return Verdict::AlreadyConfirmed,
            None => {},
        }
        if let Some(funding_missing) = self.missing_input_kind(tx, &node.gone) {
            if let Some(deadline) = tx.fail_guard_until {
                if current_height < deadline {
                    return Verdict::Retry;
                }
            }
            return Verdict::Failed { funding_missing };
        }
        if tx.retry_count + 1 >= self.coordinator_config.retry_attempts_sending_tx {
            Verdict::Failed { funding_missing: false }
        } else {
            Verdict::Retry
        }
    }

    /// Marks the speedup that the RBF `tx` replaces. `InvariantViolation`, with nothing changed, when
    /// the replaced record is no speedup.
    fn mark_replaced(&mut self, tx: &CoordinatedTx) -> (r: Result<(), BitcoinCoordinatorError>)
        requires
            old(self).wf(),
        ensures
            final(self).keeps(*old(self)),
            match r {
                Ok(_) => !old(self).storage@.replaces_a_stranger(tx@) && final(self).storage@ == old(self).storage@.mark_replaced(tx@),
                Err(e) => old(self).storage@.replaces_a_stranger(tx@) && final(self).storage@ == old(self).storage@ && e.is_violation(
                    old(self).storage@.stranger_text(tx@),
                ),
            },
    {
        if let TxKind::Speedup(SpeedupKind::RBF { replaces, .. }) = &tx.kind {
            if let Some(found) = self.storage.get_tx_by_id(*replaces) {
                let mut replaced = found;
                match replaced.speedup_kind_mut() {
                    Ok(kind) => {
                        kind.context_mut().replaced_by = Some(tx.txid);
                    },
                    Err(e) => return Err(e),
                }
                self.storage.update_tx(&replaced);
            }
        }
        Ok(())
    }

    /// The node accepted the transaction, or already had it in its mempool. An RBF marks the speedup
    /// that it replaces.
    pub fn mark_accepted(
        &mut self,
        tx: &CoordinatedTx,
        current_height: BlockHeight,
        fee_info: FeeInfo,
    ) -> (r: Result<MonitorRequest, BitcoinCoordinatorError>)
        requires
            old(self).wf(),
        ensures
            final(self).keeps_services(*old(self)),
            tx@.owns_output() ==> final(self).keeps(*old(self)),
            match r {
                Ok(request) => !old(self).storage@.replaces_a_stranger(tx@) && request@
                    == watch_broadcast(tx@) && final(self).storage@ == old(self).storage@.mark_replaced(
                    tx@,
                ).put(tx@.accepted(current_height, fee_info)),
                Err(e) => old(self).storage@.replaces_a_stranger(tx@) && final(self).storage@ == old(self).storage@ && e.is_violation(
                    old(self).storage@.stranger_text(tx@),
                ),
            },
    {
        if let Err(e) = self.mark_replaced(tx) {
            return Err(e);
        }
        let mut updated = tx.clone();
        updated.state = TransactionState::InMempool;
        updated.broadcast_block_height = Some(current_height);
        updated.fee_info = fee_info;
        updated.fail_guard_until = None;
        self.storage.update_tx(&updated);
        Ok(watch_request(tx))
    }

    /// The node has the transaction on chain. An RBF marks the speedup that it replaces.
    pub fn mark_already_confirmed(&mut self, tx: &CoordinatedTx, current_height: BlockHeight) -> (r: Result<
        MonitorRequest,
        BitcoinCoordinatorError,
    >)
        requires
            old(self).wf(),
        ensures
            final(self).keeps_services(*old(self)),
            tx@.owns_output() ==> final(self).keeps(*old(self)),
            match r {
                Ok(request) => !old(self).storage@.replaces_a_stranger(tx@) && request@
                    == watch_broadcast(tx@) && final(self).storage@ == old(self).storage@.mark_replaced(
                    tx@,
                ).put(tx@.confirmed(current_height)),
                Err(e) => old(self).storage@.replaces_a_stranger(tx@) && final(self).storage@ == old(self).storage@ && e.is_violation(
                    old(self).storage@.stranger_text(tx@),
                ),
            },
    {
        if let Err(e) = self.mark_replaced(tx) {
            return Err(e);
        }
        let mut updated = tx.clone();
        if updated.broadcast_block_height.is_none() {
            updated.broadcast_block_height = Some(current_height);
        }
        updated.state = TransactionState::Confirmed;
        updated.fail_guard_until = None;
        self.storage.update_tx(&updated);
        Ok(watch_request(tx))
    }

    /// Settles a transaction whose dispatch failed: reports it, releases its claims, brings back the
    /// speedup that an RBF was to replace, and, when the funding is missing, puts the parents of a CPFP
    /// back in line.
    fn settle_failed_dispatch(
        &mut self,
        tx: &CoordinatedTx,
        current_height: BlockHeight,
        funding_missing: bool,
    )
        requires
            old(self).wf(),
        ensures
            final(self).keeps(*old(self)),
            final(self).storage@ == old(self).storage@.settle_failed(tx@, current_height, funding_missing),
    {
        let _ = self.storage.settle_tx(tx.txid, TransactionState::Failed, current_height);
        let _ = self.storage.add_news(dispatch_error_news(tx));
        match &tx.kind {
            TxKind::Speedup(SpeedupKind::CPFP { .. }) => {
                let _ = self.funding_manager.mark_parents_unspent(&mut self.storage, tx);
            },
            TxKind::Speedup(SpeedupKind::RBF { replaces, new_funding_inputs, .. }) => {
                self.funding_manager.release_marks(&mut self.storage, new_funding_inputs.as_slice());
                if let Some(found) = self.storage.get_tx_by_id(*replaces) {
                    let mut replaced = found;
                    let mut is_speedup = false;
                    if let Ok(kind) = replaced.speedup_kind_mut() {
                        kind.context_mut().replaced_by = None;
                        is_speedup = true;
                    }
                    if is_speedup {
                        self.storage.update_tx(&replaced);
                    }
                }
            },
            _ => {},
        }
        if funding_missing {
            self.storage.requeue_protocol_parents(tx);
        }
    }

    /// Settles the speedups in the queue that depend on `cause`, each with those that depend on it.
    fn cascade_failure(&mut self, cause: Txid, current_height: BlockHeight, depth: usize)
        requires
            old(self).wf(),
        ensures
            final(self).keeps(*old(self)),
            final(self).storage@ == old(self).storage@.cascade(
                old(self).storage@.speedup_records(),
                cause,
                current_height,
                depth as nat,
            ),
        decreases depth,
    {
        if depth == 0 {
            return;
        }
        let speedups = self.storage.get_speedups_ordered();
        let ghost start = self.storage@;
        let ghost all = views(speedups@);
        for i in 0..speedups.len()
            invariant
                self.keeps(*old(self)),
                depth > 0,
                all == views(speedups@),
                self.storage@ == start.cascade(all.take(i as int), cause, current_height, depth as nat),
        {
            let d = &speedups[i];
            proof {
                assert(all.take(i + 1).drop_last() =~= all.take(i as int));
                assert(all.take(i + 1).last() == d@);
            }
            let waiting = match self.storage.get_tx_by_id(d.txid) {
                Some(tx) => tx.state == TransactionState::ToDispatch,
                None => false,
            };
            if waiting && d.state == TransactionState::ToDispatch && depends_on(d, cause) {
                self.settle_failed_dispatch(d, current_height, true);
                self.cascade_failure(d.txid, current_height, depth - 1);
            }
        }
        assert(all.take(all.len() as int) =~= all);
    }

    /// Settles `tx` as `Failed`, and then every speedup in the queue that cannot do without it: whose
    /// first funding input is an output of `tx`, or which covers it. `funding_missing` says why `tx`
    /// failed; the funding of the others is missing by that.
    pub fn fail_and_cascade(
        &mut self,
        tx: &CoordinatedTx,
        current_height: BlockHeight,
        funding_missing: bool,
    )
        requires
            old(self).wf(),
        ensures
            final(self).keeps(*old(self)),
            final(self).storage@ == old(self).storage@.fail_and_cascade(
                tx@,
                current_height,
                funding_missing,
            ),
    {
        self.settle_failed_dispatch(tx, current_height, funding_missing);
        let depth: usize = self.storage.speedup_count();
        self.cascade_failure(tx.txid, current_height, depth);
    }

    /// Acts on the outcome of one broadcast. `node` is only read when the node refused the transaction.
    /// Returns what the monitor has to follow. `InvariantViolation`, with nothing changed, when the
    /// outcome is about another transaction, or when the transaction is an RBF of a record that is no
    /// speedup and was accepted.
    pub fn handle_dispatch_result(
        &mut self,
        tx: &CoordinatedTx,
        txid: Txid,
        outcome: DispatchOutcome,
        node: &NodeState,
        current_height: BlockHeight,
        fee_info: FeeInfo,
    ) -> (r: Result<Option<MonitorRequest>, BitcoinCoordinatorError>)
        requires
            old(self).wf(),
            tx.retry_count < u32::MAX,
            old(self).storage@.can_requeue(txid) ==> old(self).storage@.txs[txid].retry_count < u32::MAX,
        ensures
            final(self).keeps_services(*old(self)),
            tx@.owns_output() ==> final(self).keeps(*old(self)),
            ({
                let verdict = verdict_of(
                    tx@,
                    outcome@,
                    *node,
                    current_height,
                    old(self).coordinator_config.retry_attempts_sending_tx,
                );
                let on_node = verdict is Accepted || verdict is AlreadyConfirmed;
                match r {
                    Ok(request) => {
                        &&& tx.txid == txid
                        &&& on_node ==> !old(self).storage@.replaces_a_stranger(tx@)
                        &&& final(self).storage@ == old(self).storage@.apply_verdict(
                            tx@,
                            verdict,
                            current_height,
                            fee_info,
                        )
                        &&& (request is Some) == on_node
                        &&& on_node ==> request->0@ == watch_broadcast(tx@)
                    },
                    Err(e) => {
                        &&& tx.txid != txid || (on_node && old(self).storage@.replaces_a_stranger(tx@))
                        &&& final(self).storage@ == old(self).storage@
                        &&& e.is_violation(
                            if tx.txid != txid {
                                tx@.wrong_txid_text(txid)
                            } else {
                                old(self).storage@.stranger_text(tx@)
                            },
                        )
                    },
                }
            }),
    {
        if let Err(e) = tx.verify_tx_id(txid) {
            return Err(e);
        }
        let verdict = match outcome {
            DispatchOutcome::Success => Verdict::Accepted,
            DispatchOutcome::Fatal(_) => Verdict::Failed { funding_missing: false },
            DispatchOutcome::ParentFailed => Verdict::Failed { funding_missing: true },
            DispatchOutcome::DispatchError(_) => self.classify_dispatch_error(tx, node, current_height),
        };
        match verdict {
            Verdict::Accepted => match self.mark_accepted(tx, current_height, fee_info) {
                Ok(request) => Ok(Some(request)),
                Err(e) => Err(e),
            },
            Verdict::AlreadyConfirmed => match self.mark_already_confirmed(tx, current_height) {
                Ok(request) => Ok(Some(request)),
                Err(e) => Err(e),
            },
            Verdict::Failed { funding_missing } => {
                self.fail_and_cascade(tx, current_height, funding_missing);
                Ok(None)
            },
            Verdict::Retry => {
                self.storage.mark_as_retry(txid);
                Ok(None)
            },
        }
    }
}

/// The request to follow a transaction that was broadcast.
fn watch_request(tx: &CoordinatedTx) -> (r: MonitorRequest)
    ensures
        r@ == watch_broadcast(tx@),
{
    let txids: Vec<Txid> = vec![tx.txid];
    assert(txids@ =~= seq![tx.txid]);
    MonitorRequest::Watch {
        txids,
        context: tx.context.clone(),
        confirmation_trigger: tx.confirmation_trigger,
        search_in_mempool: true,
    }
}

/// The news that a transaction could not be dispatched.
fn dispatch_error_news(tx: &CoordinatedTx) -> (r: CoordinatorNews)
    ensures
        r@ == tx@.dispatch_error(),
{
    match &tx.kind {
        TxKind::Speedup(_) => CoordinatorNews::SpeedupDispatchError {
            txid: tx.txid,
            context: tx.context.clone(),
        },
        _ => CoordinatorNews::DispatchError { txid: tx.txid, context: tx.context.clone() },
    }
}

/// True when the speedup `tx` cannot do without the transaction `id`.
fn depends_on(tx: &CoordinatedTx, id: Txid) -> (r: bool)
    ensures
        r == tx@.depends_on(id),
{
    match &tx.kind {
        TxKind::Speedup(kind) => {
            let inputs = &kind.context().funding_inputs;
            if inputs.len() > 0 && inputs[0].txid == id {
                return true;
            }
            let parents = kind.parents();
            for i in 0..parents.len()
                invariant
                    tx@.is_speedup() && tx@.speedup().parents() == parents@,
                    forall|j: int| 0 <= j < i ==> parents@[j] != id,
            {
                if parents[i] == id {
                    assert(parents@.contains(id));
                    return true;
                }
            }
            false
        },
        _ => false,
    }
}

/// True when the list contains the outpoint.
fn has_outpoint(outpoints: &Vec<OutPoint>, op: OutPoint) -> (r: bool)
    ensures
        r == outpoints@.contains(op),
{
    for i in 0..outpoints.len()
        invariant
            forall|j: int| 0 <= j < i ==> outpoints@[j] != op,
    {
        if outpoints[i] == op {
            return true;
        }
    }
    false
}

/// True when the two lists have a common member.
fn any_among(a: &Vec<OutPoint>, b: &Vec<OutPoint>) -> (r: bool)
    ensures
        r == meet(a@, b@),
{
    for i in 0..a.len()
        invariant
            forall|j: int| 0 <= j < i ==> !b@.contains(#[trigger] a@[j]),
    {
        if has_outpoint(b, a[i]) {
            assert(b@.contains(a@[i as int]));
            return true;
        }
    }
    false
}

} // verus!
