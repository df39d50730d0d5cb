use crate::funding::release;
use crate::model::{with_replaced_by, StoreView};
use crate::primitives::{BlockHeight, OutPoint, Txid};
use crate::types::{
    CoordinatedTxView, CoordinatorNewsView, FeeInfo, SpeedupKindView, TransactionState, TxKindView,
    TxStatus, Utxo,
};
use vstd::prelude::*;

verus! {

/// What the engine concludes from the outcome of a broadcast.
#[derive(Clone, Copy, Debug, PartialEq, Eq, Structural)]
pub enum Verdict {
    /// The node has the transaction in its mempool.
    Accepted,
    /// The node has the transaction on chain.
    AlreadyConfirmed,
    /// The transaction is lost; `funding_missing` when one of its funding inputs is gone.
    Failed { funding_missing: bool },
    /// To be tried again.
    Retry,
}

/// The outpoints of funding UTXOs.
pub open spec fn funding_outpoints(utxos: Seq<Utxo>) -> Seq<OutPoint> {
    Seq::new(utxos.len(), |i: int| OutPoint { txid: utxos[i].txid, vout: utxos[i].vout })
}

/// Holds of the outpoints that are not in a list.
pub open spec fn not_among(outpoints: Seq<OutPoint>) -> spec_fn(OutPoint) -> bool {
    |op: OutPoint| !outpoints.contains(op)
}

/// Two lists have a common member.
pub open spec fn meet(a: Seq<OutPoint>, b: Seq<OutPoint>) -> bool {
    exists|i: int| 0 <= i < a.len() && b.contains(#[trigger] a[i])
}

impl CoordinatedTxView {
    /// The outpoints that fund a speedup; none for other transactions.
    pub open spec fn funding_inputs(self) -> Seq<OutPoint> {
        if self.is_speedup() {
            funding_outpoints(self.speedup().context().funding_inputs)
        } else {
            Seq::empty()
        }
    }

    /// The outpoints that the transaction spends besides its funding.
    pub open spec fn other_inputs(self) -> Seq<OutPoint> {
        self.tx.outpoints().filter(not_among(self.funding_inputs()))
    }

    /// What an outpoint that is gone means: `Some(true)` when it is a funding input, which can be
    /// replaced, `Some(false)` when it is another input, and `None` when all inputs are intact.
    pub open spec fn missing_input(self, gone: Seq<OutPoint>) -> Option<bool> {
        if meet(self.funding_inputs(), gone) {
            Some(true)
        } else if meet(self.other_inputs(), gone) {
            Some(false)
        } else {
            None
        }
    }

    /// A missing input may still come back, because a reorg is not settled yet.
    pub open spec fn is_guarded(self, height: BlockHeight) -> bool {
        self.fail_guard_until matches Some(deadline) && height < deadline
    }

    /// What a refused broadcast means, by the state of the node: the number of confirmations when it
    /// has the transaction, and the inputs that are gone.
    pub open spec fn refused(
        self,
        confirmations: Option<u32>,
        gone: Seq<OutPoint>,
        height: BlockHeight,
        attempts: u32,
    ) -> Verdict {
        match confirmations {
            Some(n) => if n == 0 {
                Verdict::Accepted
            } else {
                Verdict::AlreadyConfirmed
            },
            None => match self.missing_input(gone) {
                Some(funding_missing) => if self.is_guarded(height) {
                    Verdict::Retry
                } else {
                    Verdict::Failed { funding_missing }
                },
                None => if self.retry_count + 1 >= attempts {
                    Verdict::Failed { funding_missing: false }
                } else {
                    Verdict::Retry
                },
            },
        }
    }

    /// The record once the node has the transaction in its mempool. The fail guard is disarmed.
    pub open spec fn accepted(self, height: BlockHeight, fee_info: FeeInfo) -> CoordinatedTxView {
        CoordinatedTxView {
            state: TransactionState::InMempool,
            broadcast_block_height: Some(height),
            fee_info,
            fail_guard_until: None,
            ..self
        }
    }

    /// The record once the node has the transaction on chain. The first broadcast height is kept, and
    /// the fail guard is disarmed.
    pub open spec fn confirmed(self, height: BlockHeight) -> CoordinatedTxView {
        CoordinatedTxView {
            state: TransactionState::Confirmed,
            broadcast_block_height: Some(
                match self.broadcast_block_height {
                    Some(first) => first,
                    None => height,
                },
            ),
            fail_guard_until: None,
            ..self
        }
    }

    /// The record once a reorg brought a confirmed transaction back to the mempool.
    pub open spec fn reorged(self, height: BlockHeight) -> CoordinatedTxView {
        CoordinatedTxView {
            state: TransactionState::InMempool,
            broadcast_block_height: Some(height),
            ..self
        }
    }

    /// The news that a transaction could not be dispatched.
    pub open spec fn dispatch_error(self) -> CoordinatorNewsView {
        if self.is_speedup() {
            CoordinatorNewsView::SpeedupDispatchError { txid: self.txid, context: self.context }
        } else {
            CoordinatorNewsView::DispatchError { txid: self.txid, context: self.context }
        }
    }

    /// The speedup cannot do without the transaction `id`: its first funding input comes from there, or
    /// it covers that transaction.
    pub open spec fn depends_on(self, id: Txid) -> bool {
        self.is_speedup() && ({
            let inputs = self.speedup().context().funding_inputs;
            (inputs.len() > 0 && inputs[0].txid == id) || self.speedup().parents().contains(id)
        })
    }
}

impl StoreView {
    /// The transaction `tx` is an RBF, and the record that it replaces is no speedup.
    pub open spec fn replaces_a_stranger(self, tx: CoordinatedTxView) -> bool {
        &&& tx.kind matches TxKindView::Speedup(SpeedupKindView::RBF { replaces, .. })
        &&& self.txs.contains_key(replaces)
        &&& !self.txs[replaces].is_speedup()
    }

    /// The message about the record that the RBF `tx` replaces.
    pub open spec fn stranger_text(self, tx: CoordinatedTxView) -> Seq<char> {
        match tx.kind {
            TxKindView::Speedup(SpeedupKindView::RBF { replaces, .. }) => {
                self.txs[replaces].no_speedup_to_change_text()
            },
            _ => Seq::empty(),
        }
    }

    /// Marking the speedup that the RBF `tx` replaces, if it is stored.
    pub open spec fn mark_replaced(self, tx: CoordinatedTxView) -> StoreView {
        match tx.kind {
            TxKindView::Speedup(SpeedupKindView::RBF { replaces, .. }) => {
                if self.txs.contains_key(replaces) {
                    self.put(with_replaced_by(self.txs[replaces], Some(tx.txid)))
                } else {
                    self
                }
            },
            _ => self,
        }
    }

    /// Taking that mark away again.
    pub open spec fn unmark_replaced(self, id: Txid) -> StoreView {
        if self.txs.contains_key(id) && self.txs[id].is_speedup() {
            self.put(with_replaced_by(self.txs[id], None))
        } else {
            self
        }
    }

    /// Settling a transaction whose dispatch failed: it is reported, and its claims are released. A
    /// CPFP releases all its funding, an RBF only what it claimed itself; the speedup that it was to
    /// replace is live again. When the funding is missing, the parents of a CPFP wait for another one.
    pub open spec fn settle_failed(
        self,
        tx: CoordinatedTxView,
        height: BlockHeight,
        funding_missing: bool,
    ) -> StoreView {
        let reported = self.settle(tx.txid, TransactionState::Failed, height).report(
            tx.dispatch_error(),
        );
        let released = match tx.kind {
            TxKindView::Speedup(SpeedupKindView::CPFP { parents, context }) => release(
                reported,
                context.funding_inputs,
            ),
            TxKindView::Speedup(SpeedupKindView::RBF { replaces, new_funding_inputs, .. }) => release(
                reported,
                new_funding_inputs,
            ).unmark_replaced(replaces),
            _ => reported,
        };
        if funding_missing {
            released.requeue_parents(tx)
        } else {
            released
        }
    }

    /// The record waits to be dispatched.
    pub open spec fn is_waiting(self, id: Txid) -> bool {
        self.txs.contains_key(id) && self.txs[id].state is ToDispatch
    }

    /// Settling the listed speedups that wait to be dispatched and depend on `cause`, each with those
    /// that depend on it in turn, for at most `depth` generations.
    pub open spec fn cascade(
        self,
        listed: Seq<CoordinatedTxView>,
        cause: Txid,
        height: BlockHeight,
        depth: nat,
    ) -> StoreView
        decreases depth, listed.len(),
    {
        if depth == 0 || listed.len() == 0 {
            self
        } else {
            let before = self.cascade(listed.drop_last(), cause, height, depth);
            let victim = listed.last();
            if before.is_waiting(victim.txid) && victim.state is ToDispatch && victim.depends_on(cause) {
                let settled = before.settle_failed(victim, height, true);
                settled.cascade(
                    settled.speedup_records(),
                    victim.txid,
                    height,
                    (depth - 1) as nat,
                )
            } else {
                before
            }
        }
    }

    /// Settling a transaction whose dispatch failed, and every speedup in the queue that cannot do
    /// without it.
    pub open spec fn fail_and_cascade(
        self,
        tx: CoordinatedTxView,
        height: BlockHeight,
        funding_missing: bool,
    ) -> StoreView {
        let settled = self.settle_failed(tx, height, funding_missing);
        settled.cascade(settled.speedup_records(), tx.txid, height, settled.speedups.len())
    }

    /// Acting on a verdict.
    pub open spec fn apply_verdict(
        self,
        tx: CoordinatedTxView,
        verdict: Verdict,
        height: BlockHeight,
        fee_info: FeeInfo,
    ) -> StoreView {
        match verdict {
            Verdict::Accepted => self.mark_replaced(tx).put(tx.accepted(height, fee_info)),
            Verdict::AlreadyConfirmed => self.mark_replaced(tx).put(tx.confirmed(height)),
            Verdict::Failed { funding_missing } => self.fail_and_cascade(tx, height, funding_missing),
            Verdict::Retry => self.mark_as_retry(tx.txid),
        }
    }

    /// Reviewing one transaction that is not a speedup, by what the monitor says of it.
    pub open spec fn review_transaction(
        self,
        tx: CoordinatedTxView,
        status: TxStatus,
        height: BlockHeight,
        max_confirmations: u32,
    ) -> StoreView {
        if status.in_mempool {
            if tx.state is Confirmed {
                self.put(tx.reorged(height))
            } else if tx.is_stuck_in_mempool(height) {
                self.report(
                    CoordinatorNewsView::TransactionStuckInMempool {
                        txid: tx.txid,
                        context: tx.context,
                    },
                )
            } else {
                self
            }
        } else if status.not_found {
            self.requeue_not_found(tx.txid, (height + max_confirmations) as u32)
        } else {
            self.review_on_chain(tx.txid, status, height)
        }
    }

    /// Moving a transaction that the monitor found on chain, or on a chain that was orphaned.
    pub open spec fn review_on_chain(self, id: Txid, status: TxStatus, height: BlockHeight) -> StoreView {
        if status.finalized {
            self.settle(id, TransactionState::Finalized, height)
        } else if status.confirmed {
            self.transition(id, TransactionState::Confirmed, None)
        } else if status.orphan {
            self.transition(id, TransactionState::InMempool, None)
        } else {
            self
        }
    }

    /// Reviewing transactions one after the other, as far as their statuses are known.
    pub open spec fn review_transactions(
        self,
        txs: Seq<CoordinatedTxView>,
        statuses: Seq<TxStatus>,
        height: BlockHeight,
        max_confirmations: u32,
    ) -> StoreView
        decreases statuses.len(),
    {
        if statuses.len() == 0 {
            self
        } else {
            self.review_transactions(
                txs,
                statuses.drop_last(),
                height,
                max_confirmations,
            ).review_transaction(
                txs[statuses.len() - 1],
                statuses.last(),
                height,
                max_confirmations,
            )
        }
    }
}

/// Holds of the transactions, not speedups, that were broadcast and are not final.
pub open spec fn is_under_review() -> spec_fn(CoordinatedTxView) -> bool {
    |tx: CoordinatedTxView| !tx.is_speedup() && (tx.state is InMempool || tx.state is Confirmed)
}

/// Holds of the transactions, not speedups, that are due to be broadcast.
pub open spec fn is_due_for_dispatch(height: BlockHeight) -> spec_fn(CoordinatedTxView) -> bool {
    |tx: CoordinatedTxView|
        !tx.is_speedup() && tx.state is ToDispatch && tx.is_ready_to_dispatch(height)
}

} // verus!
