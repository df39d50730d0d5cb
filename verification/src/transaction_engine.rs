use crate::dispatcher::{is_sendable, outcomes, rejected, DispatchOutcome, DispatchRun};
use crate::engine_context::{
    has_retries, is_first_attempt, verdict_of, watch_broadcast, EngineContext, NodeState,
};
use crate::errors::BitcoinCoordinatorError;
use crate::fee::{network_rate, plain_fee};
use crate::helper::{find_tx_in_batch, has_txid, not_in_batch_text};
use crate::lemmas::{lemma_filter_step, lemma_narrow_selection};
use crate::lifecycle::{is_due_for_dispatch, is_under_review};
use crate::model::{find_first, is_active, lists_selected, own_outputs, without_all};
use crate::primitives::{tx_weight, views, BlockHeight, Txid};
use crate::types::{
    CoordinatedTx, CoordinatedTxView, CoordinatorNews, FeeInfo, MonitorRequest, TransactionState,
    TxKind, TxStatus,
};
use vstd::prelude::*;
use vstd::string::*;

verus! {

/// Reviews and dispatches the transactions that are not speedups.
#[derive(Clone, Copy, Debug)]
pub struct TransactionEngine {}

impl TransactionEngine {
    pub fn new() -> (r: Self) {
        TransactionEngine {  }
    }

    /// The first step of a tick: evicts what is settled for long enough, and returns the transactions
    /// whose status is to be looked up, in no particular order. Never dispatches.
    pub fn review_active(&self, ctx: &mut EngineContext, current_height: BlockHeight) -> (r: Vec<
        CoordinatedTx,
    >)
        requires
            old(ctx).wf(),
        ensures
            final(ctx).keeps(*old(ctx)),
            ({
                let before = old(ctx).storage@;
                let gone = before.evictable(current_height, old(ctx).storage.max_tracking());
                &&& final(ctx).storage@.txs == before.txs.remove_keys(gone)
                &&& final(ctx).storage@.speedups == without_all(before.speedups, gone)
                &&& final(ctx).storage@.pending == before.pending
                &&& final(ctx).storage@.funding == before.funding
                &&& before.reports_evictions(final(ctx).storage@.news, gone)
            }),
            lists_selected(views(r@), final(ctx).storage@.txs, is_under_review()),
    {
        ctx.storage.evict_stale_txs(current_height);
        let active = ctx.storage.get_active_txs();
        let ghost all = views(active@);
        let ghost picks = is_under_review();
        let mut to_review: Vec<CoordinatedTx> = Vec::new();
        proof {
            reveal(Seq::filter);
            assert(views(to_review@) =~= all.take(0).filter(picks));
        }
        for i in 0..active.len()
            invariant
                all == views(active@),
                picks == is_under_review(),
                views(to_review@) == all.take(i as int).filter(picks),
        {
            proof {
                lemma_filter_step(all, picks, i as int);
                assert(all[i as int] == active@[i as int]@);
            }
            let tx = &active[i];
            let in_flight = tx.state == TransactionState::InMempool || tx.state
                == TransactionState::Confirmed;
            if !is_speedup(tx) && in_flight {
                let ghost before = views(to_review@);
                to_review.push(tx.clone());
                assert(views(to_review@) =~= before.push(all[i as int]));
            }
        }
        proof {
            assert(all.take(all.len() as int) =~= all);
            lemma_narrow_selection(all, ctx.storage@.txs, is_active(), picks);
        }
        to_review
    }

    /// The mempool is searched for a transaction only once it was broadcast.
    pub fn searches_mempool(&self, tx: &CoordinatedTx) -> (r: bool)
        ensures
            r == (tx@.broadcast_block_height is Some),
    {
        tx.broadcast_block_height.is_some()
    }

    /// Moves the transactions along by what the monitor says of each; `statuses` may stop short.
    pub fn review_transactions(
        &self,
        ctx: &mut EngineContext,
        txs: &[CoordinatedTx],
        statuses: &[TxStatus],
        current_height: BlockHeight,
    )
        requires
            old(ctx).wf(),
            statuses@.len() <= txs@.len(),
            current_height + old(ctx).max_monitoring_confirmations <= u32::MAX,
        ensures
            final(ctx).keeps_services(*old(ctx)),
            own_outputs(views(txs@)) ==> final(ctx).keeps(*old(ctx)),
            final(ctx).storage@ == old(ctx).storage@.review_transactions(
                views(txs@),
                statuses@,
                current_height,
                old(ctx).max_monitoring_confirmations,
            ),
    {
        for i in 0..statuses.len()
            invariant
                ctx.keeps_services(*old(ctx)),
                own_outputs(views(txs@)) ==> ctx.keeps(*old(ctx)),
                statuses@.len() <= txs@.len(),
                current_height + ctx.max_monitoring_confirmations <= u32::MAX,
                ctx.storage@ == old(ctx).storage@.review_transactions(
                    views(txs@),
                    statuses@.take(i as int),
                    current_height,
                    old(ctx).max_monitoring_confirmations,
                ),
        {
            proof {
                assert(statuses@.take(i + 1).drop_last() =~= statuses@.take(i as int));
                assert(statuses@.take(i + 1).last() == statuses@[i as int]);
                assert(views(txs@)[i as int] == txs@[i as int]@);
            }
            self.review_transaction(ctx, &txs[i], &statuses[i], current_height);
        }
        assert(statuses@.take(statuses@.len() as int) =~= statuses@);
    }

    /// Moves one transaction along.
    fn review_transaction(
        &self,
        ctx: &mut EngineContext,
        tx: &CoordinatedTx,
        status: &TxStatus,
        current_height: BlockHeight,
    )
        requires
            old(ctx).wf(),
            current_height + old(ctx).max_monitoring_confirmations <= u32::MAX,
        ensures
            final(ctx).keeps_services(*old(ctx)),
            tx@.owns_output() ==> final(ctx).keeps(*old(ctx)),
            final(ctx).storage@ == old(ctx).storage@.review_transaction(
                tx@,
                *status,
                current_height,
                old(ctx).max_monitoring_confirmations,
            ),
    {
        if status.in_mempool {
            if tx.state == TransactionState::Confirmed {
                ctx.mark_reorg(tx, current_height);
            } else if tx.is_stuck_in_mempool(current_height) {
                let _ = ctx.storage.add_news(
                    CoordinatorNews::TransactionStuckInMempool {
                        txid: tx.txid,
                        context: tx.context.clone(),
                    },
                );
            }
        } else if status.not_found {
            let deadline: u32 = current_height + ctx.max_monitoring_confirmations;
            ctx.storage.requeue_not_found(tx.txid, deadline);
        } else if status.finalized {
            ctx.mark_finalized(tx.txid, current_height);
        } else if status.confirmed {
            ctx.mark_confirmed(tx.txid);
        } else if status.orphan {
            ctx.mark_orphan(tx.txid);
        }
    }

    /// The third step of a tick: the transactions in the queue whose target height is reached, in no
    /// particular order.
    pub fn dispatch_pending(&self, ctx: &EngineContext, current_height: BlockHeight) -> (r: Vec<
        CoordinatedTx,
    >)
        requires
            ctx.wf(),
        ensures
            lists_selected(views(r@), ctx.storage@.txs, is_due_for_dispatch(current_height)),
    {
        let active = ctx.storage.get_active_txs();
        let ghost all = views(active@);
        let ghost picks = is_due_for_dispatch(current_height);
        let mut to_dispatch: Vec<CoordinatedTx> = Vec::new();
        proof {
            reveal(Seq::filter);
            assert(views(to_dispatch@) =~= all.take(0).filter(picks));
        }
        for i in 0..active.len()
            invariant
                all == views(active@),
                picks == is_due_for_dispatch(current_height),
                views(to_dispatch@) == all.take(i as int).filter(picks),
        {
            proof {
                lemma_filter_step(all, picks, i as int);
                assert(all[i as int] == active@[i as int]@);
            }
            let tx = &active[i];
            if !is_speedup(tx) && tx.state == TransactionState::ToDispatch && tx.is_ready_to_dispatch(
                current_height,
            ) {
                let ghost before = views(to_dispatch@);
                to_dispatch.push(tx.clone());
                assert(views(to_dispatch@) =~= before.push(all[i as int]));
            }
        }
        proof {
            assert(all.take(all.len() as int) =~= all);
            lemma_narrow_selection(all, ctx.storage@.txs, is_active(), picks);
        }
        to_dispatch
    }

    /// Starts the broadcast of a batch at time `now`: takes in the node's fee estimate, when there is
    /// anything to send, and holds back retries that come too early. Returns the transactions that are let through, the run that sends
    /// them and the fee rate.
    pub fn dispatch_batch(
        &self,
        ctx: &mut EngineContext,
        txs: Vec<CoordinatedTx>,
        estimate: Option<u64>,
        now: u64,
    ) -> (r: (Vec<CoordinatedTx>, DispatchRun, u64))
        requires
            old(ctx).wf(),
        ensures
            final(ctx).keeps(EngineContext { last_retry_at: final(ctx).last_retry_at, ..*old(ctx) }),
            final(ctx).storage@ == if txs@.len() > 0 {
                old(ctx).storage@.report_estimate(old(ctx).fee_manager.settings, estimate)
            } else {
                old(ctx).storage@
            },
            views(r.0@) == if old(ctx).retry_is_due(now) {
                views(txs@)
            } else {
                views(txs@).filter(is_first_attempt())
            },
            final(ctx).last_retry_at == if old(ctx).retry_is_due(now) && has_retries(views(txs@)) {
                Some(now)
            } else {
                old(ctx).last_retry_at
            },
            r.1.next == 0,
            views(r.1.queue@) == views(r.0@).filter(
                is_sendable(old(ctx).dispatcher.settings.max_tx_weight),
            ),
            outcomes(r.1.results@) == views(r.0@).filter_map(
                rejected(old(ctx).dispatcher.settings.max_tx_weight),
            ),
            r.2 == network_rate(old(ctx).fee_manager.settings, estimate),
    {
        let (fee_rate, news) = ctx.fee_manager.get_network_fee_rate(estimate);
        if txs.len() > 0 {
            if let Some(item) = news {
                let _ = ctx.storage.add_news(item);
            }
        }
        let allowed = ctx.limit_retries(txs, now);
        let mut batch: Vec<CoordinatedTx> = Vec::new();
        for i in 0..allowed.len()
            invariant
                views(batch@) == views(allowed@).take(i as int),
        {
            let ghost before = views(batch@);
            batch.push(allowed[i].clone());
            assert(views(batch@) =~= before.push(allowed@[i as int]@));
            assert(views(allowed@).take(i + 1) =~= before.push(views(allowed@)[i as int]));
        }
        assert(views(batch@) =~= views(allowed@));
        let run = ctx.dispatcher.dispatch(batch);
        (allowed, run, fee_rate)
    }

    /// Acts on the outcome for one transaction of a batch, with the fee at `fee_rate`. Besides the
    /// errors of `handle_dispatch_result`: `InvariantViolation` when the transaction is not in the
    /// batch, and `Internal` when its fee does not fit in 64 bits.
    pub fn settle_dispatched(
        &self,
        ctx: &mut EngineContext,
        txs: &[CoordinatedTx],
        txid: Txid,
        outcome: DispatchOutcome,
        node: &NodeState,
        fee_rate: u64,
        current_height: BlockHeight,
    ) -> (r: Result<Option<MonitorRequest>, BitcoinCoordinatorError>)
        requires
            old(ctx).wf(),
            forall|i: int| 0 <= i < txs@.len() ==> (#[trigger] txs@[i]).retry_count < u32::MAX,
            old(ctx).storage@.can_requeue(txid) ==> old(ctx).storage@.txs[txid].retry_count < u32::MAX,
        ensures
            final(ctx).keeps_services(*old(ctx)),
            own_outputs(views(txs@)) ==> final(ctx).keeps(*old(ctx)),
            match find_first(views(txs@), has_txid(txid)) {
                None => final(ctx).storage@ == old(ctx).storage@ && r is Err && r->Err_0.is_violation(
                    not_in_batch_text(txid),
                ),
                Some(tx) => {
                    let verdict = verdict_of(
                        tx,
                        outcome@,
                        *node,
                        current_height,
                        old(ctx).coordinator_config.retry_attempts_sending_tx,
                    );
                    let on_node = verdict is Accepted || verdict is AlreadyConfirmed;
                    if plain_fee(tx.tx, fee_rate) > u64::MAX {
                        final(ctx).storage@ == old(ctx).storage@ && r is Err && r->Err_0.is_internal(
                            "fee out of range"@,
                        )
                    } else if on_node && old(ctx).storage@.replaces_a_stranger(tx) {
                        final(ctx).storage@ == old(ctx).storage@ && r is Err && r->Err_0.is_violation(
                            old(ctx).storage@.stranger_text(tx),
                        )
                    } else {
                        &&& final(ctx).storage@ == old(ctx).storage@.apply_verdict(
                            tx,
                            verdict,
                            current_height,
                            plain_fee_info(tx, fee_rate),
                        )
                        &&& r is Ok
                        &&& (r->Ok_0 is Some) == on_node
                        &&& on_node ==> r->Ok_0->0@ == watch_broadcast(tx)
                    }
                },
            },
    {
        let tx = match find_tx_in_batch(txs, txid) {
            Ok(tx) => tx,
            Err(e) => return Err(e),
        };
        assert(own_outputs(views(txs@)) ==> tx@.owns_output()) by {
            let k = choose|k: int| 0 <= k < txs@.len() && txs@[k] == *tx;
            assert(views(txs@)[k] == tx@);
        }
        let fee_info = match ctx.fee_manager.try_fee_for_tx(&tx.tx, fee_rate) {
            Some(info) => info,
            None => return Err(BitcoinCoordinatorError::Internal("fee out of range".to_string())),
        };
        assert(fee_info == plain_fee_info(tx@, fee_rate));
        ctx.handle_dispatch_result(tx, txid, outcome, node, current_height, fee_info)
    }
}

/// The fee info of a transaction that pays `fee_rate` by itself.
pub open spec fn plain_fee_info(tx: CoordinatedTxView, fee_rate: u64) -> FeeInfo {
    FeeInfo {
        fee: plain_fee(tx.tx, fee_rate) as u64,
        fee_rate,
        package_fee_rate: fee_rate,
        weight: tx_weight(tx.tx),
    }
}

/// True when the record is a speedup.
fn is_speedup(tx: &CoordinatedTx) -> (r: bool)
    ensures
        r == tx@.is_speedup(),
{
    match &tx.kind {
        TxKind::Speedup(_) => true,
        _ => false,
    }
}

} // verus!
