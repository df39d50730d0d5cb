use crate::config::SpeedupSettings;
use crate::dispatcher::{
    is_sendable, outcomes, rejected, DispatchOutcome, DispatchOutcomeView, DispatchRun,
};
use crate::engine_context::{
    has_retries, is_first_attempt, verdict_of, watch_broadcast, EngineContext, NodeState,
};
use crate::errors::BitcoinCoordinatorError;
use crate::helper::{find_tx_in_batch, has_txid};
use crate::lemmas::{lemma_filter_map_step, lemma_filter_step};
use crate::model::{find_first, own_outputs};
use crate::primitives::{views, BlockHeight, Txid};
use crate::speedup_model::{cancel_each, is_in_flight, review_speedups, waits};
use crate::types::{CoordinatedTx, MonitorRequest, SpeedupKind, TransactionState, TxKind, TxStatus};
use vstd::prelude::*;

verus! {

/// What a review of speedups leaves to do, and the error that stopped it, if one did.
#[derive(Debug)]
pub struct ReviewOutcome {
    pub requests: Vec<MonitorRequest>,
    pub error: Option<BitcoinCoordinatorError>,
}

/// Reviews, dispatches, boosts and builds speedups.
#[derive(Clone, Copy, Debug)]
pub struct SpeedupEngine {
    pub settings: SpeedupSettings,
}

impl SpeedupEngine {
    pub fn new(settings: SpeedupSettings) -> (r: Self)
        ensures
            r.settings == settings,
    {
        SpeedupEngine { settings }
    }

    /// The speedups whose status is to be looked up, in creation order.
    pub fn speedups_to_review(&self, ctx: &EngineContext) -> (r: Vec<CoordinatedTx>)
        requires
            ctx.wf(),
        ensures
            views(r@) == ctx.storage@.speedup_records().filter(is_in_flight()),
    {
        let speedups = ctx.storage.get_speedups_ordered();
        let ghost all = views(speedups@);
        let ghost picks = is_in_flight();
        let mut in_flight: Vec<CoordinatedTx> = Vec::new();
        proof {
            reveal(Seq::filter);
            assert(views(in_flight@) =~= all.take(0).filter(picks));
        }
        for i in 0..speedups.len()
            invariant
                all == views(speedups@),
                picks == is_in_flight(),
                views(in_flight@) == all.take(i as int).filter(picks),
        {
            proof {
                lemma_filter_step(all, picks, i as int);
                assert(all[i as int] == speedups@[i as int]@);
            }
            let tx = &speedups[i];
            if tx.state == TransactionState::InMempool || tx.state == TransactionState::Confirmed {
                let ghost before = views(in_flight@);
                in_flight.push(tx.clone());
                assert(views(in_flight@) =~= before.push(all[i as int]));
            }
        }
        assert(all.take(all.len() as int) =~= all);
        in_flight
    }

    /// The second step of a tick: moves the speedups of `speedups_to_review` along by what the monitor
    /// says of each; `statuses` may stop short. Never dispatches. The review stops with
    /// `InvariantViolation` when a final speedup meets a broken funding queue.
    pub fn review_speedups(
        &self,
        ctx: &mut EngineContext,
        in_flight: &[CoordinatedTx],
        statuses: &[TxStatus],
        current_height: BlockHeight,
    ) -> (r: ReviewOutcome)
        requires
            old(ctx).wf(),
            statuses@.len() <= in_flight@.len(),
            current_height + old(ctx).max_monitoring_confirmations <= u32::MAX,
        ensures
            final(ctx).keeps_services(*old(ctx)),
            own_outputs(views(in_flight@)) ==> final(ctx).keeps(*old(ctx)),
            ({
                let review = review_speedups(
                    old(ctx).storage@,
                    views(in_flight@),
                    old(ctx).storage@.speedup_records(),
                    statuses@,
                    current_height,
                    old(ctx).max_monitoring_confirmations,
                );
                &&& final(ctx).storage@ == review.store
                &&& views(r.requests@) == review.cancels
                &&& match r.error {
                    Some(e) => review.failure matches Some(reason) && e.is_violation(reason),
                    None => review.failure is None,
                }
            }),
    {
        let speedups = ctx.storage.get_speedups_ordered();
        let ghost start = ctx.storage@;
        let ghost all = views(speedups@);
        let ghost flying = views(in_flight@);
        let ghost max = ctx.max_monitoring_confirmations;
        let mut requests: Vec<MonitorRequest> = Vec::new();
        let mut error: Option<BitcoinCoordinatorError> = None;
        assert(views(requests@) =~= Seq::empty());
        for i in 0..statuses.len()
            invariant
                ctx.keeps_services(*old(ctx)),
                own_outputs(flying) ==> ctx.keeps(*old(ctx)),
                statuses@.len() <= in_flight@.len(),
                current_height + ctx.max_monitoring_confirmations <= u32::MAX,
                max == ctx.max_monitoring_confirmations,
                all == views(speedups@),
                flying == views(in_flight@),
                ({
                    let review = review_speedups(
                        start,
                        flying,
                        all,
                        statuses@.take(i as int),
                        current_height,
                        max,
                    );
                    &&& ctx.storage@ == review.store
                    &&& views(requests@) == review.cancels
                    &&& match error {
                        Some(e) => review.failure matches Some(reason) && e.is_violation(reason),
                        None => review.failure is None,
                    }
                }),
        {
            proof {
                assert(statuses@.take(i + 1).drop_last() =~= statuses@.take(i as int));
                assert(statuses@.take(i + 1).last() == statuses@[i as int]);
                assert(flying[i as int] == in_flight@[i as int]@);
            }
            if error.is_none() {
                let ghost before = views(requests@);
                let ghost held = requests@;
                let step = self.review_speedup(
                    ctx,
                    &in_flight[i],
                    speedups.as_slice(),
                    &statuses[i],
                    current_height,
                );
                let mut cancels = step.requests;
                let ghost added = views(cancels@);
                let ghost added_items = cancels@;
                requests.append(&mut cancels);
                assert(requests@ == held + added_items);
                assert(views(requests@) =~= before + added);
                error = step.error;
            }
        }
        assert(statuses@.take(statuses@.len() as int) =~= statuses@);
        ReviewOutcome { requests, error }
    }

    /// Moves one speedup along.
    fn review_speedup(
        &self,
        ctx: &mut EngineContext,
        tx: &CoordinatedTx,
        all_speedups: &[CoordinatedTx],
        status: &TxStatus,
        current_height: BlockHeight,
    ) -> (r: ReviewOutcome)
        requires
            old(ctx).wf(),
            current_height + old(ctx).max_monitoring_confirmations <= u32::MAX,
        ensures
            final(ctx).keeps_services(*old(ctx)),
            tx@.owns_output() ==> final(ctx).keeps(*old(ctx)),
            final(ctx).storage@ == old(ctx).storage@.review_speedup(
                tx@,
                views(all_speedups@),
                *status,
                current_height,
                old(ctx).max_monitoring_confirmations,
            ),
            views(r.requests@) == old(ctx).storage@.review_cancels(tx@, *status, current_height),
            match r.error {
                Some(e) => old(ctx).storage@.review_failure(tx@, *status, current_height) matches Some(
                    reason,
                ) && e.is_violation(reason),
                None => old(ctx).storage@.review_failure(tx@, *status, current_height) is None,
            },
    {
        let mut requests: Vec<MonitorRequest> = Vec::new();
        let mut error: Option<BitcoinCoordinatorError> = None;
        assert(views(requests@) =~= Seq::empty());
        if status.in_mempool {
            if tx.state == TransactionState::Confirmed {
                ctx.mark_reorg(tx, current_height);
            }
        } else if status.not_found {
            // A speedup that is being replaced is expected to vanish.
            if !tx.has_live_replacement(all_speedups) {
                let deadline: u32 = current_height + ctx.max_monitoring_confirmations;
                ctx.storage.requeue_not_found(tx.txid, deadline);
            }
        } else if status.finalized {
            ctx.mark_finalized(tx.txid, current_height);
            requests = self.remove_replaced_rbf(ctx, tx, current_height);
            if let Err(e) = ctx.funding_manager.replace_on_finalize(&mut ctx.storage, tx.txid) {
                error = Some(e);
            }
        } else if status.confirmed {
            ctx.mark_confirmed(tx.txid);
        } else if status.orphan {
            ctx.mark_orphan(tx.txid);
        }
        ReviewOutcome { requests, error }
    }

    /// Settles the speedups that the final RBF `tx` replaced, directly or through others, and returns
    /// the requests to stop following them.
    fn remove_replaced_rbf(
        &self,
        ctx: &mut EngineContext,
        tx: &CoordinatedTx,
        current_height: BlockHeight,
    ) -> (r: Vec<MonitorRequest>)
        requires
            old(ctx).wf(),
        ensures
            final(ctx).keeps(*old(ctx)),
            final(ctx).storage@ == old(ctx).storage@.settle_all_failed(
                old(ctx).storage@.replaced_by_chain(tx@),
                current_height,
            ),
            views(r@) == cancel_each(old(ctx).storage@.replaced_by_chain(tx@), tx@.context),
    {
        let mut requests: Vec<MonitorRequest> = Vec::new();
        let ghost start = ctx.storage@;
        let chain: Vec<Txid> = match &tx.kind {
            TxKind::Speedup(SpeedupKind::RBF { replaces, .. }) => ctx.storage.replaced_chain(*replaces),
            _ => Vec::new(),
        };
        assert(chain@ =~= start.replaced_by_chain(tx@));
        assert(views(requests@) =~= cancel_each(chain@, tx@.context).take(0));
        for i in 0..chain.len()
            invariant
                ctx.keeps(*old(ctx)),
                ctx.storage@ == start.settle_all_failed(chain@.take(i as int), current_height),
                views(requests@) == cancel_each(chain@, tx@.context).take(i as int),
        {
            let id = chain[i];
            let txids: Vec<Txid> = vec![id];
            assert(txids@ =~= seq![id]);
            let request = MonitorRequest::Cancel {
                txids,
                context: tx.context.clone(),
                confirmation_trigger: None,
            };
            let ghost before = views(requests@);
            let ghost added = request@;
            requests.push(request);
            proof {
                assert(views(requests@) =~= before.push(added));
                assert(cancel_each(chain@, tx@.context).take(i + 1) =~= before.push(added));
                assert(chain@.take(i + 1).drop_last() =~= chain@.take(i as int));
                assert(chain@.take(i + 1).last() == id);
            }
            let _ = ctx.storage.settle_tx(id, TransactionState::Failed, current_height);
        }
        proof {
            assert(chain@.take(chain@.len() as int) =~= chain@);
            let all = cancel_each(chain@, tx@.context);
            assert(all.take(all.len() as int) =~= all);
        }
        requests
    }

    /// The fourth step of a tick: starts the broadcast, at time `now`, of the speedups that were built in
    /// an earlier tick or put back in the queue. Retries that come too early are held back. A speedup that
    /// spends from a transaction that has failed is not sent and has its outcome at once.
    pub fn dispatch_pending_speedups(&self, ctx: &mut EngineContext, now: u64) -> (r: (
        Vec<CoordinatedTx>,
        DispatchRun,
    ))
        requires
            old(ctx).wf(),
        ensures
            final(ctx).keeps(EngineContext { last_retry_at: final(ctx).last_retry_at, ..*old(ctx) }),
            final(ctx).storage == old(ctx).storage,
            ({
                let pending = old(ctx).storage@.speedup_records().filter(waits());
                &&& views(r.0@) == if old(ctx).retry_is_due(now) {
                    pending
                } else {
                    pending.filter(is_first_attempt())
                }
                &&& final(ctx).last_retry_at == if old(ctx).retry_is_due(now) && has_retries(pending) {
                    Some(now)
                } else {
                    old(ctx).last_retry_at
                }
            }),
            r.1.next == 0,
            ({
                let store = old(ctx).storage@;
                let max_weight = old(ctx).dispatcher.settings.max_tx_weight;
                let intact = views(r.0@).filter(store.has_intact_parents());
                &&& views(r.1.queue@) == intact.filter(is_sendable(max_weight))
                &&& outcomes(r.1.results@) == intact.filter_map(rejected(max_weight)) + views(
                    r.0@,
                ).filter_map(store.lost_with_parent())
            }),
    {
        let speedups = ctx.storage.get_speedups_ordered();
        let ghost all = views(speedups@);
        let ghost picks = waits();
        let mut pending: Vec<CoordinatedTx> = Vec::new();
        proof {
            reveal(Seq::filter);
            assert(views(pending@) =~= all.take(0).filter(picks));
        }
        for i in 0..speedups.len()
            invariant
                all == views(speedups@),
                picks == waits(),
                views(pending@) == all.take(i as int).filter(picks),
        {
            proof {
                lemma_filter_step(all, picks, i as int);
                assert(all[i as int] == speedups@[i as int]@);
            }
            if speedups[i].state == TransactionState::ToDispatch {
                let ghost before = views(pending@);
                pending.push(speedups[i].clone());
                assert(views(pending@) =~= before.push(all[i as int]));
            }
        }
        assert(all.take(all.len() as int) =~= all);
        let allowed = ctx.limit_retries(pending, now);
        let ghost store = ctx.storage@;
        let ghost listed = views(allowed@);
        let ghost intact = store.has_intact_parents();
        let ghost lost_outcome = store.lost_with_parent();
        let mut batch: Vec<CoordinatedTx> = Vec::new();
        let mut lost: Vec<(Txid, DispatchOutcome)> = Vec::new();
        proof {
            reveal(Seq::filter);
            assert(views(batch@) =~= listed.take(0).filter(intact));
            assert(outcomes(lost@) =~= listed.take(0).filter_map(lost_outcome));
        }
        for i in 0..allowed.len()
            invariant
                ctx.wf(),
                store == ctx.storage@,
                listed == views(allowed@),
                intact == store.has_intact_parents(),
                lost_outcome == store.lost_with_parent(),
                views(batch@) == listed.take(i as int).filter(intact),
                outcomes(lost@) == listed.take(i as int).filter_map(lost_outcome),
        {
            let tx = &allowed[i];
            proof {
                lemma_filter_step(listed, intact, i as int);
                lemma_filter_map_step(listed, lost_outcome, i as int);
                assert(listed[i as int] == tx@);
            }
            if parent_has_failed(ctx, tx) {
                let ghost before = outcomes(lost@);
                lost.push((tx.txid, DispatchOutcome::ParentFailed));
                assert(outcomes(lost@) =~= before.push((tx@.txid, DispatchOutcomeView::ParentFailed)));
            } else {
                let ghost before = views(batch@);
                batch.push(tx.clone());
                assert(views(batch@) =~= before.push(listed[i as int]));
            }
        }
        assert(listed.take(listed.len() as int) =~= listed);
        let mut run = ctx.dispatcher.dispatch(batch);
        let ghost before = outcomes(run.results@);
        let ghost added = outcomes(lost@);
        run.results.append(&mut lost);
        assert(outcomes(run.results@) =~= before + added);
        (allowed, run)
    }

    /// True when a boost of the batch that was dispatched has failed.
    pub fn boost_failed(&self, ctx: &EngineContext, batch: &[CoordinatedTx]) -> (r: bool)
        requires
            ctx.wf(),
        ensures
            r == ctx.storage@.lost_a_boost(views(batch@)),
    {
        let ghost all = views(batch@);
        for i in 0..batch.len()
            invariant
                ctx.wf(),
                all == views(batch@),
                forall|j: int|
                    0 <= j < i ==> !((#[trigger] all[j]).is_boost() && ctx.storage@.has_failed(
                        all[j].txid,
                    )),
        {
            let tx = &batch[i];
            assert(all[i as int] == tx@);
            let is_boost = match &tx.kind {
                TxKind::Speedup(SpeedupKind::RBF { .. }) => true,
                TxKind::Speedup(SpeedupKind::CPFP { context, .. }) => context.parent_data.len() == 0,
                _ => false,
            };
            if is_boost {
                if let Some(record) = ctx.storage.get_tx_by_id(tx.txid) {
                    if record.state == TransactionState::Failed {
                        assert(all[i as int].is_boost() && ctx.storage@.has_failed(all[i as int].txid));
                        return true;
                    }
                }
            }
        }
        false
    }

    /// Acts on the outcome for one speedup. An outcome for a transaction that is not in the batch is
    /// passed over.
    pub fn settle_dispatched(
        &self,
        ctx: &mut EngineContext,
        txs: &[CoordinatedTx],
        txid: Txid,
        outcome: DispatchOutcome,
        node: &NodeState,
        current_height: BlockHeight,
    ) -> (r: Result<Option<MonitorRequest>, BitcoinCoordinatorError>)
        requires
            old(ctx).wf(),
            forall|i: int| 0 <= i < txs@.len() ==> (#[trigger] txs@[i]).retry_count < u32::MAX,
            old(ctx).storage@.can_requeue(txid) ==> old(ctx).storage@.txs[txid].retry_count < u32::MAX,
        ensures
            final(ctx).keeps_services(*old(ctx)),
            own_outputs(views(txs@)) ==> final(ctx).keeps(*old(ctx)),
            match find_first(views(txs@), has_txid(txid)) {
                None => final(ctx).storage@ == old(ctx).storage@ && r is Ok && r->Ok_0 is None,
                Some(tx) => {
                    let verdict = verdict_of(
                        tx,
                        outcome@,
                        *node,
                        current_height,
                        old(ctx).coordinator_config.retry_attempts_sending_tx,
                    );
                    let on_node = verdict is Accepted || verdict is AlreadyConfirmed;
                    if on_node && old(ctx).storage@.replaces_a_stranger(tx) {
                        final(ctx).storage@ == old(ctx).storage@ && r is Err && r->Err_0.is_violation(
                            old(ctx).storage@.stranger_text(tx),
                        )
                    } else {
                        &&& final(ctx).storage@ == old(ctx).storage@.apply_verdict(
                            tx,
                            verdict,
                            current_height,
                            tx.fee_info,
                        )
                        &&& r is Ok
                        &&& (r->Ok_0 is Some) == on_node
                        &&& on_node ==> r->Ok_0->0@ == watch_broadcast(tx)
                    }
                },
            },
    {
        let tx = match find_tx_in_batch(txs, txid) {
            Ok(tx) => tx,
            Err(_) => return Ok(None),
        };
        assert(own_outputs(views(txs@)) ==> tx@.owns_output()) by {
            let k = choose|k: int| 0 <= k < txs@.len() && txs@[k] == *tx;
            assert(views(txs@)[k] == tx@);
        }
        ctx.handle_dispatch_result(tx, txid, outcome, node, current_height, tx.fee_info)
    }
}

/// True when a transaction that `tx` spends from has failed.
fn parent_has_failed(ctx: &EngineContext, tx: &CoordinatedTx) -> (r: bool)
    requires
        ctx.wf(),
    ensures
        r == !ctx.storage@.has_intact_parents()(tx@),
{
    for i in 0..tx.tx.input.len()
        invariant
            ctx.wf(),
            forall|j: int| 0 <= j < i ==> !ctx.storage@.has_failed(
                (#[trigger] tx@.tx.input[j]).previous_output.txid,
            ),
    {
        let parent = tx.tx.input[i].previous_output.txid;
        assert(tx@.tx.input[i as int].previous_output.txid == parent);
        if let Some(record) = ctx.storage.get_tx_by_id(parent) {
            if record.state == TransactionState::Failed {
                return true;
            }
        }
    }
    false
}

} // verus!
