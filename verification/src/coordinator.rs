use crate::config::BitcoinSettings;
use crate::dispatcher::{BroadcastStats, Dispatcher};
use crate::engine_context::EngineContext;
use crate::errors::BitcoinCoordinatorError;
use crate::fee::{network_rate, plain_fee, FeeManager};
use crate::funding::FundingManager;
use crate::lemmas::lemma_filter_step;
use crate::model::{append_new, due_news, mark_shown, StoreView};
use crate::primitives::{tx_id, tx_weight, views, BlockHeight, Transaction, TransactionView, Txid};
use crate::settings::{CPFP_TRANSACTION_CONTEXT, RBF_TRANSACTION_CONTEXT};
use crate::speedup_engine::SpeedupEngine;
use crate::storage::CoordinatorStorage;
use crate::text::{occurs_in, text_contains};
use crate::transaction_engine::TransactionEngine;
use crate::types::{
    AckNews, CoordinatedTx, CoordinatedTxView, CoordinatorNews, CoordinatorNewsView, FeeInfo,
    MonitorNews, MonitorNewsView, MonitorRequest, MonitorRequestView, News, SpeedupData,
    TransactionState, TxKind, TxKindView, Utxo,
};
use vstd::prelude::*;
use vstd::string::*;

verus! {

/// The steps of a tick.
#[derive(Clone, Copy, Debug, PartialEq, Eq, Structural)]
pub enum TickStep {
    /// Drop the news that was acknowledged at an earlier block.
    CleanupNews,
    /// Review the transactions in flight that are not speedups.
    ReviewTransactions,
    /// Review the speedups in flight.
    ReviewSpeedups,
    /// Broadcast the transactions in the queue that are not speedups.
    DispatchTransactions,
    /// Broadcast the speedups in the queue.
    DispatchSpeedups,
    /// Build a boost of the latest speedup if it is stale.
    Boost,
    /// Build a CPFP for the parents that wait for one.
    CreateCpfp,
}

/// The pipeline of a tick: review, then broadcast, then build, each for transactions before speedups.
pub open spec fn pipeline() -> Seq<TickStep> {
    seq![
        TickStep::CleanupNews,
        TickStep::ReviewTransactions,
        TickStep::ReviewSpeedups,
        TickStep::DispatchTransactions,
        TickStep::DispatchSpeedups,
        TickStep::Boost,
        TickStep::CreateCpfp,
    ]
}

/// The record of a transaction that is registered for dispatch.
pub open spec fn registration(
    tx: TransactionView,
    kind: TxKindView,
    context: Seq<char>,
    target: BlockHeight,
    confirmation_trigger: Option<u32>,
    stuck_in_mempool_blocks: Option<u32>,
    fee_rate: u64,
) -> CoordinatedTxView {
    CoordinatedTxView {
        txid: tx_id(tx),
        tx,
        kind,
        state: TransactionState::ToDispatch,
        target_block_height: target,
        confirmation_trigger,
        stuck_in_mempool_blocks,
        settled_block_height: None,
        broadcast_block_height: None,
        fail_guard_until: None,
        retry_count: 0,
        fee_info: FeeInfo {
            fee: plain_fee(tx, fee_rate) as u64,
            fee_rate,
            package_fee_rate: fee_rate,
            weight: tx_weight(tx),
        },
        context,
    }
}

/// The request to follow a transaction that is registered; the mempool is not searched before it is
/// broadcast.
pub open spec fn watch_registered(tx: CoordinatedTxView) -> MonitorRequestView {
    MonitorRequestView::Watch {
        txids: seq![tx.txid],
        context: tx.context,
        confirmation_trigger: tx.confirmation_trigger,
        search_in_mempool: false,
    }
}

/// The name of a state.
pub open spec fn state_name(state: TransactionState) -> Seq<char> {
    match state {
        TransactionState::ToDispatch => "ToDispatch"@,
        TransactionState::InMempool => "InMempool"@,
        TransactionState::Confirmed => "Confirmed"@,
        TransactionState::Finalized => "Finalized"@,
        TransactionState::Failed => "Failed"@,
    }
}

impl StoreView {
    /// Storing a registered transaction; one that needs a speedup waits for a CPFP.
    pub open spec fn register(self, tx: CoordinatedTxView) -> StoreView {
        let stored = self.put(tx);
        if tx.kind is NeedsSpeedup {
            StoreView { pending: append_new(stored.pending, tx.txid), ..stored }
        } else {
            stored
        }
    }

    /// Why a transaction cannot be cancelled; `None` when it can.
    pub open spec fn cancel_refusal(self, id: Txid) -> Option<Seq<char>> {
        if !self.txs.contains_key(id) {
            Some("tx not found in coordinator storage"@)
        } else if !(self.txs[id].kind is Normal || self.txs[id].kind is NeedsSpeedup) {
            Some(
                "tx kind "@ + self.txs[id].kind.label()
                    + " is not cancellable (only Normal / NeedsSpeedup)"@,
            )
        } else if !(self.txs[id].state is ToDispatch) {
            Some(
                "tx already dispatched (state="@ + state_name(self.txs[id].state)
                    + "); cancel is only valid in ToDispatch"@,
            )
        } else {
            None
        }
    }

    /// Holds of the transactions that can be cancelled.
    pub open spec fn is_cancellable(self) -> spec_fn(Txid) -> bool {
        |id: Txid| self.cancel_refusal(id) is None
    }

    /// Reporting each transaction that cannot be cancelled.
    pub open spec fn report_refusals(self, ids: Seq<Txid>) -> StoreView
        decreases ids.len(),
    {
        if ids.len() == 0 {
            self
        } else {
            let before = self.report_refusals(ids.drop_last());
            match self.cancel_refusal(ids.last()) {
                Some(reason) => before.report(
                    CoordinatorNewsView::InvalidCancel { txid: ids.last(), reason },
                ),
                None => before,
            }
        }
    }

    /// Removing records, in order.
    pub open spec fn remove_each(self, ids: Seq<Txid>) -> StoreView
        decreases ids.len(),
    {
        if ids.len() == 0 {
            self
        } else {
            self.remove_each(ids.drop_last()).remove(ids.last())
        }
    }
}

/// Holds of the monitor news that is for the client: not about the coordinator's own speedups.
pub open spec fn is_for_client() -> spec_fn(MonitorNewsView) -> bool {
    |news: MonitorNewsView|
        match news.transaction_context {
            Some(context) => !occurs_in(context, CPFP_TRANSACTION_CONTEXT@) && !occurs_in(
                context,
                RBF_TRANSACTION_CONTEXT@,
            ),
            None => true,
        }
}

/// Registers transactions, follows them to finality and keeps them moving with speedups. Everything that
/// comes from the node or the chain monitor is handed in, and what they have to do is handed out.
#[derive(Debug)]
pub struct BitcoinCoordinator {
    pub ctx: EngineContext,
    pub tx_engine: TransactionEngine,
    pub speedup_engine: SpeedupEngine,
}

impl BitcoinCoordinator {
    /// The storage and the statistics are in order.
    pub open spec fn wf(self) -> bool {
        self.ctx.wf()
    }

    /// Everything but the records, news and lists is the same.
    pub open spec fn keeps_services(self, before: BitcoinCoordinator) -> bool {
        &&& self.ctx.keeps_services(before.ctx)
        &&& self.tx_engine == before.tx_engine
        &&& self.speedup_engine == before.speedup_engine
    }

    /// That, and the funding records still hold outputs of their own transactions, if they did before.
    pub open spec fn keeps(self, before: BitcoinCoordinator) -> bool {
        self.keeps_services(before) && self.ctx.keeps(before.ctx)
    }

    /// A coordinator on the given storage. The defaults are used when there are no settings.
    /// `InvalidConfiguration` when a setting is out of range or the node has no transaction index.
    pub fn new_with_paths(
        settings: Option<BitcoinSettings>,
        txindex_enabled: bool,
        storage: CoordinatorStorage,
        max_monitoring_confirmations: u32,
    ) -> (r: Result<Self, BitcoinCoordinatorError>)
        requires
            storage.wf(),
        ensures
            ({
                let chosen = match settings {
                    Some(given) => given,
                    None => BitcoinSettings::defaults(),
                };
                match r {
                    Ok(c) => {
                        &&& chosen.first_problem() is None
                        &&& txindex_enabled
                        &&& c.wf()
                        &&& c.ctx.storage == storage
                        &&& c.ctx.fee_manager.settings == chosen.fee
                        &&& c.ctx.funding_manager.settings == chosen.funding
                        &&& c.ctx.dispatcher.settings == chosen.dispatcher
                        &&& c.ctx.dispatcher.stats.by_label@.len() == 0
                        &&& c.ctx.coordinator_config == chosen.coordinator
                        &&& c.ctx.max_monitoring_confirmations == max_monitoring_confirmations
                        &&& c.ctx.last_retry_at is None
                        &&& c.speedup_engine.settings == chosen.speedup
                    },
                    Err(e) => match chosen.first_problem() {
                        Some(problem) => e.is_bad_configuration(problem),
                        None => !txindex_enabled && e.is_bad_configuration(
                            "the Bitcoin node must run with -txindex=1"@,
                        ),
                    },
                }
            }),
    {
        let chosen = match settings {
            Some(given) => given,
            None => BitcoinSettings::default(),
        };
        if let Err(e) = chosen.validate() {
            return Err(e);
        }
        if !txindex_enabled {
            return Err(
                BitcoinCoordinatorError::InvalidConfiguration(
                    "the Bitcoin node must run with -txindex=1".to_string(),
                ),
            );
        }
        let ctx = EngineContext::new(
            FeeManager::new(chosen.fee),
            FundingManager::new(chosen.funding),
            Dispatcher::new(chosen.dispatcher),
            storage,
            chosen.coordinator,
            max_monitoring_confirmations,
        );
        Ok(
            BitcoinCoordinator {
                ctx,
                tx_engine: TransactionEngine::new(),
                speedup_engine: SpeedupEngine::new(chosen.speedup),
            },
        )
    }

    /// The steps of one tick, in order; none while the monitor is not synced with the chain. Building a
    /// speedup and broadcasting it fall into different ticks, so that nothing is ever on chain without a
    /// record.
    pub fn tick(&self, ready: bool) -> (r: Vec<TickStep>)
        ensures
            r@ == if ready {
                pipeline()
            } else {
                Seq::empty()
            },
    {
        if !ready {
            return Vec::new();
        }
        let steps = vec![
            TickStep::CleanupNews,
            TickStep::ReviewTransactions,
            TickStep::ReviewSpeedups,
            TickStep::DispatchTransactions,
            TickStep::DispatchSpeedups,
            TickStep::Boost,
            TickStep::CreateCpfp,
        ];
        assert(steps@ =~= pipeline());
        steps
    }

    /// Prepares the registration of a transaction: what the monitor has to follow, and the record to
    /// commit after that. `None` when the transaction is registered already; `Internal` error when its fee
    /// does not fit in 64 bits.
    fn register_tx(
        &self,
        tx: Transaction,
        kind: TxKind,
        context: String,
        target_block_height: Option<BlockHeight>,
        confirmation_trigger: Option<u32>,
        stuck_in_mempool_blocks: Option<u32>,
        current_height: BlockHeight,
        estimate: Option<u64>,
    ) -> (r: Result<Option<(MonitorRequest, CoordinatedTx)>, BitcoinCoordinatorError>)
        requires
            self.wf(),
        ensures
            ({
                let fee_rate = network_rate(self.ctx.fee_manager.settings, estimate);
                let target = match target_block_height {
                    Some(height) => height,
                    None => current_height,
                };
                registers(
                    r,
                    self.ctx.storage@,
                    registration(
                        tx@,
                        kind@,
                        context@,
                        target,
                        confirmation_trigger,
                        stuck_in_mempool_blocks,
                        fee_rate,
                    ),
                    fee_rate,
                )
            }),
    {
        let txid = tx.compute_txid();
        if self.ctx.storage.tx_exists(txid) {
            return Ok(None);
        }
        let target: BlockHeight = match target_block_height {
            Some(height) => height,
            None => current_height,
        };
        let (fee_rate, _) = self.ctx.fee_manager.get_network_fee_rate(estimate);
        let fee_info = match self.ctx.fee_manager.try_fee_for_tx(&tx, fee_rate) {
            Some(info) => info,
            None => return Err(BitcoinCoordinatorError::Internal("fee out of range".to_string())),
        };
        let txids: Vec<Txid> = vec![txid];
        assert(txids@ =~= seq![txid]);
        let request = MonitorRequest::Watch {
            txids,
            context: context.clone(),
            confirmation_trigger,
            search_in_mempool: false,
        };
        let record = CoordinatedTx {
            txid,
            tx,
            kind,
            state: TransactionState::ToDispatch,
            target_block_height: target,
            confirmation_trigger,
            stuck_in_mempool_blocks,
            settled_block_height: None,
            broadcast_block_height: None,
            fail_guard_until: None,
            retry_count: 0,
            fee_info,
            context,
        };
        Ok(Some((request, record)))
    }

    /// Prepares the registration of a transaction that is dispatched without speedup. `None` as the target
    /// height means as soon as possible. See `commit_registration`.
    pub fn dispatch_without_speedup(
        &self,
        tx: Transaction,
        context: String,
        target_block_height: Option<u32>,
        confirmation_trigger: Option<u32>,
        stuck_in_mempool_blocks: Option<u32>,
        current_height: BlockHeight,
        estimate: Option<u64>,
    ) -> (r: Result<Option<(MonitorRequest, CoordinatedTx)>, BitcoinCoordinatorError>)
        requires
            self.wf(),
        ensures
            ({
                let fee_rate = network_rate(self.ctx.fee_manager.settings, estimate);
                let target = match target_block_height {
                    Some(height) => height,
                    None => current_height,
                };
                registers(
                    r,
                    self.ctx.storage@,
                    registration(
                        tx@,
                        TxKindView::Normal,
                        context@,
                        target,
                        confirmation_trigger,
                        stuck_in_mempool_blocks,
                        fee_rate,
                    ),
                    fee_rate,
                )
            }),
    {
        self.register_tx(
            tx,
            TxKind::Normal,
            context,
            target_block_height,
            confirmation_trigger,
            stuck_in_mempool_blocks,
            current_height,
            estimate,
        )
    }

    /// Prepares the registration of a transaction that is kept moving with speedups. It is not reported as
    /// stuck: the coordinator boosts it instead. See `commit_registration`.
    pub fn dispatch_with_speedup(
        &self,
        tx: Transaction,
        speedup_data: SpeedupData,
        context: String,
        target_block_height: Option<u32>,
        confirmation_trigger: Option<u32>,
        current_height: BlockHeight,
        estimate: Option<u64>,
    ) -> (r: Result<Option<(MonitorRequest, CoordinatedTx)>, BitcoinCoordinatorError>)
        requires
            self.wf(),
        ensures
            ({
                let fee_rate = network_rate(self.ctx.fee_manager.settings, estimate);
                let target = match target_block_height {
                    Some(height) => height,
                    None => current_height,
                };
                registers(
                    r,
                    self.ctx.storage@,
                    registration(
                        tx@,
                        TxKindView::NeedsSpeedup(speedup_data),
                        context@,
                        target,
                        confirmation_trigger,
                        None,
                        fee_rate,
                    ),
                    fee_rate,
                )
            }),
    {
        self.register_tx(
            tx,
            TxKind::NeedsSpeedup(speedup_data),
            context,
            target_block_height,
            confirmation_trigger,
            None,
            current_height,
            estimate,
        )
    }

    /// Prepares the registration of a transaction, with speedups when there is data for them. It is never
    /// reported as stuck. See `commit_registration`.
    pub fn dispatch(
        &self,
        tx: Transaction,
        speedup_data: Option<SpeedupData>,
        context: String,
        target_block_height: Option<u32>,
        confirmation_trigger: Option<u32>,
        current_height: BlockHeight,
        estimate: Option<u64>,
    ) -> (r: Result<Option<(MonitorRequest, CoordinatedTx)>, BitcoinCoordinatorError>)
        requires
            self.wf(),
        ensures
            ({
                let fee_rate = network_rate(self.ctx.fee_manager.settings, estimate);
                let target = match target_block_height {
                    Some(height) => height,
                    None => current_height,
                };
                registers(
                    r,
                    self.ctx.storage@,
                    registration(
                        tx@,
                        match speedup_data {
                            Some(data) => TxKindView::NeedsSpeedup(data),
                            None => TxKindView::Normal,
                        },
                        context@,
                        target,
                        confirmation_trigger,
                        None,
                        fee_rate,
                    ),
                    fee_rate,
                )
            }),
    {
        match speedup_data {
            Some(data) => self.dispatch_with_speedup(
                tx,
                data,
                context,
                target_block_height,
                confirmation_trigger,
                current_height,
                estimate,
            ),
            None => self.dispatch_without_speedup(
                tx,
                context,
                target_block_height,
                confirmation_trigger,
                None,
                current_height,
                estimate,
            ),
        }
    }

    /// Stores a registered transaction, once the monitor follows it.
    pub fn commit_registration(&mut self, record: CoordinatedTx)
        requires
            old(self).wf(),
        ensures
            final(self).keeps_services(*old(self)),
            record@.owns_output() ==> final(self).keeps(*old(self)),
            final(self).ctx.storage@ == old(self).ctx.storage@.register(record@),
    {
        let txid = record.txid;
        let needs_speedup = match &record.kind {
            TxKind::NeedsSpeedup(_) => true,
            _ => false,
        };
        self.ctx.storage.insert_tx(record);
        if needs_speedup {
            self.ctx.storage.add_pending_speedup_parent(txid);
        }
    }

    /// Why a transaction cannot be cancelled; `None` when it can: registered by the client and not yet
    /// dispatched.
    fn classify_cancel_request(&self, txid: Txid) -> (r: Option<String>)
        requires
            self.wf(),
        ensures
            match r {
                Some(reason) => self.ctx.storage@.cancel_refusal(txid) == Some(reason@),
                None => self.ctx.storage@.cancel_refusal(txid) is None,
            },
    {
        let tx = match self.ctx.storage.get_tx_by_id(txid) {
            Some(tx) => tx,
            None => return Some("tx not found in coordinator storage".to_string()),
        };
        let cancellable = match &tx.kind {
            TxKind::Normal => true,
            TxKind::NeedsSpeedup(_) => true,
            _ => false,
        };
        if !cancellable {
            return Some(
                "tx kind ".to_string().concat(tx.kind.label()).concat(
                    " is not cancellable (only Normal / NeedsSpeedup)",
                ),
            );
        }
        if tx.state != TransactionState::ToDispatch {
            return Some(
                "tx already dispatched (state=".to_string().concat(state_text(tx.state)).concat(
                    "); cancel is only valid in ToDispatch",
                ),
            );
        }
        None
    }

    /// Starts to cancel transactions. Those that cannot be cancelled are reported, one by one; the others
    /// no longer wait for a CPFP. Returns the latter, to be removed with `commit_cancel` once the monitor
    /// has stopped following them.
    pub fn cancel_transactions(
        &mut self,
        txids: &[Txid],
        context: String,
        confirmation_trigger: Option<u32>,
    ) -> (r: Option<(Vec<Txid>, MonitorRequest)>)
        requires
            old(self).wf(),
        ensures
            final(self).keeps(*old(self)),
            ({
                let store = old(self).ctx.storage@;
                let eligible = txids@.filter(store.is_cancellable());
                &&& final(self).ctx.storage@ == store.report_refusals(txids@).unlist_pending(eligible)
                &&& match r {
                    Some((ids, request)) => eligible.len() > 0 && ids@ == eligible && request@
                        == (MonitorRequestView::Cancel {
                        txids: eligible,
                        context: context@,
                        confirmation_trigger,
                    }),
                    None => eligible.len() == 0,
                }
            }),
    {
        let ghost store = self.ctx.storage@;
        let ghost can = store.is_cancellable();
        let mut eligible: Vec<Txid> = Vec::new();
        proof {
            reveal(Seq::filter);
            assert(eligible@ =~= txids@.take(0).filter(can));
        }
        for i in 0..txids.len()
            invariant
                self.keeps(*old(self)),
                store == old(self).ctx.storage@,
                can == store.is_cancellable(),
                self.ctx.storage@ == store.report_refusals(txids@.take(i as int)),
                self.ctx.storage@.txs == store.txs,
                eligible@ == txids@.take(i as int).filter(can),
        {
            let txid = txids[i];
            proof {
                lemma_filter_step(txids@, can, i as int);
                assert(txids@.take(i + 1).drop_last() =~= txids@.take(i as int));
                assert(txids@.take(i + 1).last() == txid);
            }
            assert(self.ctx.storage@.cancel_refusal(txid) == store.cancel_refusal(txid));
            match self.classify_cancel_request(txid) {
                None => {
                    eligible.push(txid);
                },
                Some(reason) => {
                    let _ = self.ctx.storage.add_news(CoordinatorNews::InvalidCancel { txid, reason });
                },
            }
        }
        assert(txids@.take(txids@.len() as int) =~= txids@);
        if eligible.len() == 0 {
            return None;
        }
        let ghost reported = self.ctx.storage@;
        for i in 0..eligible.len()
            invariant
                self.keeps(*old(self)),
                self.ctx.storage@ == reported.unlist_pending(eligible@.take(i as int)),
        {
            proof {
                assert(eligible@.take(i + 1).drop_last() =~= eligible@.take(i as int));
                assert(eligible@.take(i + 1).last() == eligible@[i as int]);
            }
            self.ctx.storage.remove_pending_speedup_parent(eligible[i]);
        }
        assert(eligible@.take(eligible@.len() as int) =~= eligible@);
        let ids = eligible.clone();
        assert(ids@ =~= eligible@);
        Some((eligible, MonitorRequest::Cancel { txids: ids, context, confirmation_trigger }))
    }

    /// Removes the transactions that `cancel_transactions` returned.
    pub fn commit_cancel(&mut self, txids: &[Txid])
        requires
            old(self).wf(),
        ensures
            final(self).keeps(*old(self)),
            final(self).ctx.storage@ == old(self).ctx.storage@.remove_each(txids@),
    {
        for i in 0..txids.len()
            invariant
                self.keeps(*old(self)),
                self.ctx.storage@ == old(self).ctx.storage@.remove_each(txids@.take(i as int)),
        {
            proof {
                assert(txids@.take(i + 1).drop_last() =~= txids@.take(i as int));
                assert(txids@.take(i + 1).last() == txids@[i as int]);
            }
            self.ctx.storage.remove_tx(txids[i]);
        }
        assert(txids@.take(txids@.len() as int) =~= txids@);
    }

    /// Registers a funding UTXO for future speedups. One below the minimal amount is reported instead.
    pub fn add_funding(&mut self, utxo: Utxo)
        requires
            old(self).wf(),
        ensures
            final(self).keeps(*old(self)),
            final(self).ctx.storage@ == if utxo.amount < old(self).ctx.funding_manager.settings.min_funding_amount_sats {
                old(self).ctx.storage@.report(
                    CoordinatorNewsView::InvalidFundingUtxo {
                        amount: utxo.amount,
                        min_required: old(self).ctx.funding_manager.settings.min_funding_amount_sats,
                    },
                )
            } else {
                old(self).ctx.storage@.append_funding(utxo)
            },
    {
        if let Some(news) = self.ctx.funding_manager.set_funding(&mut self.ctx.storage, utxo) {
            let _ = self.ctx.storage.add_news(news);
        }
    }

    /// All the news that is due: that of the monitor, without what is about the coordinator's own
    /// speedups, and that of the coordinator not yet shown at this block.
    pub fn get_news(&mut self, monitor_news: Vec<MonitorNews>, current_height: BlockHeight) -> (r: News)
        requires
            old(self).wf(),
        ensures
            final(self).keeps(*old(self)),
            final(self).ctx.storage@ == (StoreView {
                news: mark_shown(old(self).ctx.storage@.news, current_height),
                ..old(self).ctx.storage@
            }),
            views(r.coordinator_news@) == due_news(old(self).ctx.storage@.news, current_height),
            views(r.monitor_news@) == views(monitor_news@).filter(is_for_client()),
    {
        let coordinator_news = self.ctx.storage.get_and_mark_news(current_height);
        let ghost all = views(monitor_news@);
        let ghost for_client = is_for_client();
        let mut kept: Vec<MonitorNews> = Vec::new();
        proof {
            reveal(Seq::filter);
            assert(views(kept@) =~= all.take(0).filter(for_client));
        }
        for i in 0..monitor_news.len()
            invariant
                all == views(monitor_news@),
                for_client == is_for_client(),
                views(kept@) == all.take(i as int).filter(for_client),
        {
            proof {
                lemma_filter_step(all, for_client, i as int);
                assert(all[i as int] == monitor_news@[i as int]@);
            }
            let index: u64 = monitor_news[i].index;
            let (internal, context): (bool, Option<String>) = match &monitor_news[i].transaction_context {
                Some(context) => (
                    text_contains(context.as_str(), CPFP_TRANSACTION_CONTEXT) || text_contains(
                        context.as_str(),
                        RBF_TRANSACTION_CONTEXT,
                    ),
                    Some(context.clone()),
                ),
                None => (false, None),
            };
            if !internal {
                let ghost before = views(kept@);
                kept.push(MonitorNews { transaction_context: context, index });
                assert(views(kept@) =~= before.push(all[i as int]));
            }
        }
        assert(all.take(all.len() as int) =~= all);
        News { monitor_news: kept, coordinator_news }
    }

    /// Acknowledges a news item, so that it is not returned again. An item of the monitor is handed back,
    /// for the monitor to acknowledge.
    pub fn ack_news(&mut self, news: AckNews, current_height: BlockHeight) -> (r: Option<u64>)
        requires
            old(self).wf(),
        ensures
            final(self).keeps(*old(self)),
            match news {
                AckNews::Monitor(index) => r == Some(index) && final(self).ctx.storage@ == old(self).ctx.storage@,
                AckNews::Coordinator(item) => r is None && final(self).ctx.storage@ == old(self).ctx.storage@.acknowledge(item@, current_height),
            },
    {
        match news {
            AckNews::Monitor(index) => Some(index),
            AckNews::Coordinator(item) => {
                self.ctx.storage.ack_news(item, current_height);
                None
            },
        }
    }

    /// Everything that was broadcast so far, per label.
    pub fn broadcast_stats(&self) -> (r: BroadcastStats)
        ensures
            r.by_label@ == self.ctx.dispatcher.stats.by_label@,
    {
        self.ctx.dispatcher.broadcast_stats()
    }
}

/// `r` is the outcome of registering `record` in `store`.
pub open spec fn registers(
    r: Result<Option<(MonitorRequest, CoordinatedTx)>, BitcoinCoordinatorError>,
    store: StoreView,
    record: CoordinatedTxView,
    fee_rate: u64,
) -> bool {
    if store.txs.contains_key(record.txid) {
        r matches Ok(None)
    } else if plain_fee(record.tx, fee_rate) > u64::MAX {
        r is Err && r->Err_0.is_internal("fee out of range"@)
    } else {
        r matches Ok(Some((request, prepared))) && request@ == watch_registered(record) && prepared@
            == record
    }
}

/// The name of a state.
fn state_text(state: TransactionState) -> (r: &'static str)
    ensures
        r@ == state_name(state),
{
    match state {
        TransactionState::ToDispatch => "ToDispatch",
        TransactionState::InMempool => "InMempool",
        TransactionState::Confirmed => "Confirmed",
        TransactionState::Finalized => "Finalized",
        TransactionState::Failed => "Failed",
    }
}

} // verus!
