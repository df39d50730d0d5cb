use bitcoin_coordinator::config::{
    BitcoinSettings, CoordinatorSettings, CoordinatorStorageSettings, FeeSettings, FundingSettings,
    SpeedupSettings,
};
use bitcoin_coordinator::coordinator::{BitcoinCoordinator, TickStep};
use bitcoin_coordinator::dispatcher::{DispatchOutcome, DispatchRun};
use bitcoin_coordinator::engine_context::NodeState;
use bitcoin_coordinator::funding::{FundingManager, FundingStorage};
use bitcoin_coordinator::primitives::{
    Multiplier, OutPoint, PublicKey, Transaction, TxIn, TxOut, Txid, Witness,
};
use bitcoin_coordinator::speedup_builder::{BuildRequest, BuildStep, SpeedupBuild};
use bitcoin_coordinator::speedup_model::ParentEntry;
use bitcoin_coordinator::storage::CoordinatorStorage;
use bitcoin_coordinator::types::{
    AckNews, CoordinatedTx, CoordinatorNews, MonitorNews, MonitorRequest, News, SpeedupData,
    TransactionState, TxKind, TxStatus, Utxo,
};

// =============================================================================
// A node, a chain monitor and a wallet in memory
// =============================================================================

const DUST_LIMIT: u64 = 546;

fn key() -> PublicKey {
    PublicKey { compressed: true, parity: 2, x_hi: 0x42, x_lo: 0x42 }
}

fn multiplier(value: f64) -> Multiplier {
    Multiplier { bits: value.to_bits() }
}

fn ctx(label: &str) -> String {
    format!("test_ctx:{}", label)
}

/// An input that spends a pay-to-witness-public-key-hash output.
fn spend(txid: Txid, vout: u32) -> TxIn {
    TxIn {
        previous_output: OutPoint { txid, vout },
        script_sig: vec![],
        sequence: 0xffff_fffd,
        witness: Witness::new(vec![vec![1; 72], vec![2; 33]]).unwrap(),
    }
}

fn pay(value: u64) -> TxOut {
    TxOut { value, script_pubkey: vec![0; 22] }
}

fn dummy_tx() -> Transaction {
    Transaction { version: 2, lock_time: 0, input: vec![], output: vec![] }
}

/// A node with its chain, of which the last element is the tip, and its mempool.
struct Node {
    chain: Vec<Vec<(Txid, Transaction)>>,
    mempool: Vec<(Txid, Transaction)>,
    min_relay_rate: u64,
    coins: u32,
}

impl Node {
    fn new() -> Node {
        Node { chain: (0..102).map(|_| vec![]).collect(), mempool: vec![], min_relay_rate: 0, coins: 0 }
    }

    fn height(&self) -> u32 {
        self.chain.len() as u32
    }

    fn on_chain(&self) -> impl Iterator<Item = &(Txid, Transaction)> {
        self.chain.iter().flatten()
    }

    /// Confirmations of a transaction; zero in the mempool.
    fn confirmations(&self, id: Txid) -> Option<u32> {
        for (i, block) in self.chain.iter().enumerate() {
            if block.iter().any(|t| t.0 == id) {
                return Some((self.chain.len() - i) as u32);
            }
        }
        self.in_mempool(id).then_some(0)
    }

    fn in_mempool(&self, id: Txid) -> bool {
        self.mempool.iter().any(|t| t.0 == id)
    }

    fn value(&self, op: OutPoint) -> Option<u64> {
        self.on_chain()
            .chain(self.mempool.iter())
            .find(|t| t.0 == op.txid)
            .and_then(|t| t.1.output.get(op.vout as usize))
            .map(|o| o.value)
    }

    fn spent_on_chain(&self, op: OutPoint) -> bool {
        self.on_chain().any(|t| t.1.input.iter().any(|i| i.previous_output == op))
    }

    fn spent_in_mempool(&self, op: OutPoint) -> bool {
        self.mempool.iter().any(|t| t.1.input.iter().any(|i| i.previous_output == op))
    }

    fn is_unspent(&self, op: OutPoint) -> bool {
        self.value(op).is_some() && !self.spent_on_chain(op) && !self.spent_in_mempool(op)
    }

    fn fee(&self, tx: &Transaction) -> u64 {
        let paid: u64 = tx.input.iter().map(|i| self.value(i.previous_output).unwrap()).sum();
        let out: u64 = tx.output.iter().map(|o| o.value).sum();
        paid - out
    }

    /// The transactions of the mempool that conflict with `tx`, with their descendants.
    fn conflicts(&self, tx: &Transaction) -> Vec<Txid> {
        let mut ids: Vec<Txid> = vec![];
        let mine: Vec<OutPoint> = tx.input.iter().map(|i| i.previous_output).collect();
        loop {
            let more = self.mempool.iter().find(|t| {
                !ids.contains(&t.0)
                    && t.1.input.iter().any(|i| {
                        mine.contains(&i.previous_output) || ids.contains(&i.previous_output.txid)
                    })
            });
            match more {
                Some(t) => ids.push(t.0),
                None => return ids,
            }
        }
    }

    fn evict(&mut self, ids: &[Txid]) {
        self.mempool.retain(|t| !ids.contains(&t.0));
    }

    fn send(&mut self, tx: &Transaction) -> Result<(), String> {
        let id = tx.compute_txid();
        if self.in_mempool(id) {
            return Err("txn-already-in-mempool".to_string());
        }
        if self.on_chain().any(|t| t.0 == id) {
            return Err("Transaction outputs already in utxo set".to_string());
        }
        for input in &tx.input {
            let op = input.previous_output;
            if self.value(op).is_none() || self.spent_on_chain(op) {
                return Err("bad-txns-inputs-missingorspent".to_string());
            }
        }
        let fee = self.fee(tx);
        if fee < self.min_relay_rate * tx.vsize() {
            return Err("min relay fee not met".to_string());
        }
        let conflicts = self.conflicts(tx);
        let replaced: u64 = self
            .mempool
            .iter()
            .filter(|t| conflicts.contains(&t.0))
            .map(|t| self.fee(&t.1))
            .sum();
        if !conflicts.is_empty() && fee < replaced + tx.vsize() {
            return Err("insufficient fee, rejecting replacement".to_string());
        }
        self.evict(&conflicts);
        self.mempool.push((id, tx.clone()));
        Ok(())
    }

    /// Mines blocks; the first one holds the whole mempool.
    fn mine(&mut self, n: u32) {
        for _ in 0..n {
            let block = std::mem::take(&mut self.mempool);
            self.chain.push(block);
        }
    }

    fn mine_empty(&mut self, n: u32) {
        for _ in 0..n {
            self.chain.push(vec![]);
        }
    }

    /// Mines a block with one transaction that need not be in the mempool, and returns its height.
    fn mine_with(&mut self, tx: &Transaction) -> u32 {
        let mut gone = self.conflicts(tx);
        gone.push(tx.compute_txid());
        self.evict(&gone);
        self.chain.push(vec![(tx.compute_txid(), tx.clone())]);
        self.height()
    }

    /// Takes the block at a height and those above it off the chain; what they hold goes back to the
    /// mempool.
    fn invalidate(&mut self, height: u32) {
        let undone = self.chain.split_off(height as usize - 1);
        for (_, tx) in undone.iter().flatten() {
            let _ = self.send(tx);
        }
    }

    /// Empties the mempool and mines a block.
    fn expire_mempool(&mut self) {
        self.mempool.clear();
        self.mine_empty(1);
    }

    /// A confirmed output of this amount.
    fn fund(&mut self, amount: u64) -> OutPoint {
        self.coins += 1;
        let mut bytes = [0xaa; 32];
        bytes[..4].copy_from_slice(&self.coins.to_le_bytes());
        let tx = Transaction {
            version: 2,
            lock_time: 0,
            input: vec![spend(Txid { bytes }, 0)],
            output: vec![pay(amount)],
        };
        let txid = tx.compute_txid();
        self.chain.push(vec![(txid, tx)]);
        OutPoint { txid, vout: 0 }
    }

    /// Two confirmed outputs of one transaction.
    fn fund_twice(&mut self, amount: u64) -> (Utxo, Utxo) {
        let coin = self.fund(2 * amount);
        let tx = Transaction {
            version: 2,
            lock_time: 0,
            input: vec![spend(coin.txid, coin.vout)],
            output: vec![pay(amount), pay(amount)],
        };
        let txid = tx.compute_txid();
        self.chain.push(vec![(txid, tx)]);
        (Utxo::new(txid, 0, amount, &key()), Utxo::new(txid, 1, amount, &key()))
    }

    /// A transaction that spends a fresh output of this amount and pays this fee.
    fn signed_tx(&mut self, amount: u64, fee: u64) -> Transaction {
        let coin = self.fund(amount);
        Transaction {
            version: 2,
            lock_time: 0,
            input: vec![spend(coin.txid, coin.vout)],
            output: vec![pay(amount - fee)],
        }
    }

    fn signed_tx_to_dispatch(&mut self) -> Transaction {
        self.signed_tx(1_000_000, 100_000)
    }

    /// A transaction and one that spends its output.
    fn parent_and_child(&mut self) -> (Transaction, Transaction) {
        let parent = self.signed_tx(2_000_000, 100_000);
        let child = Transaction {
            version: 2,
            lock_time: 0,
            input: vec![spend(parent.compute_txid(), 0)],
            output: vec![pay(1_800_000)],
        };
        (parent, child)
    }

    /// A transaction with the same input as another one that pays this fee and another key.
    fn conflict(&self, tx: &Transaction, fee: u64) -> Transaction {
        let coin = tx.input[0].previous_output;
        Transaction {
            version: 2,
            lock_time: 0,
            input: vec![spend(coin.txid, coin.vout)],
            output: vec![TxOut {
                value: self.value(coin).unwrap() - fee,
                script_pubkey: vec![1; 22],
            }],
        }
    }

    fn funding_utxo(&mut self, amount: u64) -> Utxo {
        let coin = self.fund(amount);
        Utxo::new(coin.txid, coin.vout, amount, &key())
    }

    /// A parent with an output of this amount, and what a speedup needs to spend it.
    fn parent_tx(&mut self, output_sats: u64) -> (Transaction, SpeedupData) {
        self.parent_tx_with_fee(output_sats, 100_000)
    }

    fn parent_tx_with_fee(&mut self, output_sats: u64, fee: u64) -> (Transaction, SpeedupData) {
        let tx = self.signed_tx(output_sats + fee, fee);
        let data = SpeedupData::new(Utxo::new(tx.compute_txid(), 0, output_sats, &key()));
        (tx, data)
    }
}

/// The child that spends the parents' outputs and the funding, and pays `fee` from the funding.
fn speedup_transaction(parents: &[ParentEntry], funding: &[Utxo], fee: u64) -> Transaction {
    let mut input: Vec<TxIn> = vec![];
    for parent in parents {
        let utxo = parent.data.utxo.unwrap();
        input.push(spend(utxo.txid, utxo.vout));
    }
    for utxo in funding {
        input.push(spend(utxo.txid, utxo.vout));
    }
    let total: u64 = funding.iter().map(|u| u.amount).sum();
    Transaction { version: 2, lock_time: 0, input, output: vec![pay(total - fee)] }
}

/// A coordinator with its node and a monitor that takes in one block a tick.
struct World {
    node: Node,
    coordinator: BitcoinCoordinator,
    seen: Vec<Txid>,
    height: u32,
    ready: bool,
    now_ms: u64,
    watched: Vec<(Txid, String, Option<u32>)>,
    told: Vec<Txid>,
    acked: Vec<Txid>,
    boost_failed: bool,
    max_confirmations: u32,
}

impl World {
    fn new() -> World {
        World::with(BitcoinSettings::default(), 6)
    }

    fn with(settings: BitcoinSettings, max_confirmations: u32) -> World {
        let storage = CoordinatorStorage::new(settings.storage);
        let coordinator =
            BitcoinCoordinator::new_with_paths(Some(settings), true, storage, max_confirmations)
                .unwrap();
        World {
            node: Node::new(),
            coordinator,
            seen: vec![],
            height: 0,
            ready: false,
            now_ms: 1_700_000_000_000,
            watched: vec![],
            told: vec![],
            acked: vec![],
            boost_failed: false,
            max_confirmations,
        }
    }

    fn sleep_ms(&mut self, ms: u64) {
        self.now_ms += ms;
    }

    fn storage(&self) -> &CoordinatorStorage {
        &self.coordinator.ctx.storage
    }

    fn storage_mut(&mut self) -> &mut CoordinatorStorage {
        &mut self.coordinator.ctx.storage
    }

    fn record(&self, id: Txid) -> CoordinatedTx {
        self.storage().get_tx_by_id(id).unwrap()
    }

    fn state(&self, id: Txid) -> Option<TransactionState> {
        self.storage().get_tx_by_id(id).map(|tx| tx.state)
    }

    fn speedups(&self) -> Vec<CoordinatedTx> {
        self.storage().get_speedups_ordered()
    }

    fn status(&self, id: Txid, search_in_mempool: bool) -> TxStatus {
        let mut status = TxStatus {
            in_mempool: false,
            not_found: false,
            finalized: false,
            confirmed: false,
            orphan: false,
        };
        match self.node.confirmations(id) {
            Some(n) if n > 0 => {
                status.confirmed = true;
                status.finalized = n >= self.max_confirmations;
            }
            _ if search_in_mempool && self.seen.contains(&id) => status.in_mempool = true,
            _ => status.not_found = true,
        }
        status
    }

    fn request(&mut self, request: MonitorRequest) {
        match request {
            MonitorRequest::Watch { txids, context, confirmation_trigger, .. } => {
                for id in txids {
                    if !self.watched.iter().any(|w| w.0 == id) {
                        self.watched.push((id, context.clone(), confirmation_trigger));
                    }
                }
            }
            MonitorRequest::Cancel { txids, .. } => self.watched.retain(|w| !txids.contains(&w.0)),
        }
    }

    /// What the node says of a transaction that it refused.
    fn node_state(&self, tx: &CoordinatedTx) -> NodeState {
        NodeState {
            confirmations: self.node.confirmations(tx.txid),
            gone: self
                .coordinator
                .ctx
                .inputs_to_probe(tx)
                .into_iter()
                .filter(|op| !self.node.is_unspent(*op))
                .collect(),
        }
    }

    fn broadcast(&mut self, mut run: DispatchRun) -> Vec<(Txid, DispatchOutcome)> {
        while !run.is_done() {
            let ids = self
                .coordinator
                .ctx
                .dispatcher
                .tracked_parents(&run.queue[run.next], &self.coordinator.ctx.storage);
            let statuses: Vec<TxStatus> = ids.iter().map(|id| self.status(*id, true)).collect();
            if let Some(tx) = self.coordinator.ctx.dispatcher.gate(&mut run, &statuses) {
                let reply = self.node.send(&tx);
                self.coordinator.ctx.dispatcher.sent(&mut run, reply, DUST_LIMIT);
            }
        }
        run.results
    }

    fn build(&mut self, request: BuildRequest) -> Option<(SpeedupBuild, Transaction, u64, bool)> {
        let engine = self.coordinator.speedup_engine;
        let ctx = &mut self.coordinator.ctx;
        let mut build = engine.begin_build(ctx, request).unwrap()?;
        loop {
            let measured = speedup_transaction(&build.parents, &build.funding_inputs, 1).vsize();
            let base = engine.price_build(ctx, &mut build, measured).unwrap();
            let bumped = (base as f64 * f64::from_bits(build.bump_fee.bits)).ceil() as u64;
            match engine.advance_build(ctx, &mut build, bumped, DUST_LIMIT) {
                BuildStep::Measure => {}
                BuildStep::GiveUp => return None,
                BuildStep::Sign { fee, capped } => {
                    let tx = speedup_transaction(&build.parents, &build.funding_inputs, fee);
                    if engine.finish_build(&mut build, tx.vsize()) {
                        return Some((build, tx, fee, capped));
                    }
                }
            }
        }
    }

    fn tick(&mut self) {
        if self.height > self.node.height() {
            self.height = self.node.height();
        } else if self.height < self.node.height() {
            self.height += 1;
        }
        self.ready = self.height == self.node.height();
        self.seen = self.node.mempool.iter().map(|t| t.0).collect();
        for step in self.coordinator.tick(self.ready) {
            self.step(step);
        }
    }

    fn step(&mut self, step: TickStep) {
        let height = self.height;
        let now = self.now_ms / 1000;
        let transactions = self.coordinator.tx_engine;
        let speedups = self.coordinator.speedup_engine;
        match step {
            TickStep::CleanupNews => self.storage_mut().cleanup_news(height),
            TickStep::ReviewTransactions => {
                let txs = transactions.review_active(&mut self.coordinator.ctx, height);
                let statuses: Vec<TxStatus> = txs
                    .iter()
                    .map(|tx| self.status(tx.txid, transactions.searches_mempool(tx)))
                    .collect();
                transactions.review_transactions(
                    &mut self.coordinator.ctx,
                    &txs,
                    &statuses,
                    height,
                );
            }
            TickStep::ReviewSpeedups => {
                let txs = speedups.speedups_to_review(&self.coordinator.ctx);
                let statuses: Vec<TxStatus> =
                    txs.iter().map(|tx| self.status(tx.txid, true)).collect();
                let outcome =
                    speedups.review_speedups(&mut self.coordinator.ctx, &txs, &statuses, height);
                assert!(outcome.error.is_none());
                for request in outcome.requests {
                    self.request(request);
                }
            }
            TickStep::DispatchTransactions => {
                let due = transactions.dispatch_pending(&self.coordinator.ctx, height);
                let (txs, run, fee_rate) =
                    transactions.dispatch_batch(&mut self.coordinator.ctx, due, None, now);
                for (txid, outcome) in self.broadcast(run) {
                    let node = self.node_state(txs.iter().find(|tx| tx.txid == txid).unwrap());
                    let request = transactions
                        .settle_dispatched(
                            &mut self.coordinator.ctx,
                            &txs,
                            txid,
                            outcome,
                            &node,
                            fee_rate,
                            height,
                        )
                        .unwrap();
                    if let Some(request) = request {
                        self.request(request);
                    }
                }
            }
            TickStep::DispatchSpeedups => {
                let (txs, run) = speedups.dispatch_pending_speedups(&mut self.coordinator.ctx, now);
                for (txid, outcome) in self.broadcast(run) {
                    let node = self.node_state(txs.iter().find(|tx| tx.txid == txid).unwrap());
                    let request = speedups
                        .settle_dispatched(
                            &mut self.coordinator.ctx,
                            &txs,
                            txid,
                            outcome,
                            &node,
                            height,
                        )
                        .unwrap();
                    if let Some(request) = request {
                        self.request(request);
                    }
                }
                self.boost_failed = speedups.boost_failed(&self.coordinator.ctx, &txs);
            }
            TickStep::Boost => {
                let due =
                    speedups.boost_if_stale(&self.coordinator.ctx, height, self.boost_failed);
                let plan = match due {
                    Some(plan) => plan,
                    None => return,
                };
                let used = plan.last.speedup_kind().unwrap().context().bump_fee_used;
                let next = multiplier(
                    f64::from_bits(used.bits)
                        * f64::from_bits(speedups.settings.bump_fee_percentage.bits),
                );
                let request =
                    speedups.boost_request(&mut self.coordinator.ctx, &plan, None, next).unwrap();
                if let Some((build, tx, fee, capped)) = self.build(request) {
                    let request = speedups
                        .save_boost(
                            &mut self.coordinator.ctx,
                            &plan,
                            &build,
                            tx,
                            fee,
                            capped,
                            height,
                        )
                        .unwrap();
                    self.request(request);
                }
            }
            TickStep::CreateCpfp => {
                let plan = match speedups.create_cpfp_batch(&mut self.coordinator.ctx) {
                    Some(plan) => plan,
                    None => return,
                };
                let chosen =
                    speedups.cpfp_request(&mut self.coordinator.ctx, &plan, None).unwrap();
                if let Some((batch, request)) = chosen {
                    if let Some((build, tx, fee, capped)) = self.build(request) {
                        let request = speedups
                            .save_cpfp(
                                &mut self.coordinator.ctx,
                                &batch,
                                &build,
                                tx,
                                fee,
                                capped,
                                height,
                            )
                            .unwrap();
                        self.request(request);
                    }
                }
            }
        }
    }

    fn tick_until_ready(&mut self) {
        loop {
            self.tick();
            if self.ready {
                break;
            }
        }
    }

    fn tick_until_state(&mut self, id: Txid, state: TransactionState, max_ticks: u32) -> bool {
        self.tick_until_all_states(&[id], state, max_ticks)
    }

    fn tick_until_all_states(
        &mut self,
        ids: &[Txid],
        state: TransactionState,
        max_ticks: u32,
    ) -> bool {
        for _ in 0..max_ticks {
            self.tick();
            if ids.iter().all(|id| self.state(*id) == Some(state)) {
                return true;
            }
        }
        false
    }

    fn commit(&mut self, prepared: Option<(MonitorRequest, CoordinatedTx)>) {
        if let Some((request, record)) = prepared {
            self.request(request);
            self.coordinator.commit_registration(record);
        }
    }

    fn dispatch(&mut self, tx: Transaction, data: Option<SpeedupData>, context: String) {
        let prepared =
            self.coordinator.dispatch(tx, data, context, None, None, self.height, None).unwrap();
        self.commit(prepared);
    }

    fn dispatch_without_speedup(
        &mut self,
        tx: Transaction,
        context: String,
        target: Option<u32>,
        trigger: Option<u32>,
        stuck: Option<u32>,
    ) {
        let prepared = self
            .coordinator
            .dispatch_without_speedup(tx, context, target, trigger, stuck, self.height, None)
            .unwrap();
        self.commit(prepared);
    }

    fn dispatch_with_speedup(&mut self, tx: Transaction, data: SpeedupData, context: String) {
        let prepared = self
            .coordinator
            .dispatch_with_speedup(tx, data, context, None, None, self.height, None)
            .unwrap();
        self.commit(prepared);
    }

    fn cancel(&mut self, txids: &[Txid], context: String) {
        if let Some((ids, request)) = self.coordinator.cancel_transactions(txids, context, None) {
            self.request(request);
            self.coordinator.commit_cancel(&ids);
        }
    }

    /// The news; a monitor item has the place of its transaction in `told` as its number.
    fn news(&mut self) -> News {
        for (id, _, trigger) in &self.watched {
            if let (Some(n), Some(wanted)) = (self.node.confirmations(*id), trigger) {
                if n >= *wanted && n > 0 && !self.told.contains(id) {
                    self.told.push(*id);
                }
            }
        }
        let mut items: Vec<MonitorNews> = vec![];
        for (i, id) in self.told.iter().enumerate() {
            if !self.acked.contains(id) {
                let context = self.watched.iter().find(|w| w.0 == *id).map(|w| w.1.clone());
                items.push(MonitorNews { transaction_context: context, index: i as u64 });
            }
        }
        self.coordinator.get_news(items, self.height)
    }

    fn ack(&mut self, item: AckNews) {
        if let Some(index) = self.coordinator.ack_news(item, self.height) {
            self.acked.push(self.told[index as usize]);
        }
    }

    fn ack_all(&mut self, news: News) {
        for item in news.monitor_news {
            self.ack(AckNews::Monitor(item.index));
        }
        for item in news.coordinator_news {
            self.ack(AckNews::Coordinator(item));
        }
    }

    fn ack_everything(&mut self) {
        let news = self.news();
        self.ack_all(news);
    }

    /// Builds a CPFP in one tick and broadcasts it in a later one.
    fn build_and_dispatch_cpfp(&mut self, extra_ticks: u32) -> Txid {
        self.tick();
        let speedups = self.speedups();
        assert_eq!(
            speedups.len(),
            1,
            "exactly one CPFP must be built in the first tick after dispatch"
        );
        let cpfp_txid = speedups[0].txid;
        assert_eq!(
            speedups[0].state,
            TransactionState::ToDispatch,
            "CPFP must be saved as ToDispatch on the build tick (broadcast happens on the next tick)"
        );
        assert!(
            self.tick_until_state(cpfp_txid, TransactionState::InMempool, extra_ticks),
            "CPFP must reach InMempool within {} ticks after the build tick",
            extra_ticks
        );
        cpfp_txid
    }

    /// The amount-bearing records of the funding queue: UTXO, spent, and whether it is a speedup's change.
    fn fundings(&self) -> Vec<(Utxo, bool, bool)> {
        self.storage()
            .read_funding_records()
            .iter()
            .map(|r| {
                let (utxo, spent) = r.get_funding_info().unwrap();
                (utxo, spent, matches!(r.kind, TxKind::Speedup(_)))
            })
            .collect()
    }

    fn bump(&self, id: Txid) -> f64 {
        f64::from_bits(self.record(id).speedup_kind().unwrap().context().bump_fee_used.bits)
    }
}

// =============================================================================
// Transactions without speedup
// =============================================================================

/// The coordinator starts out unready and becomes ready after the monitor has
/// caught up with the chain.
#[test]
fn test_tick_until_ready() {
    let mut w = World::new();

    assert!(!w.ready); // Freshly created coordinator should not be ready before it has ticked
    assert!(w.coordinator.tick(false).is_empty());
    w.tick_until_ready();
    assert!(w.ready);
    assert_eq!(
        w.coordinator.tick(true),
        vec![
            TickStep::CleanupNews,
            TickStep::ReviewTransactions,
            TickStep::ReviewSpeedups,
            TickStep::DispatchTransactions,
            TickStep::DispatchSpeedups,
            TickStep::Boost,
            TickStep::CreateCpfp,
        ]
    );

    assert!(w.news().is_empty());
}

/// Verifies the registration-to-dispatch lifecycle in a single test:
///
/// 1. `dispatch` immediately persists the transaction in storage
/// 2. The first tick broadcasts the transaction, advancing its state to `InMempool`
#[test]
fn test_tx_dispatch_to_mempool() {
    let mut w = World::new();
    w.tick_until_ready();
    let tx = w.node.signed_tx_to_dispatch();
    let txid = tx.compute_txid();
    w.dispatch(tx, None, ctx("registration"));

    // Step 1: tx must be in storage as ToDispatch before any tick.
    let stored = w.record(txid);
    assert_eq!(stored.txid, txid);
    assert_eq!(stored.state, TransactionState::ToDispatch);
    assert_eq!(stored.retry_count, 0);
    assert_eq!(stored.context, ctx("registration"));

    // Step 2: one tick broadcasts the tx → InMempool.
    w.tick();
    let stored = w.record(txid);
    assert_eq!(
        stored.state,
        TransactionState::InMempool,
        "Expected InMempool after dispatch tick; got {:?}",
        stored.state
    );
    assert!(
        stored.broadcast_block_height.is_some(),
        "broadcast_block_height must be set after dispatch"
    );

    assert!(w.news().is_empty());
}

/// Full lifecycle: ToDispatch → InMempool → Confirmed → Finalized → Evicted,
/// with monitor-news assertions at every transition.
///
/// Settings: two confirmations to be final, `max_tracking_confirmations = 1`
/// so the whole sequence completes in 3 blocks.
#[test]
fn test_full_lifecycle() {
    let settings = BitcoinSettings {
        storage: CoordinatorStorageSettings { max_tracking_confirmations: 1 },
        ..Default::default()
    };
    let mut w = World::with(settings, 2);

    let tx = w.node.signed_tx_to_dispatch();
    let txid = tx.compute_txid();

    w.tick_until_ready();

    w.dispatch_without_speedup(tx, ctx("lifecycle"), None, Some(1), None);

    // ── ToDispatch → InMempool ────────────────────────────────────────────────
    w.tick();
    assert_eq!(
        w.state(txid),
        Some(TransactionState::InMempool),
        "tx must be InMempool after dispatch tick"
    );

    // ── InMempool → Confirmed (1 block) ──────────────────────────────────────
    w.node.mine(1);
    assert!(
        w.tick_until_state(txid, TransactionState::Confirmed, 10),
        "tx must reach Confirmed after 1 block"
    );

    let news = w.news();
    assert!(
        news.monitor_news.iter().any(|n| w.told[n.index as usize] == txid
            && n.transaction_context == Some(ctx("lifecycle"))),
        "expected Confirmed monitor news; got {:?}",
        news.monitor_news
    );
    assert!(news.coordinator_news.is_empty(), "no coordinator news expected at Confirmed");
    w.ack_all(news);

    // ── Confirmed → Finalized (2nd block) ──
    w.node.mine(1);
    assert!(
        w.tick_until_state(txid, TransactionState::Finalized, 10),
        "tx must reach Finalized after 2 confirmations"
    );

    // ── Finalized → Evicted (1 more block, max_tracking_confirmations = 1) ───
    w.node.mine(1);
    let mut evicted = false;
    for _ in 0..10 {
        w.tick();
        let news = w.news();
        if news.coordinator_news.iter().any(
            |n| matches!(n, CoordinatorNews::TransactionEvicted { txid: id, .. } if *id == txid),
        ) {
            evicted = true;
            w.ack_all(news);
            break;
        }
        w.ack_all(news);
    }
    assert!(
        evicted,
        "TransactionEvicted news must fire after max_tracking_confirmations blocks"
    );
    assert!(w.state(txid).is_none(), "tx must be removed from storage after eviction");
}

/// A transaction registered with a future `target_block_height` is not
/// dispatched until the chain reaches that height.
#[test]
fn test_height_delays_dispatch() {
    let mut w = World::new();

    let tx = w.node.signed_tx_to_dispatch();
    let txid = tx.compute_txid();
    w.tick_until_ready();

    let current_height = w.node.height();
    let target_height = current_height + 4;

    w.dispatch_without_speedup(tx, ctx("delayed_dispatch"), Some(target_height), None, None);

    // Ticking now must not dispatch because we are below the target.
    w.tick();
    assert_eq!(
        w.state(txid),
        Some(TransactionState::ToDispatch),
        "tx must stay ToDispatch while below target_block_height"
    );

    // Mine one block at a time; the tx must stay ToDispatch for blocks 1–3
    // and only enter InMempool once the 4th block reaches target_height.
    for i in 1..=4 {
        w.node.mine(1);
        w.tick_until_ready();
        w.tick();

        if i < 4 {
            assert_eq!(
                w.state(txid),
                Some(TransactionState::ToDispatch),
                "tx must stay ToDispatch after mining block {} (target not yet reached)",
                i
            );
        } else {
            assert_eq!(
                w.state(txid),
                Some(TransactionState::InMempool),
                "tx must be InMempool after mining block {} (target_height reached)",
                i
            );
        }
    }

    assert!(w.news().is_empty());
}

/// Registering multiple transactions and ticking once dispatches all of them
/// in a single pass.  Each independently transitions to `InMempool`.
#[test]
fn test_multiple_txs_dispatched_in_single_tick() {
    let mut w = World::new();

    // Create three independent signed transactions.
    let tx1 = w.node.signed_tx_to_dispatch();
    let tx2 = w.node.signed_tx_to_dispatch();
    let tx3 = w.node.signed_tx_to_dispatch();
    let ids = [tx1.compute_txid(), tx2.compute_txid(), tx3.compute_txid()];

    w.tick_until_ready();

    for tx in [tx1, tx2, tx3] {
        w.dispatch_without_speedup(tx, ctx("batch"), None, None, None);
    }

    // A single tick should dispatch all three.
    w.tick();

    for txid in ids {
        assert_eq!(
            w.state(txid),
            Some(TransactionState::InMempool),
            "tx {:?} should be InMempool after batch dispatch",
            txid
        );
    }

    assert!(w.news().is_empty());
}

/// Trying to dispatch a parent and its child in the same tick makes the dispatcher defer the child
/// to a later tick, where the parent is now in mempool and the child broadcasts.
#[test]
fn test_dispatch_parent_then_child_across_ticks() {
    let mut w = World::new();

    let (parent, child) = w.node.parent_and_child();
    let parent_id = parent.compute_txid();
    let child_id = child.compute_txid();

    w.tick_until_ready();

    w.dispatch_without_speedup(parent, ctx("parent"), None, None, None);
    w.dispatch_without_speedup(child, ctx("child"), None, None, None);

    // Tick 1: parent broadcasts; child is deferred (parent not yet seen by the monitor).
    w.tick();
    assert_eq!(
        w.state(parent_id),
        Some(TransactionState::InMempool),
        "parent must be InMempool after first tick"
    );
    assert_eq!(
        w.state(child_id),
        Some(TransactionState::ToDispatch),
        "child must remain ToDispatch until the monitor sees the parent"
    );

    // Subsequent ticks: child broadcasts once parents_ready passes.
    assert!(
        w.tick_until_state(child_id, TransactionState::InMempool, 5),
        "child must reach InMempool after the parent becomes observable"
    );

    assert!(w.news().is_empty());
}

/// Exercises `add_funding`'s validation across all three observable outcomes in a single end-to-end scenario:
///   1. A valid UTXO (above `min_funding_amount_sats`) is accepted with no news.
///   2. A second UTXO below the minimum is rejected and emits exactly one `InvalidFundingUtxo` news item.
///   3. A valid UTXO added after the invalid one is still accepted with no news
#[test]
fn test_add_funding_validation() {
    let mut w = World::new();
    w.tick_until_ready();

    // 1. Valid UTXO (default minimum is 10 000 sats; 20 000 is above it).
    let first_utxo = w.node.funding_utxo(20_000);
    w.coordinator.add_funding(first_utxo);
    assert!(
        w.news().coordinator_news.is_empty(),
        "no news must fire when a valid funding UTXO is added"
    );

    // 2. Below-minimum UTXO rejected, news emitted.
    let small = w.node.funding_utxo(9_999);
    w.coordinator.add_funding(small);
    let news = w.news();
    assert_eq!(
        news.coordinator_news.len(),
        1,
        "exactly one InvalidFundingUtxo news must fire; got {:?}",
        news.coordinator_news
    );
    assert!(
        matches!(
            &news.coordinator_news[0],
            CoordinatorNews::InvalidFundingUtxo { amount, min_required }
            if *amount == 9_999 && *min_required == 10_000
        ),
        "unexpected news payload: {:?}",
        news.coordinator_news[0]
    );

    // 3. Valid UTXO after invalid one is still accepted with no news.
    let third_utxo = w.node.funding_utxo(50_000);
    w.coordinator.add_funding(third_utxo);
    assert!(
        w.news().coordinator_news.is_empty(),
        "no news must fire when a valid funding UTXO is added, even after a previous invalid one"
    );

    let fundings = w.storage().read_funding_records();
    assert_eq!(
        fundings.len(),
        2,
        "both valid UTXOs must be present in storage; got {:?}",
        fundings
    );
    assert_eq!(
        fundings[0].get_funding_info().unwrap().0,
        first_utxo,
        "first valid UTXO must be in storage"
    );
    assert_eq!(
        fundings[1].get_funding_info().unwrap().0,
        third_utxo,
        "second valid UTXO must be in storage"
    );
}

/// Cancelling a transaction that has not yet been dispatched removes it from
/// coordinator storage entirely.  Subsequent ticks do not dispatch it.
#[test]
fn test_cancel_pending_tx_before_dispatch() {
    let mut w = World::new();
    w.tick_until_ready();

    let tx = dummy_tx();
    let txid = tx.compute_txid();

    w.dispatch_without_speedup(tx, ctx("cancel_test"), None, None, None);

    // Verify it is registered.
    assert!(w.state(txid).is_some());
    assert!(w.watched.iter().any(|e| e.0 == txid));

    // Cancel before any dispatch tick.
    w.cancel(&[txid], ctx("cancel_test"));

    // Tx must no longer be in storage.
    assert!(w.state(txid).is_none(), "tx must be gone from storage after cancel");
    assert!(!w.watched.iter().any(|e| e.0 == txid));

    // Ticking must not produce any dispatch errors for this tx.
    w.tick();

    assert!(w.news().is_empty());
}

/// Full news lifecycle: coordinator news is produced, retrievable, and
/// accurately removed after acknowledgement.
#[test]
fn test_news_ack() {
    let mut w = World::new();
    w.tick_until_ready();

    // Add a UTXO below the minimum to generate InvalidFundingUtxo news.
    let small = w.node.funding_utxo(500);
    w.coordinator.add_funding(small); // min is 10 000

    let news = w.news();
    assert_eq!(
        news.coordinator_news.len(),
        1,
        "Expected exactly one coordinator news item; got {:?}",
        news.coordinator_news
    );

    let news_item = news.coordinator_news[0].clone();
    assert!(
        matches!(news_item, CoordinatorNews::InvalidFundingUtxo { .. }),
        "Expected InvalidFundingUtxo; got {:?}",
        news_item
    );

    // Acknowledge the news item.
    w.ack(AckNews::Coordinator(news_item));

    // After ack the coordinator news list must be empty.
    let news_after_ack = w.news();
    assert!(
        news_after_ack.coordinator_news.is_empty(),
        "Coordinator news must be empty after ack; got {:?}",
        news_after_ack.coordinator_news
    );
}

/// Dispatching a transaction that is already in the mempool is treated as a
/// success.  The coordinator sets the state to `InMempool` without generating
/// any error news.
#[test]
fn test_dispatch_already_in_mempool() {
    let mut w = World::new();
    w.tick_until_ready();

    let tx = w.node.signed_tx_to_dispatch();
    let txid = tx.compute_txid();

    // Put the tx directly into the mempool before the coordinator dispatches it.
    w.node.send(&tx).unwrap();

    // Now register the same tx with the coordinator.
    w.dispatch_without_speedup(tx, ctx("already_known"), None, None, None);

    // The coordinator tries to broadcast → node returns "already in mempool" →
    // treated as success → InMempool.
    w.tick();

    assert_eq!(
        w.state(txid),
        Some(TransactionState::InMempool),
        "a transaction that the node has must be treated as a successful dispatch"
    );

    assert!(w.news().is_empty());
}

/// Dispatching a structurally invalid (empty) transaction results in a
/// `Fatal` dispatch outcome.  The coordinator marks the tx as `Failed` and
/// generates a `DispatchError` coordinator news item.
#[test]
fn test_dispatch_invalid_empty_tx() {
    // One retry means the first failure marks the tx Failed immediately.
    let settings = BitcoinSettings {
        coordinator: CoordinatorSettings { retry_attempts_sending_tx: 1, retry_interval_seconds: 5 },
        ..BitcoinSettings::default()
    };
    let mut w = World::with(settings, 6);
    w.tick_until_ready();

    let tx = dummy_tx();
    let txid = tx.compute_txid();

    w.dispatch_without_speedup(tx, ctx("bad_tx"), None, None, None);

    // Tick: the coordinator attempts to broadcast the empty tx.
    w.tick();

    assert_eq!(
        w.state(txid),
        Some(TransactionState::Failed),
        "Invalid tx must be Failed after one dispatch attempt"
    );

    let news = w.news();
    assert_eq!(
        news.coordinator_news.len(),
        1,
        "Expected exactly one DispatchError news; got {:?}",
        news.coordinator_news
    );
    assert!(
        matches!(
            &news.coordinator_news[0],
            CoordinatorNews::DispatchError { txid: id, .. } if *id == txid
        ),
        "Expected DispatchError news; got {:?}",
        news.coordinator_news
    );
}

/// When one valid and one invalid transaction are registered and the
/// coordinator ticks, they fail independently: the valid one reaches
/// `InMempool` while the invalid one reaches `Failed` with a `DispatchError`
/// news item.  The system remains consistent and the valid tx is unaffected.
#[test]
fn test_valid_and_invalid_tx() {
    let mut w = World::new();

    let valid_tx = w.node.signed_tx_to_dispatch();
    let invalid_tx = dummy_tx();
    let valid_txid = valid_tx.compute_txid();
    let invalid_txid = invalid_tx.compute_txid();

    w.tick_until_ready();

    w.dispatch_without_speedup(valid_tx, ctx("valid"), None, None, None);
    w.dispatch_without_speedup(invalid_tx, ctx("invalid"), None, None, None);

    w.tick();

    assert_eq!(
        w.state(valid_txid),
        Some(TransactionState::InMempool),
        "valid tx should be InMempool"
    );
    assert_eq!(
        w.state(invalid_txid),
        Some(TransactionState::Failed),
        "invalid tx should be Failed"
    );

    let news = w.news();
    assert_eq!(
        news.coordinator_news.len(),
        1,
        "Expected exactly one coordinator news for the invalid tx; got {:?}",
        news.coordinator_news
    );
    assert!(
        matches!(
            &news.coordinator_news[0],
            CoordinatorNews::DispatchError { txid, .. } if *txid == invalid_txid
        ),
        "Expected DispatchError news for the invalid tx; got {:?}",
        news.coordinator_news[0]
    );
}

/// Cancel rejection contract: only `Normal` / `NeedsSpeedup` in `ToDispatch` are
/// cancellable. Everything else (post-dispatch, unknown txid, `Funding`-kind) is
/// refused with an `InvalidCancel` news entry and storage is left untouched.
#[test]
fn test_cancel_dispatched_tx_refused() {
    let mut w = World::new();

    let tx = w.node.signed_tx_to_dispatch();
    let txid = tx.compute_txid();
    let funding = w.node.funding_utxo(50_000);
    let funding_txid = funding.txid;
    let unknown_txid = Txid { bytes: [0x77; 32] };

    w.tick_until_ready();
    w.coordinator.add_funding(funding);
    w.dispatch_without_speedup(tx, ctx("cancel_after_dispatch"), None, None, None);

    // Dispatch (Normal tx → InMempool).
    w.tick();
    assert_eq!(
        w.state(txid),
        Some(TransactionState::InMempool),
        "tx must be InMempool before cancel"
    );

    // Batch cancel mixing all three rejection causes:
    //   - txid:           Normal in InMempool → refused (state).
    //   - unknown_txid:   never registered    → refused (not found).
    //   - funding_txid:   Funding-kind        → refused (kind).
    w.cancel(&[txid, unknown_txid, funding_txid], ctx("cancel_after_dispatch"));

    // All three records (the present ones) must remain in storage.
    assert!(
        w.state(txid).is_some(),
        "dispatched tx must REMAIN in storage after cancel was refused"
    );
    assert!(
        w.state(funding_txid).is_some(),
        "Funding-kind record must REMAIN in storage after cancel was refused"
    );

    // One InvalidCancel news per refused entry.
    let news = w.news();
    let rejected: Vec<(Txid, String)> = news
        .coordinator_news
        .iter()
        .filter_map(|n| match n {
            CoordinatorNews::InvalidCancel { txid, reason } => Some((*txid, reason.clone())),
            _ => None,
        })
        .collect();
    assert_eq!(
        rejected,
        vec![
            (
                txid,
                "tx already dispatched (state=InMempool); cancel is only valid in ToDispatch"
                    .to_string()
            ),
            (unknown_txid, "tx not found in coordinator storage".to_string()),
            (
                funding_txid,
                "tx kind Funding is not cancellable (only Normal / NeedsSpeedup)".to_string()
            ),
        ]
    );
}

/// When multiple coordinator news items are present, `ack_news` removes only
/// the acknowledged item and leaves the rest untouched.
#[test]
fn test_selective_ack() {
    let mut w = World::new();
    w.tick_until_ready();

    // Produce one InvalidFundingUtxo news item.
    w.coordinator.add_funding(Utxo::new(Txid { bytes: [9; 32] }, 0, 1_000, &key()));

    // Produce one DispatchError news item.
    let tx = dummy_tx();
    let txid = tx.compute_txid();
    w.dispatch_without_speedup(tx, ctx("multi_news"), None, None, None);
    w.tick();

    let news = w.news();
    assert_eq!(
        news.coordinator_news.len(),
        2,
        "Expected 2 coordinator news items (funding + dispatch error); got {:?}",
        news.coordinator_news
    );

    // Identify the DispatchError item.
    let dispatch_err = news
        .coordinator_news
        .iter()
        .find(|n| matches!(n, CoordinatorNews::DispatchError { txid: id, .. } if *id == txid))
        .cloned()
        .expect("DispatchError news must be present");

    // Acknowledge only the DispatchError.
    w.ack(AckNews::Coordinator(dispatch_err));

    // Advance to a new block so unacknowledged items become visible again.
    w.node.mine(1);
    w.tick();

    // Only the InvalidFundingUtxo must remain.
    let remaining = w.news().coordinator_news;
    assert_eq!(
        remaining.len(),
        1,
        "One news item must remain after selective ack; got {:?}",
        remaining
    );
    assert!(
        matches!(remaining[0], CoordinatorNews::InvalidFundingUtxo { .. }),
        "Remaining item must be InvalidFundingUtxo; got {:?}",
        remaining[0]
    );
}

/// Registering multiple transactions and then querying storage directly
/// confirms that each transaction's metadata (context, state, fee_info) is
/// persisted correctly and independently.
#[test]
fn test_tx_metadata_persisted() {
    let mut w = World::with(BitcoinSettings::default(), 3);
    w.tick_until_ready();

    // Use a real signed tx so the two txids are distinct.
    let tx1 = w.node.signed_tx_to_dispatch();
    let tx2 = dummy_tx();

    // Compute txids before moving the transactions.
    let txid1 = tx1.compute_txid();
    let txid2 = tx2.compute_txid();

    assert_ne!(txid1, txid2, "tx1 (real) and tx2 (dummy) must have distinct txids");

    w.dispatch_without_speedup(tx1, ctx("meta_tx1"), None, Some(2), Some(5));
    w.dispatch_without_speedup(tx2, ctx("meta_tx2"), None, None, None);

    let stored1 = w.record(txid1);
    assert_eq!(stored1.context, ctx("meta_tx1"));
    assert_eq!(stored1.confirmation_trigger, Some(2));
    assert_eq!(stored1.stuck_in_mempool_blocks, Some(5));
    assert_eq!(stored1.state, TransactionState::ToDispatch);

    let stored2 = w.record(txid2);
    assert_eq!(stored2.context, ctx("meta_tx2"));
    assert_eq!(stored2.confirmation_trigger, None);
    assert_eq!(stored2.stuck_in_mempool_blocks, None);
    assert_eq!(stored2.state, TransactionState::ToDispatch);
}

/// Verifies that the coordinator handles being re-created from existing
/// storage (simulating a restart) without losing previously registered
/// transactions.
#[test]
fn test_coordinator_restart() {
    let mut w = World::new();
    let valid_tx = w.node.signed_tx_to_dispatch();
    let txid = valid_tx.compute_txid();

    // ── First coordinator instance ────────────────────────────────────────
    w.tick_until_ready();
    w.dispatch_without_speedup(valid_tx, ctx("restart_test"), None, None, None);
    assert_eq!(w.state(txid), Some(TransactionState::ToDispatch));
    // Do not tick – the tx was never dispatched.
    let saved = (
        w.storage().get_all_txs(),
        w.storage().news_items(),
        w.storage().speedup_txids(),
        w.storage().pending_txids(),
        w.storage().funding_entries(),
    );

    // ── Second coordinator instance from the same storage ─────────────────
    let settings = BitcoinSettings::default();
    let storage = CoordinatorStorage::restore(
        settings.storage,
        saved.0,
        saved.1,
        saved.2,
        saved.3,
        saved.4,
    );
    w.coordinator =
        BitcoinCoordinator::new_with_paths(Some(settings), true, storage, w.max_confirmations)
            .unwrap();

    // The tx must still be in storage from the previous instance.
    assert_eq!(
        w.state(txid),
        Some(TransactionState::ToDispatch),
        "tx must survive a coordinator restart"
    );

    // Dispatch on the new coordinator.
    w.tick();

    assert_eq!(
        w.state(txid),
        Some(TransactionState::InMempool),
        "tx must be dispatched by the restarted coordinator"
    );
}

/// A transaction that stays in the mempool for more than `stuck_in_mempool_blocks`
/// blocks emits a `TransactionStuckInMempool` news item.
#[test]
fn test_stuck_in_mempool_news() {
    let mut w = World::new();
    w.tick_until_ready();

    let tx = w.node.signed_tx_to_dispatch();
    let txid = tx.compute_txid();

    w.dispatch_without_speedup(tx, ctx("stuck"), None, None, Some(1));
    w.tick(); // dispatches → InMempool

    assert_eq!(w.state(txid), Some(TransactionState::InMempool));

    // Set broadcast_block_height = 0 so the current chain height always exceeds
    // the stuck threshold of 1 block without needing to mine extra blocks.
    let mut record = w.record(txid);
    record.broadcast_block_height = Some(0);
    w.storage_mut().update_tx(&record);

    w.tick();

    let news = w.news();
    assert!(
        news.coordinator_news.iter().any(|n| {
            matches!(n, CoordinatorNews::TransactionStuckInMempool { txid: id, .. } if *id == txid)
        }),
        "expected TransactionStuckInMempool news; got {:?}",
        news.coordinator_news
    );
}

/// A stuck transaction can be unblocked by dispatching a CPFP via
/// `dispatch_without_speedup`. The coordinator tracks both independently,
/// dispatches them in topological order, and both reach `Confirmed` once a
/// block is mined.
#[test]
fn test_stuck_in_mempool_cpfp_resolution() {
    let mut w = World::new();
    w.tick_until_ready();

    // Parent (will be stuck) + CPFP spending parent:0.
    let (parent_tx, cpfp_tx) = w.node.parent_and_child();
    let parent_txid = parent_tx.compute_txid();
    let cpfp_txid = cpfp_tx.compute_txid();

    w.dispatch_without_speedup(parent_tx, ctx("stuck_parent"), None, None, Some(1));
    w.tick(); // dispatches → InMempool

    assert_eq!(w.state(parent_txid), Some(TransactionState::InMempool));

    // Force stuck: set broadcast_block_height to 0 so the threshold of 1 block
    // is always exceeded without needing to mine extra blocks.
    let mut record = w.record(parent_txid);
    record.broadcast_block_height = Some(0);
    w.storage_mut().update_tx(&record);

    w.tick();

    let news = w.news();
    assert!(
        news.coordinator_news.iter().any(|n| {
            matches!(n, CoordinatorNews::TransactionStuckInMempool { txid: id, .. } if *id == parent_txid)
        }),
        "expected TransactionStuckInMempool before CPFP; got {:?}",
        news.coordinator_news
    );

    // Another tick without the CPFP should not change anything.
    assert!(
        !w.tick_until_state(parent_txid, TransactionState::Confirmed, 5),
        "parent should not reach Confirmed without CPFP resolution"
    );

    // Dispatch the CPFP spending parent:0. Both are now ToDispatch / InMempool.
    w.dispatch_without_speedup(cpfp_tx, ctx("cpfp"), None, None, None);
    w.tick(); // dispatches CPFP → InMempool

    assert_eq!(
        w.state(cpfp_txid),
        Some(TransactionState::InMempool),
        "CPFP must reach InMempool after dispatch"
    );

    // Mine one block: parent + CPFP confirm together.
    w.node.mine(1);

    assert!(
        w.tick_until_all_states(&[parent_txid, cpfp_txid], TransactionState::Confirmed, 5),
        "both parent and CPFP must reach Confirmed"
    );
}

/// A transaction in retry state is not dispatched until `retry_interval_seconds`
/// has elapsed since the last retry batch.
#[test]
fn test_retry_dispatches_after_rate_limit() {
    let retry_interval_seconds = 5u64;

    let settings = BitcoinSettings {
        coordinator: CoordinatorSettings {
            retry_interval_seconds,
            ..CoordinatorSettings::default()
        },
        ..Default::default()
    };
    let mut w = World::with(settings, 6);
    w.tick_until_ready();

    // --- Prime last_retry_at ---
    // Dispatch tx_prime, mark it as retry, then tick.  Because last_retry_at is
    // None the first retry is always allowed → tx_prime reaches InMempool and
    // last_retry_at is recorded as "now".
    let tx_prime = w.node.signed_tx_to_dispatch();
    let txid_prime = tx_prime.compute_txid();
    w.dispatch_without_speedup(tx_prime, ctx("prime"), None, None, None);
    w.storage_mut().mark_as_retry(txid_prime);
    w.tick();
    assert_eq!(
        w.state(txid_prime),
        Some(TransactionState::InMempool),
        "tx_prime must be InMempool after the priming tick"
    );

    // --- Subject under test ---
    // tx_subject is placed in retry state right after the priming tick, so
    // the rate-limiter window is active.
    let tx_subject = w.node.signed_tx_to_dispatch();
    let txid_subject = tx_subject.compute_txid();
    w.dispatch_without_speedup(tx_subject, ctx("subject"), None, None, None);
    w.storage_mut().mark_as_retry(txid_subject);

    // Ticks 1 and 2 must be blocked. The interval has not elapsed yet.
    for tick in 1..=2 {
        w.tick();
        assert_eq!(
            w.state(txid_subject),
            Some(TransactionState::ToDispatch),
            "tx_subject must still be ToDispatch on tick {} (rate-limited)",
            tick
        );
    }

    // Tick 3: After the interval, must dispatch successfully.
    w.sleep_ms((retry_interval_seconds + 1) * 1000);
    w.tick();
    assert_eq!(
        w.state(txid_subject),
        Some(TransactionState::InMempool),
        "tx_subject must be InMempool after the retry interval has elapsed"
    );

    assert!(w.news().coordinator_news.is_empty());
}

/// Each time a transaction fails with a retryable error the coordinator calls
/// `mark_as_retry`, which increments `retry_count`.  Once `retry_count + 1`
/// reaches `retry_attempts_sending_tx` the transaction is permanently marked
/// `Failed` and a `DispatchError` news item is stored.
#[test]
fn test_retry_failure() {
    // Long enough that consecutive ticks are reliably below the rate-limit window.
    let retry_interval_seconds = 8u64;

    let settings = BitcoinSettings {
        coordinator: CoordinatorSettings { retry_interval_seconds, retry_attempts_sending_tx: 3 },
        ..Default::default()
    };
    let mut w = World::with(settings, 6);
    // 2 sat/vbyte. Zero-fee tx will fail
    w.node.min_relay_rate = 2;
    w.tick_until_ready();

    let tx = w.node.signed_tx(1_000_000, 0);
    let txid = tx.compute_txid();
    w.tick_until_ready();
    w.dispatch_without_speedup(tx, ctx("retry_inc"), None, None, None);

    // Tick 1: first dispatch attempt (retry_count = 0, not rate-limited).
    // The tx fails → mark_as_retry → retry_count = 1.
    w.tick();
    let stored = w.record(txid);
    assert_eq!(stored.retry_count, 1, "retry_count must be 1 after first failure");
    assert_eq!(stored.state, TransactionState::ToDispatch);

    // Tick 2 immediately: `last_retry_at` is still None so the first retry is
    // allowed.  The tx fails again → mark_as_retry → retry_count = 2.
    // `last_retry_at` is now set.
    w.tick();
    let stored = w.record(txid);
    assert_eq!(stored.retry_count, 2, "retry_count must be 2 after second failure");
    assert_eq!(stored.state, TransactionState::ToDispatch);

    // Tick 3 immediately: rate-limiter blocks the retry (interval not elapsed).
    w.tick();
    let stored = w.record(txid);
    assert_eq!(stored.retry_count, 2, "retry_count must not change while rate-limited");
    assert_eq!(stored.state, TransactionState::ToDispatch);
    assert!(
        w.news().coordinator_news.is_empty(),
        "No news should be generated while rate-limited"
    );

    // Wait for the retry interval, then tick.  Third attempt: retry_count + 1 = 3
    // >= retry_attempts_sending_tx (3) → tx is marked Failed + DispatchError news.
    w.sleep_ms((retry_interval_seconds + 5) * 1000);
    w.tick();
    assert_eq!(
        w.state(txid),
        Some(TransactionState::Failed),
        "tx must be Failed after exhausting all retry attempts"
    );

    let news = w.news();
    assert!(
        news.coordinator_news
            .iter()
            .any(|n| matches!(n, CoordinatorNews::DispatchError { txid: id, .. } if *id == txid)),
        "DispatchError news must be present after retry exhaustion; got {:?}",
        news.coordinator_news
    );
}

/// Reorg-flap fail guard: input-consumed deferral and recovery:
///   - T (our tx) and T' (a competing spend) both spend the same coin U.
///   - T is dispatched and sits in the mempool, never mined.
///   - A competing block carrying T' is mined: U is now spent by T' and T is evicted from the mempool.
///     The coordinator re-dispatches T; the node rejects it.
///   - The guard keeps T `ToDispatch` and defers the `Failed` verdict for a number of blocks. The deferral
///     is block-based, not retry-budget-based: T stays alive, never Failed.
///   - The competing block is invalidated. U is free again; the next re-dispatch of T succeeds and T
///     returns to InMempool → Confirmed, guard disarmed.
#[test]
fn test_double_reorg_input_consumed() {
    let settings = BitcoinSettings {
        coordinator: CoordinatorSettings {
            retry_interval_seconds: 1,
            retry_attempts_sending_tx: 2, // tiny budget: would fail fast if guard were budget-based
        },
        ..Default::default()
    };
    let mut w = World::with(settings, 3); // guard window = 3 blocks
    w.tick_until_ready();

    // T and T' both spend the same confirmed coin U.
    let t = w.node.signed_tx_to_dispatch();
    let t_prime = w.node.conflict(&t, 1_000);
    let txid = t.compute_txid();

    // Dispatch T to the mempool.
    w.dispatch_without_speedup(t, ctx("flap"), None, None, None);
    assert!(
        w.tick_until_state(txid, TransactionState::InMempool, 5),
        "T must reach InMempool after dispatch"
    );
    w.ack_everything();

    // Competing confirm: mine a block carrying T' (U now spent by T'); T is evicted.
    let block_with_t_prime = w.node.mine_with(&t_prime);

    // The coordinator must observe T as not_found and re-queue it to ToDispatch (which arms the fail guard).
    assert!(
        w.tick_until_state(txid, TransactionState::ToDispatch, 12),
        "T must be re-queued to ToDispatch after T' confirmed and made it not_found"
    );
    let stored = w.record(txid);
    assert!(
        stored.fail_guard_until.is_some(),
        "fail guard must be armed once T goes not_found; got {:?}",
        stored.fail_guard_until
    );

    // Tick past the retry budget, but T must remain ToDispatch.
    for round in 0..4 {
        w.sleep_ms(1200); // force re-dispatch past the rate limit
        w.tick();
        let stored = w.record(txid);
        assert_ne!(
            stored.state,
            TransactionState::Failed,
            "T must NOT be Failed while inside the block guard window (round {}, state {:?})",
            round,
            stored.state
        );
        assert!(
            stored.fail_guard_until.is_some(),
            "fail guard must remain armed during the hold (round {})",
            round
        );
    }

    // Revert: invalidate the competing block. U is free again; T is valid.
    w.node.invalidate(block_with_t_prime);

    // Let the retry interval elapse, then the next re-dispatch of T must succeed and bring it back to
    // InMempool, with the guard disarmed.
    w.sleep_ms(2_000);
    assert!(
        w.tick_until_state(txid, TransactionState::InMempool, 12),
        "T must recover to InMempool after the reorg reverted"
    );
    let stored = w.record(txid);
    assert_eq!(stored.state, TransactionState::InMempool, "T must be live again, not Failed");
    assert!(
        stored.fail_guard_until.is_none(),
        "fail guard must be disarmed once T is accepted again; got {:?}",
        stored.fail_guard_until
    );

    // And it confirms normally afterwards.
    w.node.mine(1);
    assert!(
        w.tick_until_state(txid, TransactionState::Confirmed, 8),
        "recovered T must confirm on the surviving chain"
    );
}

// =============================================================================
// Speedups
// =============================================================================

/// Two confirmations are final with these settings; a second boost replaces, and a boost is due after
/// one block.
fn cpfp_settings() -> BitcoinSettings {
    BitcoinSettings {
        storage: CoordinatorStorageSettings { max_tracking_confirmations: 1 },
        speedup: SpeedupSettings {
            max_unconfirmed_speedups: 2,
            min_blocks_before_resend_speedup: 1,
            bump_fee_percentage: multiplier(1.5),
            ..SpeedupSettings::default()
        },
        coordinator: CoordinatorSettings { retry_interval_seconds: 1, retry_attempts_sending_tx: 3 },
        ..Default::default()
    }
}

/// Settings for tests that need more than 2 unconfirmed CPFP slots.
fn boost_settings(max_unconfirmed: u32) -> BitcoinSettings {
    let mut s = cpfp_settings();
    s.speedup.max_unconfirmed_speedups = max_unconfirmed;
    s.speedup.bump_fee_percentage = multiplier(2.0);
    s
}

fn fee_settings(min_safe: u64, max: u64, base: f64) -> FeeSettings {
    FeeSettings {
        min_safe_fee_rate: min_safe,
        max_feerate_sat_vb: max,
        base_fee_multiplier: multiplier(base),
    }
}

/// Settings that inflate the CPFP fee so a 10 000-sat funding can't cover it.
fn multi_funding_settings() -> BitcoinSettings {
    BitcoinSettings { fee: fee_settings(80, 1000, 1.0), ..cpfp_settings() }
}

/// Settings with an aggressive bump and a moderate maximal rate, so the cap is reached within a few
/// boosts.
fn cap_settings() -> BitcoinSettings {
    let mut s = boost_settings(5);
    s.fee = fee_settings(10, 100, 1.0);
    s
}

/// `cpfp_settings` with a chosen unconfirmed-slot count, which drives whether a boost is a CPFP child
/// (slots free) or an RBF replacement (slots full).
fn rebuild_settings(max_unconfirmed: u32) -> BitcoinSettings {
    let mut s = cpfp_settings();
    s.speedup.max_unconfirmed_speedups = max_unconfirmed;
    s
}

/// Drives a world until the root CPFP of a dead parent has failed and the surviving parent has a CPFP of
/// its own that confirms; returns that CPFP.
fn drive_dead_parent_recovery(
    w: &mut World,
    root_cpfp_txid: Txid,
    dead_parent: Txid,
    survivor_parent: Txid,
) -> Txid {
    let max_confs = w.max_confirmations as usize;
    let sleep = w.coordinator.ctx.coordinator_config.retry_interval_seconds * 1000 + 300;

    let mut saw_speedup_err = false;
    let mut survivor_cpfp = None;
    for _ in 0..(max_confs + 2) * 8 {
        w.sleep_ms(sleep);
        w.tick();
        let news = w.news();
        for n in &news.coordinator_news {
            if matches!(n, CoordinatorNews::SpeedupDispatchError { txid, .. } if *txid == root_cpfp_txid)
            {
                saw_speedup_err = true;
            }
        }
        w.ack_all(news);

        if survivor_cpfp.is_none() {
            for s in w.speedups() {
                if s.txid == root_cpfp_txid {
                    continue;
                }
                let parents = s.speedup_kind().unwrap().parents();
                if parents.contains(&survivor_parent) && !parents.contains(&dead_parent) {
                    survivor_cpfp = Some(s.txid);
                }
            }
        }
        let root_failed = w.state(root_cpfp_txid) == Some(TransactionState::Failed);
        if survivor_cpfp.is_some() && root_failed {
            break;
        }
        w.node.mine_empty(1);
    }

    assert!(saw_speedup_err, "a SpeedupDispatchError must fire for the failed root CPFP");
    assert_eq!(
        w.state(root_cpfp_txid),
        Some(TransactionState::Failed),
        "root CPFP must settle Failed on the dead parent",
    );
    let survivor_cpfp =
        survivor_cpfp.expect("a fresh CPFP over the surviving parent must be built");

    // Confirm the survivor CPFP and its parent with real blocks.
    let mut confirmed = false;
    for _ in 0..max_confs + 10 {
        w.node.mine(1);
        w.tick();
        w.ack_everything();
        let ok = |st: Option<TransactionState>| {
            matches!(st, Some(TransactionState::Confirmed) | Some(TransactionState::Finalized))
        };
        if ok(w.state(survivor_cpfp)) && ok(w.state(survivor_parent)) {
            confirmed = true;
            break;
        }
    }
    assert!(confirmed, "the surviving parent and its fresh CPFP must confirm");
    survivor_cpfp
}

/// Full CPFP lifecycle: parent registers with speedup → both parent and CPFP
/// progress through InMempool → Confirmed → Finalized → Evicted in 3 blocks.
#[test]
fn test_cpfp_lifecycle() {
    let mut w = World::with(cpfp_settings(), 2);

    let funding_utxo = w.node.funding_utxo(500_000);
    let funding_txid = funding_utxo.txid;
    let (parent_tx, speedup_data) = w.node.parent_tx(200_000);
    let parent_txid = parent_tx.compute_txid();

    w.tick_until_ready();
    w.coordinator.add_funding(funding_utxo);
    w.dispatch(parent_tx, Some(speedup_data), ctx("lifecycle"));

    // Tick 1: parent → InMempool, CPFP saved as ToDispatch.
    // Tick 2: CPFP → InMempool.
    let cpfp_txid = w.build_and_dispatch_cpfp(3);
    assert_eq!(
        w.state(parent_txid),
        Some(TransactionState::InMempool),
        "parent must be InMempool once the CPFP is dispatched"
    );

    // Block 1: both Confirmed.
    w.node.mine(1);
    assert!(
        w.tick_until_all_states(&[parent_txid, cpfp_txid], TransactionState::Confirmed, 10),
        "parent and CPFP must both reach Confirmed after 1 block"
    );
    w.ack_everything();

    // Block 2: both Finalized. The user funding record is consumed and the CPFP change takes its place
    // in the funding queue.
    w.node.mine(1);
    let mut reached_finalized = false;
    for _ in 0..10 {
        w.tick();
        w.ack_everything();
        if w.state(parent_txid) == Some(TransactionState::Finalized)
            && w.state(cpfp_txid) == Some(TransactionState::Finalized)
        {
            reached_finalized = true;
            break;
        }
    }
    assert!(reached_finalized, "parent and CPFP must both reach Finalized after 2 blocks");
    assert!(
        !w.fundings().iter().any(|r| r.0.txid == funding_txid),
        "user funding UTXO must be consumed and removed from the funding queue"
    );

    // Block 3: parent is eligible for eviction.
    w.node.mine(1);
    let mut parent_evicted = false;
    for _ in 0..10 {
        w.tick();
        let news = w.news();
        for n in &news.coordinator_news {
            if matches!(n, CoordinatorNews::TransactionEvicted { txid: id, .. } if *id == parent_txid)
            {
                parent_evicted = true;
            }
        }
        w.ack_all(news);
        if parent_evicted {
            break;
        }
    }
    assert!(parent_evicted, "TransactionEvicted news must fire for parent");
    assert!(
        w.state(parent_txid).is_none(),
        "parent must be removed from storage after eviction"
    );
    // The CPFP's change output survives as a funding-queue record.
    assert!(
        w.fundings().iter().any(|r| r.0.txid == cpfp_txid && r.2),
        "finalized CPFP's change must remain in the funding queue"
    );
}

/// Two funding UTXOs produced by one transaction (shared txid, different vouts) must both be stored and
/// both be independently consumable.
#[test]
fn test_two_funding_utxos_same_txid_both_consumed() {
    let mut w = World::with(cpfp_settings(), 2);

    // One on-chain tx, two outputs: same txid, different vouts.
    let (u0, u1) = w.node.fund_twice(500_000);
    assert_eq!(u0.txid, u1.txid, "the two funding UTXOs must share a txid");
    assert_ne!(u0.vout, u1.vout, "the two funding UTXOs must differ by vout");

    w.tick_until_ready();
    w.coordinator.add_funding(u0);
    w.coordinator.add_funding(u1);

    // Both must be stored.
    let records = w.fundings();
    assert_eq!(
        records.len(),
        2,
        "both same-txid funding UTXOs must be stored; got {:?}",
        records
    );
    assert!(records.iter().any(|r| r.0 == u0));
    assert!(records.iter().any(|r| r.0 == u1));

    // Both must be independently handed out by the funding queue, one after the other.
    let mgr = FundingManager::new(FundingSettings { min_funding_amount_sats: 10_000 });
    let no_speedups = w.speedups();
    let (first, _) =
        mgr.get_funding(w.storage_mut(), &no_speedups).unwrap().expect("first claim");
    let (second, _) = mgr
        .get_funding(w.storage_mut(), &no_speedups)
        .unwrap()
        .expect("second claim: the sibling same-txid UTXO must be claimable");
    assert!(
        mgr.get_funding(w.storage_mut(), &no_speedups).unwrap().is_none(),
        "exactly two funding UTXOs were available"
    );
    assert_ne!(first, second, "the two claims must be distinct outpoints");
    assert!(first == u0 || second == u0);
    assert!(first == u1 || second == u1);

    // Release the manual reservations so the coordinator can spend them for real.
    mgr.release_marks(w.storage_mut(), &[first, second]);
    for r in w.fundings() {
        assert!(!r.1, "funding must be unspent again after release");
    }

    // End-to-end: a parent + CPFP consumes one of the same-txid UTXOs on-chain.
    let (parent_tx, speedup_data) = w.node.parent_tx(200_000);
    let parent_txid = parent_tx.compute_txid();
    w.tick_until_ready();
    w.dispatch(parent_tx, Some(speedup_data), ctx("same_txid"));

    let cpfp_txid = w.build_and_dispatch_cpfp(3);
    let cpfp = w.record(cpfp_txid);
    let consumed = &cpfp.speedup_kind().unwrap().context().funding_inputs;
    assert_eq!(consumed.len(), 1, "CPFP must fund from a single UTXO");
    assert!(
        consumed[0] == u0 || consumed[0] == u1,
        "CPFP must consume one of the two same-txid funding UTXOs"
    );

    // The other same-txid UTXO must still be present and unspent: not dropped, still usable.
    let sibling = if consumed[0] == u0 { u1 } else { u0 };
    let fundings = w.fundings();
    let sib = fundings
        .iter()
        .find(|r| r.0 == sibling)
        .expect("sibling same-txid funding must still exist");
    assert!(!sib.1, "sibling same-txid funding must remain unspent and available");

    // Drive parent + CPFP to Confirmed to prove the on-chain spend is valid.
    w.node.mine(1);
    assert!(
        w.tick_until_all_states(&[parent_txid, cpfp_txid], TransactionState::Confirmed, 10),
        "parent and CPFP must confirm, proving the same-txid funding was spent on-chain"
    );

    // Once the CPFP is final its change takes the place of what it consumed; the other output stays.
    w.node.mine(1);
    assert!(w.tick_until_state(cpfp_txid, TransactionState::Finalized, 10));
    let left: Vec<(Txid, u32)> = w.fundings().iter().map(|r| (r.0.txid, r.0.vout)).collect();
    assert_eq!(left, vec![(cpfp_txid, 0), (sibling.txid, sibling.vout)]);
}

/// Two parents covered by one CPFP, when dispatched in the same tick.
#[test]
fn test_cpfp_two_parents() {
    let mut w = World::with(cpfp_settings(), 2);

    let funding_utxo = w.node.funding_utxo(1_000_000);
    let (parent_tx1, speedup_data1) = w.node.parent_tx(200_000);
    let (parent_tx2, speedup_data2) = w.node.parent_tx(200_000);
    let parent_txid1 = parent_tx1.compute_txid();
    let parent_txid2 = parent_tx2.compute_txid();

    w.tick_until_ready();
    w.coordinator.add_funding(funding_utxo);
    w.dispatch_with_speedup(parent_tx1, speedup_data1, ctx("batch1"));
    w.dispatch_with_speedup(parent_tx2, speedup_data2, ctx("batch2"));

    // Tick 1: both parents dispatched to InMempool; one CPFP built covering both, saved as ToDispatch.
    let cpfp_txid = w.build_and_dispatch_cpfp(3);

    assert_eq!(
        w.state(parent_txid1),
        Some(TransactionState::InMempool),
        "parent1 must be InMempool"
    );
    assert_eq!(
        w.state(parent_txid2),
        Some(TransactionState::InMempool),
        "parent2 must be InMempool"
    );

    // The CPFP must reference both parents.
    let parents = w.record(cpfp_txid).speedup_kind().unwrap().parents();
    assert_eq!(parents.len(), 2, "the single CPFP must cover both parents; got {:?}", parents);

    let news = w.news();
    assert!(
        news.coordinator_news.is_empty(),
        "no coordinator news expected; got {:?}",
        news.coordinator_news
    );
}

/// Registering a parent with speedup but without calling `add_funding` causes
/// the coordinator to emit `FundingNotAvailable` news on the dispatch tick.
/// The parent reaches InMempool; no CPFP is created.
#[test]
fn test_cpfp_no_funding() {
    let mut w = World::with(cpfp_settings(), 2);
    w.tick_until_ready();

    let (parent_tx, speedup_data) = w.node.parent_tx(200_000);
    let parent_txid = parent_tx.compute_txid();

    // Register without funding.
    w.dispatch_with_speedup(parent_tx, speedup_data, ctx("no_funding"));

    // Tick: parent dispatched → InMempool; CPFP creation finds no funding.
    w.tick();

    assert_eq!(
        w.state(parent_txid),
        Some(TransactionState::InMempool),
        "parent must be InMempool even without funding"
    );

    let news = w.news();
    assert!(
        news.coordinator_news.iter().any(|n| matches!(n, CoordinatorNews::FundingNotAvailable)),
        "Expected FundingNotAvailable news; got {:?}",
        news.coordinator_news
    );
    assert!(w.speedups().is_empty(), "no CPFP must be created when funding is absent");
}

/// Two related fee-cap paths:
/// Phase A, `MaxFeeRateReached` from a fresh CPFP: the bump multiplier pushes the first CPFP's
/// computed fee above the package ceiling, and it is clamped.
/// Phase B, `InsufficientFunds` from a Speedup-derived primary that cannot combine: the change of CPFP1
/// is the only chain tip. A new parent's CPFP build picks that tip as the primary input. The capped fee
/// still exceeds available, and there is nothing to combine.
#[test]
fn test_cpfp_capped_then_insufficient_funding_emit_news() {
    // base_fee_multiplier 2.0 with the rate floored near the cap makes the first CPFP's final fee
    // exceed the package ceiling, so the build clamps and emits MaxFeeRateReached.
    let settings = BitcoinSettings { fee: fee_settings(80, 100, 2.0), ..cpfp_settings() };
    let mut w = World::with(settings, 2);

    // ─── Phase A: fresh CPFP build is capped → MaxFeeRateReached ───────────
    // Funding sized above the package cap so the build succeeds but `capped == true`.
    let funding_a = w.node.funding_utxo(40_000);
    let (parent1_tx, speedup_data1) = w.node.parent_tx(1_000);
    let parent1_txid = parent1_tx.compute_txid();

    w.tick_until_ready();
    w.coordinator.add_funding(funding_a);
    w.dispatch_with_speedup(parent1_tx, speedup_data1, ctx("capped_path"));

    // Drive ticks until CPFP1 is built and reaches InMempool.
    let cpfp1_txid = w.build_and_dispatch_cpfp(5);
    assert!(
        w.tick_until_state(parent1_txid, TransactionState::InMempool, 5),
        "parent1 must reach InMempool"
    );

    let cpfp1 = w.record(cpfp1_txid);
    let max_rate = 100u64;
    // The cap bounds the package rate, so a capped CPFP sits exactly at it. (Its child
    // standalone rate is higher because the child also absorbs the parents' shortfall.)
    assert_eq!(
        cpfp1.fee_info.package_fee_rate, max_rate,
        "capped CPFP's package rate must equal max_feerate_sat_vb; got {}",
        cpfp1.fee_info.package_fee_rate,
    );
    assert!(
        cpfp1.fee_info.fee_rate >= max_rate,
        "capped CPFP's standalone child rate must be >= max; got {}",
        cpfp1.fee_info.fee_rate,
    );

    let news_a = w.news();
    let cap_news: Vec<u64> = news_a
        .coordinator_news
        .iter()
        .filter_map(|n| match n {
            CoordinatorNews::MaxFeeRateReached { txid, effective_fee_rate, .. }
                if *txid == cpfp1_txid =>
            {
                Some(*effective_fee_rate)
            }
            _ => None,
        })
        .collect();
    assert_eq!(
        cap_news,
        vec![max_rate],
        "MaxFeeRateReached must carry the cap-clamped package rate; got {:?}",
        news_a.coordinator_news,
    );

    // Ack everything so Phase B's news assertion is not ambiguous.
    w.ack_all(news_a);

    // ─── Phase B: Speedup-derived primary, nothing to combine → InsufficientFunds ─
    let (parent2_tx, speedup_data2) = w.node.parent_tx(1_000);
    let parent2_txid = parent2_tx.compute_txid();
    w.dispatch_with_speedup(parent2_tx, speedup_data2, ctx("insufficient_path"));

    assert!(
        w.tick_until_state(parent2_txid, TransactionState::InMempool, 10),
        "parent2 must reach InMempool"
    );
    assert_eq!(
        w.speedups().len(),
        1,
        "no second CPFP must be created when the chain tip + combine cannot cover the fee",
    );

    let news_b = w.news();
    let cpfp1_leftover = cpfp1.speedup_kind().unwrap().context().funding_inputs[0]
        .amount
        .saturating_sub(cpfp1.fee_info.fee);
    assert!(
        news_b.coordinator_news.iter().any(|n| matches!(
            n,
            CoordinatorNews::InsufficientFunds { available, required }
                if *available <= cpfp1_leftover && *required > *available,
        )),
        "expected InsufficientFunds with available<=cpfp1_leftover ({}) and required>available; got {:?}",
        cpfp1_leftover,
        news_b.coordinator_news,
    );

    // release_marks must have reset the Speedup-kind chain tip's spent flag.
    assert!(
        !w.record(cpfp1_txid).speedup_kind().unwrap().context().spent,
        "release_marks must reset the Speedup-derived primary's spent flag",
    );
}

/// After one confirming block is invalidated, the coordinator detects the reorg
/// and resets both the parent and its CPFP from Confirmed back to InMempool.
#[test]
fn test_cpfp_reorg() {
    let mut w = World::with(cpfp_settings(), 2);

    let funding_utxo = w.node.funding_utxo(500_000);
    let (parent_tx, speedup_data) = w.node.parent_tx(200_000);
    let parent_txid = parent_tx.compute_txid();

    w.tick_until_ready();
    w.coordinator.add_funding(funding_utxo);
    w.dispatch_with_speedup(parent_tx, speedup_data, ctx("reorg"));

    // Drive parent + CPFP to InMempool.
    let cpfp_txid = w.build_and_dispatch_cpfp(3);

    // Record current height; the next mine will produce height + 1.
    let height_before = w.node.height();

    // Mine 1 block → both Confirmed.
    w.node.mine(1);
    assert!(
        w.tick_until_all_states(&[parent_txid, cpfp_txid], TransactionState::Confirmed, 10),
        "parent and CPFP must both be Confirmed before the reorg"
    );
    w.ack_everything();

    // Reorg: invalidate the confirming block; txs return to the mempool.
    w.node.invalidate(height_before + 1);

    // After ticking, the coordinator must detect the reorg and reset both to InMempool.
    assert!(
        w.tick_until_all_states(&[parent_txid, cpfp_txid], TransactionState::InMempool, 10),
        "parent and CPFP must both be reset to InMempool after reorg"
    );
}

/// Mining an empty block advances the chain without confirming the parent or CPFP. Once height
/// advances far enough, the coordinator builds a boost CPFP and dispatches it on the next tick.
#[test]
fn test_cpfp_boost() {
    let mut w = World::with(cpfp_settings(), 2);

    let funding_utxo = w.node.funding_utxo(1_000_000);
    let (parent_tx, speedup_data) = w.node.parent_tx(200_000);

    w.tick_until_ready();
    w.coordinator.add_funding(funding_utxo);
    w.dispatch_with_speedup(parent_tx, speedup_data, ctx("boost"));

    // CPFP1 saved + dispatched.
    let cpfp1_txid = w.build_and_dispatch_cpfp(3);
    let cpfp1_bump = w.bump(cpfp1_txid);

    // Mine 1 empty block so CPFP1 becomes stale.
    w.node.mine_empty(1);

    // Tick triggers boost_if_stale → builds CPFP2 → save as `ToDispatch`.
    w.tick();
    let speedups = w.speedups();
    assert_eq!(speedups.len(), 2, "boost must add a second speedup");
    let cpfp2_txid = speedups[1].txid;
    let cpfp2_bump = w.bump(cpfp2_txid);
    assert_eq!(
        speedups[1].state,
        TransactionState::ToDispatch,
        "boost CPFP must be saved as ToDispatch on the build tick"
    );
    assert!(
        cpfp2_bump > cpfp1_bump,
        "boosted CPFP must have a higher fee multiplier: {} > {}",
        cpfp2_bump,
        cpfp1_bump
    );
    assert_ne!(cpfp2_txid, cpfp1_txid, "boost must produce a distinct txid");

    // Tick again to dispatch the boost CPFP.
    assert!(
        w.tick_until_state(cpfp2_txid, TransactionState::InMempool, 3),
        "boost CPFP must reach InMempool on the next tick"
    );
}

/// Drive a deep boost chain (initial CPFP + N boost CPFP-of-CPFP layers, all
/// covering the same original parent) and verify:
/// * `bump_fee_used` strictly escalates across every speedup
/// * Effective `fee_info.fee_rate` (= `fee_paid / vsize`) strictly escalates
/// * The initial CPFP's `parents` field references the original NeedsSpeedup parent.
/// * Every boost CPFP's `parents = [previous_cpfp.txid]`
/// * Each boost CPFP's tx spends the previous CPFP's last output
/// * Initial CPFP has 2 inputs (parent anchor + funding); boost CPFPs have only the
///   funding-chain input.
/// * A single confirming block carries the entire package (parent + all N
///   boosts) into `Confirmed` together.
#[test]
fn test_cpfp_fee_escalates_across_boosts() {
    // Slots enough that every boost stays CPFP (not RBF).
    let mut w = World::with(boost_settings(20), 2);

    let funding_utxo = w.node.funding_utxo(2_000_000);
    let (parent_tx, speedup_data) = w.node.parent_tx(200_000);
    let parent_txid = parent_tx.compute_txid();

    w.tick_until_ready();
    w.coordinator.add_funding(funding_utxo);
    w.dispatch_with_speedup(parent_tx, speedup_data, ctx("escalate"));

    // Initial CPFP (covers the NeedsSpeedup parent directly).
    w.build_and_dispatch_cpfp(3);

    // Drive N boost iterations.
    let boost_iters = 3u32;
    for i in 0..boost_iters {
        w.node.mine_empty(1);
        w.tick();
        let speedups = w.speedups();
        let expected_len = 2 + i as usize;
        assert_eq!(
            speedups.len(),
            expected_len,
            "boost {} must produce CPFP{} (chain length {})",
            i + 1,
            expected_len,
            expected_len
        );
        let latest_txid = speedups[expected_len - 1].txid;
        assert!(
            w.tick_until_state(latest_txid, TransactionState::InMempool, 3),
            "boost {} (CPFP{}) must reach InMempool",
            i + 1,
            expected_len
        );
    }

    // Verify the entire boost chain's structure
    let speedups = w.speedups();
    assert_eq!(speedups.len(), boost_iters as usize + 1);

    // Initial CPFP's `parents` references the original NeedsSpeedup parent.
    let init_parents = speedups[0].speedup_kind().unwrap().parents();
    assert_eq!(
        init_parents,
        vec![parent_txid],
        "initial CPFP's parents must reference the NeedsSpeedup parent (got {:?})",
        init_parents
    );

    // Initial CPFP has 2 inputs (parent anchor + funding utxo).
    assert_eq!(
        speedups[0].tx.input.len(),
        2,
        "initial CPFP must have 2 inputs (anchor + funding)"
    );

    // Walk the boost chain.
    let mut prev_bump = w.bump(speedups[0].txid);
    let mut prev_rate: Option<u64> = None;
    for i in 1..speedups.len() {
        let s = &speedups[i];
        let prev = &speedups[i - 1];

        // Boost CPFP-of-CPFP: parents = [previous_cpfp.txid], not the original parent.
        let parents = s.speedup_kind().unwrap().parents();
        assert_eq!(
            parents,
            vec![prev.txid],
            "boost {}'s parents must reference the immediate predecessor (got {:?})",
            i,
            parents
        );

        // Boost CPFP has exactly 1 input (the funding-chain link).
        assert_eq!(
            s.tx.input.len(),
            1,
            "boost CPFP {} must have a single funding-chain input",
            i
        );

        // That input must point to the previous CPFP's last output (its change).
        let inp = &s.tx.input[0];
        let prev_last_vout = (prev.tx.output.len() - 1) as u32;
        assert_eq!(inp.previous_output.txid, prev.txid, "boost {} must spend its predecessor", i);
        assert_eq!(
            inp.previous_output.vout, prev_last_vout,
            "boost {} must spend predecessor's last output (change at vout {})",
            i, prev_last_vout
        );

        // bump_fee_used strictly escalates.
        let bump = w.bump(s.txid);
        assert!(
            bump > prev_bump,
            "bump_fee must strictly escalate at boost {}: {} -> {}",
            i,
            prev_bump,
            bump
        );
        prev_bump = bump;

        // Effective fee_rate strictly escalates across the boost portion of the chain.
        if let Some(pr) = prev_rate {
            assert!(
                s.fee_info.fee_rate > pr,
                "effective fee_rate must strictly escalate at boost {}: {} -> {}",
                i,
                pr,
                s.fee_info.fee_rate
            );
        }
        prev_rate = Some(s.fee_info.fee_rate);
    }

    // Confirming block: parent + every speedup must reach Confirmed in lockstep.
    w.node.mine(1);
    let mut all_txids = vec![parent_txid];
    for s in &speedups {
        all_txids.push(s.txid);
    }
    assert!(
        w.tick_until_all_states(&all_txids, TransactionState::Confirmed, 10),
        "parent + all {} speedups in the chain must confirm together as one package",
        speedups.len()
    );
}

/// Boost escalation stops once `max_feerate_sat_vb` is reached. The boost that
/// would exceed the cap is saved at the cap, a `MaxFeeRateReached` news item
/// is emitted, and subsequent stale-tip ticks must not produce any new
/// speedup record.
#[test]
fn test_boost_cap_reached() {
    let settings = cap_settings();
    let mut w = World::with(settings, 2);

    let funding_utxo = w.node.funding_utxo(2_000_000);
    let (parent_tx, speedup_data) = w.node.parent_tx(1_000);

    w.tick_until_ready();
    w.coordinator.add_funding(funding_utxo);
    w.dispatch_with_speedup(parent_tx, speedup_data, ctx("cap_stops_boost"));

    // Build & dispatch the initial CPFP, then read its measured package rate (what the cap bounds).
    let cpfp1_id = w.build_and_dispatch_cpfp(3);
    let initial_rate = w.record(cpfp1_id).fee_info.package_fee_rate;
    let max_rate = settings.fee.max_feerate_sat_vb;
    let bump_pct = f64::from_bits(settings.speedup.bump_fee_percentage.bits);
    let network_rate = settings.fee.min_safe_fee_rate; // without an estimate the rate is this floor
    assert!(
        initial_rate > 0 && initial_rate < max_rate,
        "initial CPFP must start strictly between 0 and the cap to exercise the boost flow; got rate={} cap={}",
        initial_rate,
        max_rate
    );

    // The smallest N with `network_rate * bump_pct^N >= max_rate` bounds the boost on which the cap is
    // hit. Any extra iterations past that point are no-ops.
    let boosts_until_cap =
        ((max_rate as f64 / network_rate as f64).log(bump_pct).ceil() as u32).max(1);

    for _ in 0..boosts_until_cap {
        w.node.mine_empty(1);
        w.tick();
        let latest_txid = w.speedups().last().unwrap().txid;
        let _ = w.tick_until_state(latest_txid, TransactionState::InMempool, 3);
    }

    // The latest speedup must now be sitting at the cap (package rate == max).
    let speedups_at_cap = w.speedups();
    let capped_tx = speedups_at_cap.last().unwrap();
    assert_eq!(
        capped_tx.fee_info.package_fee_rate, max_rate,
        "the capped speedup's package rate must equal max_feerate_sat_vb; got {}",
        capped_tx.fee_info.package_fee_rate,
    );

    // The `MaxFeeRateReached` news must reference the capped txid.
    let news = w.news();
    let cap_news: Vec<(Txid, u64)> = news
        .coordinator_news
        .iter()
        .filter_map(|n| match n {
            CoordinatorNews::MaxFeeRateReached { txid, effective_fee_rate, .. } => {
                Some((*txid, *effective_fee_rate))
            }
            _ => None,
        })
        .collect();
    assert_eq!(cap_news, vec![(capped_tx.txid, max_rate)]);

    // After the cap, additional stale-tip ticks must not produce any new speedup.
    let count_at_cap = speedups_at_cap.len();
    for _ in 0..4 {
        w.node.mine_empty(1);
        w.tick();
    }
    assert_eq!(
        w.speedups().len(),
        count_at_cap,
        "boost_if_stale must not save any new speedup once the cap is reached"
    );
}

/// When `boost_if_stale` selects RBF and the bandwidth floor would exceed the configured
/// `max_feerate_sat_vb` cap, the RBF is still built, clamped at the cap, and the predecessor is marked
/// at-cap so subsequent stale intervals skip it. A `MaxFeeRateReached` news item is emitted referencing
/// the new RBF.
#[test]
fn test_rbf_floor_above_cap_marks_predecessor_terminal() {
    // Network rate floors at 6; cap is 10. RBF bandwidth floor would be 6 × 2 = 12 sat/vB, above the
    // cap. One slot forces the first boost to be an RBF.
    let settings = BitcoinSettings {
        fee: fee_settings(6, 10, 1.0),
        speedup: SpeedupSettings { max_unconfirmed_speedups: 1, ..cpfp_settings().speedup },
        ..cpfp_settings()
    };
    let mut w = World::with(settings, 2);

    let funding_utxo = w.node.funding_utxo(2_000_000);
    let (parent_tx, speedup_data) = w.node.parent_tx(1_000);

    w.tick_until_ready();
    w.coordinator.add_funding(funding_utxo);
    w.dispatch_with_speedup(parent_tx, speedup_data, ctx("rbf_floor_above_cap"));

    // Build + dispatch the initial CPFP. The only slot is taken, so the next boost will choose RBF.
    let cpfp1_id = w.build_and_dispatch_cpfp(3);

    // Drive boost_if_stale: mine a block (stale check passes) and tick.
    w.node.mine_empty(1);
    w.tick();

    // A capped RBF was built and saved (count grows to 2).
    let speedups = w.speedups();
    assert_eq!(
        speedups.len(),
        2,
        "RBF must be built and saved (clamped at the cap); got {} speedups",
        speedups.len()
    );
    let rbf_id = speedups[1].txid;
    assert_eq!(
        speedups[1].fee_info.package_fee_rate, 10,
        "RBF package rate must be clamped at max_feerate_sat_vb"
    );

    // The predecessor CPFP is marked at-cap so `boost_if_stale` will skip it.
    assert_eq!(
        w.record(cpfp1_id).fee_info.package_fee_rate,
        10,
        "predecessor must be marked at-cap so the chain stops attempting further RBFs"
    );

    // News log must contain MaxFeeRateReached referencing the new RBF.
    let news = w.news();
    assert!(
        news.coordinator_news.iter().any(|n| matches!(n,
            CoordinatorNews::MaxFeeRateReached { txid, effective_fee_rate, .. }
                if *txid == rbf_id && *effective_fee_rate == 10)),
        "MaxFeeRateReached news must be emitted against the new RBF"
    );

    // Subsequent stale intervals must not introduce any new txids.
    let known_txids: Vec<Txid> = speedups.iter().map(|tx| tx.txid).collect();
    for _ in 0..3 {
        w.node.mine_empty(1);
        w.tick();
    }
    for tx in &w.speedups() {
        assert!(
            known_txids.contains(&tx.txid),
            "no new speedup must be built once the predecessor is marked at-cap; found unexpected txid {:?}",
            tx.txid
        );
    }
}

/// Once the in-mempool speedup count reaches the limit, the next boost switches from CPFP to RBF.
/// After the RBF is dispatched, the predecessor must have its `replaced_by` set so the funding walk-back
/// and boost_if_stale skip it.
#[test]
fn test_cpfp_rbf_after_max_unconfirmed_reached() {
    let mut w = World::with(cpfp_settings(), 2);

    let funding_utxo = w.node.funding_utxo(2_000_000);
    let (parent_tx, speedup_data) = w.node.parent_tx(200_000);
    let parent_txid = parent_tx.compute_txid();

    w.tick_until_ready();
    w.coordinator.add_funding(funding_utxo);
    w.dispatch_with_speedup(parent_tx, speedup_data, ctx("rbf_limit"));

    // CPFP1 built + dispatched (1 unconfirmed).
    let cpfp1_txid = w.build_and_dispatch_cpfp(3);

    // Boost 1: 1 unconfirmed < 2 → CPFP.
    w.node.mine_empty(1);
    w.tick();
    let speedups = w.speedups();
    assert_eq!(speedups.len(), 2, "boost 1 must create CPFP2");
    assert!(
        !speedups[1].speedup_kind().unwrap().is_rbf(),
        "boost 1 must be a CPFP (1 unconfirmed < limit of 2)"
    );
    let cpfp2_txid = speedups[1].txid;
    assert!(
        w.tick_until_state(cpfp2_txid, TransactionState::InMempool, 3),
        "CPFP2 must reach InMempool"
    );

    // Boost 2: 2 unconfirmed >= 2 → RBF.
    w.node.mine_empty(1);
    w.tick();
    let speedups = w.speedups();
    assert_eq!(speedups.len(), 3, "boost 2 must add a third speedup (RBF)");
    assert!(
        speedups[2].speedup_kind().unwrap().is_rbf(),
        "boost 2 must be RBF once the unconfirmed limit is reached"
    );
    let rbf_txid = speedups[2].txid;
    assert!(
        w.tick_until_state(rbf_txid, TransactionState::InMempool, 3),
        "RBF must reach InMempool after the next tick"
    );

    // After RBF dispatch, the predecessor must be marked `replaced_by`.
    assert_eq!(
        w.record(cpfp2_txid).speedup_kind().unwrap().context().replaced_by,
        Some(rbf_txid),
        "RBF dispatch must set `replaced_by = Some(rbf_txid)` on the predecessor (CPFP2)"
    );

    // Mine one block. CPFP2 is skipped: it has been replaced.
    w.node.mine(1);
    assert!(
        w.tick_until_all_states(
            &[parent_txid, cpfp1_txid, rbf_txid],
            TransactionState::Confirmed,
            10
        ),
        "parent, CPFP1, and RBF must all confirm after the first block"
    );
    assert_eq!(
        w.state(cpfp2_txid),
        Some(TransactionState::InMempool),
        "CPFP2 must stay InMempool while its RBF replacement is in flight"
    );
    w.ack_everything();

    // Mine the second confirming block so the RBF is final; each predecessor is then settled as Failed.
    w.node.mine(1);
    assert!(
        w.tick_until_state(rbf_txid, TransactionState::Finalized, 10),
        "RBF must reach Finalized after the second confirming block"
    );
    assert!(
        w.tick_until_state(cpfp2_txid, TransactionState::Failed, 5),
        "CPFP2 must be settled Failed when its replacing RBF finalizes"
    );
    assert!(!w.watched.iter().any(|e| e.0 == cpfp2_txid));
}

/// When the RBF speedup is broadcast and confirmed before the coordinator dispatches it, the node has
/// it on chain, which must mark the predecessor CPFP's `replaced_by` field. Simulates a crash and
/// restart.
#[test]
fn test_rbf_already_confirmed_marks_predecessor() {
    let mut w = World::with(cpfp_settings(), 2);

    let funding_utxo = w.node.funding_utxo(2_000_000);
    let (parent_tx, speedup_data) = w.node.parent_tx(200_000);
    let parent_txid = parent_tx.compute_txid();

    w.tick_until_ready();
    w.coordinator.add_funding(funding_utxo);
    w.dispatch_with_speedup(parent_tx, speedup_data, ctx("rbf"));

    // CPFP1 built + dispatched (1 unconfirmed).
    let cpfp1_txid = w.build_and_dispatch_cpfp(3);

    // Boost 1: 1 unconfirmed < 2 → CPFP2.
    w.node.mine_empty(1);
    w.tick();
    let speedups = w.speedups();
    assert_eq!(speedups.len(), 2, "boost 1 must create CPFP2");
    let cpfp2_txid = speedups[1].txid;
    assert!(
        w.tick_until_state(cpfp2_txid, TransactionState::InMempool, 3),
        "CPFP2 must reach InMempool"
    );

    // Boost 2: 2 unconfirmed >= 2 → RBF built as ToDispatch, not dispatched yet.
    w.node.mine_empty(1);
    w.tick();
    let speedups = w.speedups();
    assert_eq!(speedups.len(), 3, "boost 2 must add RBF");
    let rbf_txid = speedups[2].txid;
    assert!(speedups[2].speedup_kind().unwrap().is_rbf());
    assert_eq!(speedups[2].state, TransactionState::ToDispatch);

    // Broadcast the RBF before the coordinator's next tick dispatches it.
    w.node.send(&speedups[2].tx).unwrap();
    w.node.mine(1);

    assert!(
        w.tick_until_all_states(
            &[parent_txid, cpfp1_txid, rbf_txid],
            TransactionState::Confirmed,
            5
        ),
        "parent, CPFP1, and RBF must reach Confirmed"
    );

    // CPFP2 went not_found because the RBF replaced it on-chain: it is neither re-queued nor guarded.
    w.node.mine_empty(1);
    assert!(
        w.tick_until_state(cpfp2_txid, TransactionState::Failed, 5),
        "CPFP2 must settle Failed once the replacing RBF finalizes"
    );

    let cpfp2 = w.record(cpfp2_txid);
    assert_eq!(cpfp2.state, TransactionState::Failed, "CPFP2 must be settled Failed");
    assert_eq!(
        cpfp2.speedup_kind().unwrap().context().replaced_by,
        Some(rbf_txid),
        "an RBF found on chain must set CPFP2.replaced_by = Some(rbf_txid)"
    );
}

/// After parent + CPFP are both in the mempool, evict all mempool transactions. Both are re-broadcast
/// with the same txid.
#[test]
fn test_cpfp_orphan_requeue() {
    let mut w = World::with(cpfp_settings(), 2);

    let funding_utxo = w.node.funding_utxo(500_000);
    let (parent_tx, speedup_data) = w.node.parent_tx(200_000);
    let parent_txid = parent_tx.compute_txid();

    w.tick_until_ready();
    w.coordinator.add_funding(funding_utxo);
    w.dispatch_with_speedup(parent_tx, speedup_data, ctx("eviction"));

    let cpfp_txid = w.build_and_dispatch_cpfp(3);

    // Evict all mempool transactions.
    w.node.expire_mempool();

    // Both parent and CPFP must end up InMempool again.
    assert!(
        w.tick_until_all_states(&[parent_txid, cpfp_txid], TransactionState::InMempool, 10),
        "parent and CPFP must both be back in InMempool after eviction"
    );

    // Exactly one speedup record exists. The original txid was re-broadcast, not rebuilt as a new record.
    let speedups = w.speedups();
    assert_eq!(
        speedups.len(),
        1,
        "no new CPFP record must be created; the same txid is re-dispatched"
    );
    assert_eq!(speedups[0].txid, cpfp_txid);
    assert_eq!(speedups[0].state, TransactionState::InMempool);

    // The CPFP still covers the original parent.
    let parents = speedups[0].speedup_kind().unwrap().parents();
    assert!(
        parents.contains(&parent_txid),
        "the recovered CPFP must still cover the original parent; got parents = {:?}",
        parents
    );
}

/// Drives a NeedsSpeedup parent to `Failed` after its covering CPFP is in flight, and asserts that the
/// speedups that depend on it are settled too and its funding is released.
#[test]
fn test_parent_failure_cascades_cpfp_via_parents_gate() {
    let mut w = World::with(cpfp_settings(), 2);

    let funding_utxo = w.node.funding_utxo(500_000);
    let funding_txid = funding_utxo.txid;
    let (parent_tx, speedup_data) = w.node.parent_tx(200_000);
    let parent_txid = parent_tx.compute_txid();

    w.tick_until_ready();
    w.coordinator.add_funding(funding_utxo);
    w.dispatch_with_speedup(parent_tx.clone(), speedup_data, ctx("parent_fail"));

    // Drive parent + CPFP to InMempool.
    let cpfp_txid = w.build_and_dispatch_cpfp(3);
    assert_eq!(w.state(parent_txid), Some(TransactionState::InMempool));

    // Build a boost chain on top of the CPFP so the cascade walks through every descendant.
    w.node.mine_empty(1);
    w.tick();
    let speedups = w.speedups();
    assert_eq!(speedups.len(), 2, "first boost must add CPFP-of-CPFP");
    let boost_cpfp_txid = speedups[1].txid;
    assert!(
        !speedups[1].speedup_kind().unwrap().is_rbf(),
        "first boost must be a CPFP (1 unconfirmed < 2)"
    );
    assert!(
        w.tick_until_state(boost_cpfp_txid, TransactionState::InMempool, 3),
        "boost CPFP must reach InMempool"
    );

    w.node.mine_empty(1);
    w.tick();
    let speedups = w.speedups();
    assert_eq!(speedups.len(), 3, "second boost must add an RBF");
    let rbf_txid = speedups[2].txid;
    assert!(
        speedups[2].speedup_kind().unwrap().is_rbf(),
        "second boost must be RBF (2 unconfirmed >= max)"
    );
    assert!(
        w.tick_until_state(rbf_txid, TransactionState::InMempool, 3),
        "RBF must reach InMempool before the eviction"
    );

    // After RBF dispatched, its predecessor's `replaced_by` is set.
    assert_eq!(
        w.record(boost_cpfp_txid).speedup_kind().unwrap().context().replaced_by,
        Some(rbf_txid),
        "RBF dispatch must set replaced_by on its predecessor"
    );

    // Evict the mempool (parent + every speedup gone), and spend the parent's input otherwise.
    w.node.expire_mempool();
    let conflict_tx = w.node.conflict(&parent_tx, 120_000);
    w.node.send(&conflict_tx).unwrap();
    w.node.mine(1);

    // Tick 1: the monitor syncs. Parent not yet seen missing, guard not armed.
    w.tick();
    // Tick 2: review sees the parent not_found, re-queues it and arms the fail guard.
    w.tick();

    // Mine strictly past the guard window so the genuinely-spent input is allowed to settle Failed.
    w.node.mine_empty(3);

    // Tick until parent + descendants settle Failed; each tick comes after the retry interval.
    let ids = [parent_txid, cpfp_txid, rbf_txid];
    let mut reached = false;
    for _ in 0..cpfp_settings().coordinator.retry_attempts_sending_tx + 2 {
        w.sleep_ms(cpfp_settings().coordinator.retry_interval_seconds * 1000 + 1);
        w.tick();
        if ids.iter().all(|id| w.state(*id) == Some(TransactionState::Failed)) {
            reached = true;
            break;
        }
    }
    assert!(
        reached,
        "parent, CPFP, and RBF must all settle Failed after the parent double-spend is mined"
    );

    // CPFP's funding UTXO must have been released.
    let fundings = w.fundings();
    let funding_record = fundings
        .iter()
        .find(|r| r.0.txid == funding_txid)
        .expect("funding record must still be present");
    assert!(
        !funding_record.1,
        "funding mark must be released after the CPFP was cascade-failed"
    );

    // `replaced_by` on the RBF's predecessor must have been cleared.
    assert_eq!(
        w.record(boost_cpfp_txid).speedup_kind().unwrap().context().replaced_by,
        None,
        "RBF cascade-fail must clear `replaced_by` on its predecessor"
    );

    // `SpeedupDispatchError` news must have fired for the cascaded speedups.
    let news = w.news();
    for cascaded in [cpfp_txid, rbf_txid] {
        assert!(
            news.coordinator_news.iter().any(|n| matches!(
                n,
                CoordinatorNews::SpeedupDispatchError { txid, .. } if *txid == cascaded
            )),
            "SpeedupDispatchError news must fire for cascaded speedup {:?}",
            cascaded
        );
    }
}

/// The retry interval is shared between the transaction engine and the speedup engine.
/// When a non-speedup retry consumes the rate-limit slot, a speedup retry queued in the same tick
/// must be blocked until the configured interval elapses.
#[test]
fn test_retry_rate_limit_shared_across_engines() {
    let retry_interval_seconds = 8u64;

    let settings = BitcoinSettings {
        coordinator: CoordinatorSettings { retry_interval_seconds, retry_attempts_sending_tx: 10 },
        ..cpfp_settings()
    };
    let mut w = World::with(settings, 2);

    let funding_utxo = w.node.funding_utxo(500_000);
    let (parent_tx, speedup_data) = w.node.parent_tx(200_000);
    let parent_txid = parent_tx.compute_txid();

    w.tick_until_ready();
    w.coordinator.add_funding(funding_utxo);
    w.dispatch_with_speedup(parent_tx, speedup_data, ctx("shared_rate"));

    // Build & dispatch the CPFP; parent reaches InMempool alongside it.
    let cpfp_txid = w.build_and_dispatch_cpfp(3);
    assert_eq!(
        w.state(parent_txid),
        Some(TransactionState::InMempool),
        "parent must be InMempool before the rate-limit test starts"
    );

    // Flip both back to ToDispatch with retry_count = 1. The node still has them in its mempool.
    w.storage_mut().mark_as_retry(parent_txid);
    w.storage_mut().mark_as_retry(cpfp_txid);

    // Single tick: the parent is redispatched (consumes the rate-limit slot), and the CPFP retry is
    // rate-limited.
    w.tick();
    assert_eq!(
        w.state(parent_txid),
        Some(TransactionState::InMempool),
        "non-speedup retry must dispatch (no prior retry had armed the window)"
    );
    assert_eq!(
        w.state(cpfp_txid),
        Some(TransactionState::ToDispatch),
        "CPFP retry must be blocked by the shared last_retry_at slot the parent just consumed"
    );

    // Tick again immediately; the interval has not elapsed so the CPFP is still rate-limited.
    w.tick();
    assert_eq!(
        w.state(cpfp_txid),
        Some(TransactionState::ToDispatch),
        "CPFP retry must remain blocked while the interval has not elapsed"
    );

    // After the interval, the CPFP retry passes.
    w.sleep_ms((retry_interval_seconds + 1) * 1000);
    w.tick();
    assert_eq!(
        w.state(cpfp_txid),
        Some(TransactionState::InMempool),
        "CPFP retry must redispatch once the shared retry interval has elapsed"
    );
}

/// When a CPFP is finalized the coordinator advances the base funding UTXO to
/// the confirmed change output of that CPFP. A second parent dispatched later
/// must produce a new CPFP whose funding input is the first CPFP's change
/// output, forming a clean on-chain funding chain.
#[test]
fn test_cpfp_funding_restored_after_finalization() {
    let mut w = World::with(cpfp_settings(), 2);

    let funding_utxo = w.node.funding_utxo(1_000_000);
    let (parent_tx1, speedup_data1) = w.node.parent_tx(200_000);
    let parent1_txid = parent_tx1.compute_txid();

    w.tick_until_ready();
    w.coordinator.add_funding(funding_utxo);
    w.dispatch_with_speedup(parent_tx1, speedup_data1, ctx("restore_p1"));

    let cpfp1_txid = w.build_and_dispatch_cpfp(3);

    // Block 1 → both Confirmed.
    w.node.mine(1);
    assert!(
        w.tick_until_all_states(&[parent1_txid, cpfp1_txid], TransactionState::Confirmed, 10),
        "parent1 and CPFP1 must reach Confirmed"
    );
    w.ack_everything();

    // Block 2 → both Finalized.
    w.node.mine(1);
    assert!(
        w.tick_until_all_states(&[parent1_txid, cpfp1_txid], TransactionState::Finalized, 10),
        "parent1 and CPFP1 must reach Finalized"
    );
    w.ack_everything();

    // Dispatch a second parent.
    let (parent_tx2, speedup_data2) = w.node.parent_tx(200_000);
    let parent2_txid = parent_tx2.compute_txid();
    w.dispatch_with_speedup(parent_tx2, speedup_data2, ctx("restore_p2"));

    // Build + dispatch CPFP2 across two ticks.
    w.tick();
    let speedups = w.speedups();
    let cpfp2 = speedups
        .iter()
        .find(|s| s.txid != cpfp1_txid)
        .expect("a new CPFP must exist for parent2");
    let cpfp2_txid = cpfp2.txid;
    assert_eq!(
        cpfp2.state,
        TransactionState::ToDispatch,
        "CPFP2 must be saved as ToDispatch on the build tick"
    );
    assert!(
        w.tick_until_state(cpfp2_txid, TransactionState::InMempool, 3),
        "CPFP2 must reach InMempool on the next tick"
    );
    assert_eq!(
        w.state(parent2_txid),
        Some(TransactionState::InMempool),
        "parent2 must be InMempool"
    );

    // CPFP2's funding input must spend CPFP1's change output.
    assert!(
        w.record(cpfp2_txid).tx.input.iter().any(|inp| inp.previous_output.txid == cpfp1_txid),
        "CPFP2 must spend CPFP1's confirmed change output. Funding chain not restored",
    );
}

/// Speedup-primary combine + chain continuation.
/// 1. A modest `funding_initial` and a plentiful `funding_extra` are queued. P1 dispatches; CPFP1 builds
///    from `funding_initial` alone. The inflated fee makes CPFP1's change tight.
/// 2. CPFP1 confirms and finalizes; its change takes the place of `funding_initial`.
/// 3. P2 dispatches. The amount of CPFP1's change is below the next CPFP fee + dust, so the build pulls
///    in `funding_extra` as the combine partner.
#[test]
fn test_chain_tip_combine_after_finalize() {
    let mut w = World::with(multi_funding_settings(), 2);

    let funding_initial = w.node.funding_utxo(25_000);
    let funding_extra = w.node.funding_utxo(1_000_000);

    let (parent1, sd1) = w.node.parent_tx(1_000);
    let parent1_txid = parent1.compute_txid();

    w.tick_until_ready();
    w.coordinator.add_funding(funding_initial);
    w.coordinator.add_funding(funding_extra);
    w.dispatch_with_speedup(parent1, sd1, ctx("chain_combine_p1"));

    // Phase 1: CPFP1 built from funding_initial alone.
    let cpfp1_txid = w.build_and_dispatch_cpfp(3);
    {
        let cpfp1 = w.record(cpfp1_txid);
        let inputs = &cpfp1.speedup_kind().unwrap().context().funding_inputs;
        assert_eq!(inputs.len(), 1, "CPFP1 must use a single Funding-kind input (no combine)");
        assert_eq!(inputs[0].txid, funding_initial.txid);
    }

    // Phase 2: confirm + finalize CPFP1.
    w.node.mine(1);
    assert!(
        w.tick_until_all_states(&[parent1_txid, cpfp1_txid], TransactionState::Confirmed, 10),
        "parent1 and CPFP1 must reach Confirmed"
    );
    w.node.mine(1);
    assert!(
        w.tick_until_all_states(&[parent1_txid, cpfp1_txid], TransactionState::Finalized, 10),
        "parent1 and CPFP1 must reach Finalized"
    );
    w.ack_everything();

    // After finalize the funding queue holds: CPFP1's change + funding_extra (user, unspent).
    let fundings = w.fundings();
    assert_eq!(fundings.len(), 2, "funding queue must hold CPFP1's change + funding_extra");
    let cpfp1_record = fundings
        .iter()
        .find(|r| r.0.txid == cpfp1_txid)
        .expect("CPFP1's change must be parked in the funding queue");
    assert!(cpfp1_record.2, "the change must come from a speedup");
    assert!(fundings.iter().any(|r| r.0.txid == funding_extra.txid));

    // Phase 3: dispatch P2. CPFP2 combines chain tip + extra funding.
    let (parent2, sd2) = w.node.parent_tx(1_000);
    let parent2_txid = parent2.compute_txid();
    w.dispatch_with_speedup(parent2, sd2, ctx("chain_combine_p2"));

    w.tick();
    let speedups = w.speedups();
    // CPFP1 has moved from the speedup list to the funding list, so only CPFP2 remains active.
    assert_eq!(speedups.len(), 1, "the speedup list must contain only the active CPFP2");
    let cpfp2 = &speedups[0];
    let cpfp2_txid = cpfp2.txid;
    let cpfp2_inputs = &cpfp2.speedup_kind().unwrap().context().funding_inputs;
    assert_eq!(
        cpfp2_inputs.len(),
        2,
        "CPFP2 must combine Speedup chain tip + Funding partner (got inputs={:?})",
        cpfp2_inputs
    );
    // Primary = CPFP1 change, partner = funding_extra.
    assert_eq!(cpfp2_inputs[0].txid, cpfp1_txid);
    assert_eq!(cpfp2_inputs[1].txid, funding_extra.txid);
    // The CPFP2 tx must actually spend the combine partner.
    assert!(
        cpfp2.tx.input.iter().any(|i| i.previous_output.txid == funding_extra.txid),
        "CPFP2 tx must include the combine partner as a real input"
    );

    assert!(
        w.tick_until_state(cpfp2_txid, TransactionState::InMempool, 3),
        "CPFP2 must reach InMempool"
    );
    w.node.mine(1);
    assert!(
        w.tick_until_all_states(&[parent2_txid, cpfp2_txid], TransactionState::Confirmed, 10),
        "parent2 and CPFP2 must reach Confirmed"
    );
}

/// A `NeedsSpeedup` parent registered without funding gets dispatched on the next tick and confirms
/// naturally before any CPFP is built. The pending list must retain the parent and `create_cpfp_batch`
/// must build the CPFP once funding becomes available.
#[test]
fn test_cpfp_built_for_parent_confirmed_before_funding() {
    let mut w = World::with(cpfp_settings(), 2);

    let (parent_tx, speedup_data) = w.node.parent_tx(200_000);
    let parent_txid = parent_tx.compute_txid();

    w.tick_until_ready();
    // No add_funding here. The coordinator will dispatch the parent but cannot yet build a CPFP.
    w.dispatch_with_speedup(parent_tx, speedup_data, ctx("late_funding"));

    // Tick: parent → InMempool; create_cpfp_batch tries and fails (no funding).
    w.tick();
    assert_eq!(
        w.state(parent_txid),
        Some(TransactionState::InMempool),
        "parent must reach InMempool even without funding"
    );
    assert!(w.speedups().is_empty(), "no CPFP can be built before funding is registered");
    assert!(
        w.news()
            .coordinator_news
            .iter()
            .any(|n| matches!(n, CoordinatorNews::FundingNotAvailable)),
        "FundingNotAvailable news must be emitted while funding is absent"
    );

    // Mine 1 block: parent confirms on its own.
    w.node.mine(1);
    assert!(
        w.tick_until_state(parent_txid, TransactionState::Confirmed, 5),
        "parent must reach Confirmed before any CPFP exists"
    );

    // Parent is Confirmed but still needs the CPFP to be built.
    let pending = w.storage_mut().get_pending_speedup_parents();
    assert!(
        pending.iter().any(|p| p.txid == parent_txid),
        "Confirmed NeedsSpeedup parent must stay in pending speedup parents until its CPFP is built"
    );

    // Provide funding. create_cpfp_batch must build a CPFP for the Confirmed parent on the next tick.
    let funding_utxo = w.node.funding_utxo(500_000);
    w.coordinator.add_funding(funding_utxo);

    // Tick 1 after funding: CPFP built and saved as ToDispatch.
    w.tick();
    let speedups = w.speedups();
    assert_eq!(
        speedups.len(),
        1,
        "exactly one CPFP must be built after funding is registered, even though the parent is already Confirmed"
    );
    let cpfp_txid = speedups[0].txid;
    assert_eq!(
        speedups[0].state,
        TransactionState::ToDispatch,
        "CPFP must be saved as ToDispatch on the build tick"
    );
    assert!(
        speedups[0].speedup_kind().unwrap().parents().contains(&parent_txid),
        "the CPFP must reference the Confirmed parent"
    );

    // Parent has been removed from the pending speedup parents now that the CPFP is built.
    let pending_after = w.storage_mut().get_pending_speedup_parents();
    assert!(
        !pending_after.iter().any(|p| p.txid == parent_txid),
        "parent must be removed from pending speedup parents once its CPFP is saved"
    );

    // Tick 2: dispatch the CPFP.
    assert!(
        w.tick_until_state(cpfp_txid, TransactionState::InMempool, 3),
        "CPFP must reach InMempool on the next tick"
    );
}

/// `SpeedupContext.spent` is set on the chain-tip CPFP at the moment a newer speedup builds on top of it.
/// After a boost cycle (CPFP1 → CPFP2-boost), CPFP1 must be marked spent and CPFP2 must not be marked spent.
#[test]
fn test_chain_tip_spent_flag_progresses_with_boosts() {
    let mut w = World::with(cpfp_settings(), 2);

    let funding_utxo = w.node.funding_utxo(1_000_000);
    let (parent_tx, speedup_data) = w.node.parent_tx(200_000);

    w.tick_until_ready();
    w.coordinator.add_funding(funding_utxo);
    w.dispatch_with_speedup(parent_tx, speedup_data, ctx("spent_flag"));

    // CPFP1 built + dispatched. spent flag still false (no boost yet).
    let cpfp1_txid = w.build_and_dispatch_cpfp(3);
    assert!(
        !w.record(cpfp1_txid).speedup_kind().unwrap().context().spent,
        "fresh CPFP1 must NOT be marked spent before any boost"
    );

    // Trigger a boost: mine 1 empty block, then tick → CPFP2 built using CPFP1_change.
    w.node.mine_empty(1);
    w.tick();

    let speedups = w.speedups();
    assert_eq!(speedups.len(), 2, "boost must add CPFP2");
    let cpfp2_txid = speedups[1].txid;

    assert!(
        w.record(cpfp1_txid).speedup_kind().unwrap().context().spent,
        "CPFP1 must be marked spent once CPFP2 reserves its change as funding"
    );
    // CPFP2 itself remains unspent (no boost on top of it yet).
    assert!(
        !w.record(cpfp2_txid).speedup_kind().unwrap().context().spent,
        "new chain tip CPFP2 must NOT be marked spent"
    );
}

/// RBF can pull a combine partner when its inherited (Speedup-derived) funding is insufficient at the
/// bumped fee. Sequence:
///   1. CPFP1 built from a queue funding.
///   2. Boost (1 unconfirmed < 2) → CPFP2 with a single Speedup-derived input (CPFP1's change).
///   3. Boost again (2 unconfirmed = max) → CPFP3 is an RBF replacing CPFP2. RBF inherits CPFP2's
///      funding_inputs = [CPFP1_change]. Because the single input is Speedup-derived, the build may
///      combine. A queued funding is pulled in as the second input.
#[test]
fn test_rbf_combines_when_inherited_funding_insufficient() {
    let mut settings = boost_settings(2);
    settings.fee = fee_settings(80, 1000, 1.0);
    let mut w = World::with(settings, 2);

    // Initial funding: large enough for CPFP1 + CPFP2 but its change cannot cover the bumped RBF fee alone.
    let funding_initial = w.node.funding_utxo(60_000);
    // Extra funding stays unspent in the queue, ready for combine.
    let funding_extra = w.node.funding_utxo(1_000_000);
    let (parent_tx, speedup_data) = w.node.parent_tx(1_000);

    w.tick_until_ready();
    w.coordinator.add_funding(funding_initial);
    w.coordinator.add_funding(funding_extra);
    w.dispatch_with_speedup(parent_tx, speedup_data, ctx("rbf_combine"));

    // Build + dispatch CPFP1.
    let cpfp1_txid = w.build_and_dispatch_cpfp(3);
    let cpfp1_inputs =
        w.record(cpfp1_txid).speedup_kind().unwrap().context().funding_inputs.clone();
    assert_eq!(
        cpfp1_inputs.len(),
        1,
        "CPFP1 must use a single Funding-kind input (only the initial funding is consumed)"
    );
    assert_eq!(cpfp1_inputs[0].txid, funding_initial.txid);

    // First boost: 1 unconfirmed < max(2) → CPFP. Must remain single-input.
    w.node.mine_empty(1);
    w.tick();
    let speedups = w.speedups();
    assert_eq!(speedups.len(), 2, "first boost must add CPFP2");
    let cpfp2 = &speedups[1];
    let cpfp2_txid = cpfp2.txid;
    assert!(
        !cpfp2.speedup_kind().unwrap().is_rbf(),
        "first boost must be a CPFP (1 unconfirmed < limit of 2)"
    );
    let cpfp2_inputs = &cpfp2.speedup_kind().unwrap().context().funding_inputs;
    assert_eq!(
        cpfp2_inputs.len(),
        1,
        "CPFP2 must have a single funding input (chain tip CPFP1_change)"
    );
    assert_eq!(cpfp2_inputs[0].txid, cpfp1_txid);
    assert!(
        w.tick_until_state(cpfp2_txid, TransactionState::InMempool, 3),
        "CPFP2 must reach InMempool"
    );

    // Second boost: 2 unconfirmed >= max → RBF replacing CPFP2. At the bumped fee CPFP1_change
    // alone is insufficient, so funding_extra is pulled in as the second input.
    w.node.mine_empty(1);
    w.tick();
    let speedups = w.speedups();
    assert_eq!(speedups.len(), 3, "second boost must add the RBF");
    let rbf = &speedups[2];
    assert!(
        rbf.speedup_kind().unwrap().is_rbf(),
        "second boost must be RBF (unconfirmed limit reached)"
    );
    let rbf_inputs = &rbf.speedup_kind().unwrap().context().funding_inputs;
    assert_eq!(
        rbf_inputs.len(),
        2,
        "RBF must combine inherited input + queue funding (got inputs={:?})",
        rbf_inputs
    );
    // Inherited input first (matches CPFP1's change), extra second.
    assert_eq!(rbf_inputs[0].txid, cpfp1_txid);
    assert_eq!(rbf_inputs[1].txid, funding_extra.txid);
    // The RBF tx must actually spend the extra funding.
    assert!(
        rbf.tx.input.iter().any(|i| i.previous_output.txid == funding_extra.txid),
        "RBF tx must include the combine partner as a spent input"
    );
}

/// Cancel use cases involving a NeedsSpeedup parent and an in-flight CPFP:
///   A) Cancel a parent BEFORE its first tick, succeeds. The parent never
///      enters the mempool, no CPFP is built, funding stays unspent.
///   B) Cancel a parent AFTER it has been dispatched, REFUSED. `InvalidCancel`
///      news fires, the parent record stays in storage, normal lifecycle continues.
///   C) Register a fresh parent post-rejection and verify the coordinator state
///      is clean for new work.
#[test]
fn test_cancel_parent_edge_cases() {
    let mut w = World::with(cpfp_settings(), 2);

    let funding_utxo = w.node.funding_utxo(500_000);
    let funding_txid = funding_utxo.txid;

    w.tick_until_ready();
    w.coordinator.add_funding(funding_utxo);

    // Phase A: cancel BEFORE the first tick
    let (parent_a, sd_a) = w.node.parent_tx(200_000);
    let parent_a_txid = parent_a.compute_txid();
    w.dispatch_with_speedup(parent_a, sd_a, ctx("cancel_a"));

    w.cancel(&[parent_a_txid], ctx("cancel_a"));
    assert!(
        w.state(parent_a_txid).is_none(),
        "parent_a must be gone from storage immediately after cancel",
    );

    // Next tick: no CPFP is built.
    w.tick();
    assert!(w.speedups().is_empty(), "no CPFP must be built for a cancelled parent");
    let fundings = w.fundings();
    assert_eq!(fundings.len(), 1, "funding queue must be untouched");
    assert_eq!(fundings[0].0.txid, funding_txid);
    assert!(!fundings[0].2, "user funding is not speedup-derived");
    assert!(!fundings[0].1, "funding must stay unspent after cancel");

    // Phase B: cancel AFTER dispatch, REFUSED
    let (parent_b, sd_b) = w.node.parent_tx(200_000);
    let parent_b_txid = parent_b.compute_txid();
    w.dispatch_with_speedup(parent_b, sd_b, ctx("cancel_b"));

    // Tick → parent_b dispatched to InMempool; CPFP built ToDispatch.
    w.tick();
    assert_eq!(
        w.state(parent_b_txid),
        Some(TransactionState::InMempool),
        "parent_b must be InMempool after dispatch",
    );

    // Cancel attempt is refused; news emitted; tx record stays put.
    w.cancel(&[parent_b_txid], ctx("cancel_b"));
    assert!(
        w.state(parent_b_txid).is_some(),
        "parent_b must REMAIN in storage; cancel after dispatch is refused",
    );
    let news = w.news();
    assert!(
        news.coordinator_news.iter().any(|n| matches!(
            n,
            CoordinatorNews::InvalidCancel { txid: id, .. } if *id == parent_b_txid
        )),
        "InvalidCancel news must be emitted for the rejected cancel",
    );
    w.ack_all(news);

    // The CPFP that was already built keeps progressing normally.
    let speedups = w.speedups();
    assert_eq!(speedups.len(), 1);
    let cpfp_txid = speedups[0].txid;
    assert!(
        w.tick_until_state(cpfp_txid, TransactionState::InMempool, 3),
        "CPFP keeps making progress despite the refused cancel"
    );

    // Mine through to Finalized so the funding list is updated.
    w.node.mine(2);
    assert!(
        w.tick_until_state(cpfp_txid, TransactionState::Finalized, 10),
        "CPFP must finalize after blocks are mined"
    );
    w.ack_everything();

    // Phase C: register a fresh parent and verify the post-rejection state is clean
    let (parent_c, sd_c) = w.node.parent_tx(200_000);
    let parent_c_txid = parent_c.compute_txid();
    w.dispatch_with_speedup(parent_c, sd_c, ctx("post_cancel"));

    let cpfp_c_txid = w.build_and_dispatch_cpfp(5);
    assert_ne!(
        cpfp_c_txid, cpfp_txid,
        "fresh CPFP must have a different txid from the previous chain tip",
    );
    assert_eq!(
        w.state(parent_c_txid),
        Some(TransactionState::InMempool),
        "parent_c must be InMempool after the new CPFP dispatches",
    );
}

/// Two parents share one root CPFP and a CPFP-of-CPFP boost sits on top, then an opponent replaces
/// parent1 (double-spends its input) so parent1 settles Failed and its speedup output never exists. The
/// whole chain depends on that dead output; recovery must build a fresh CPFP for the surviving parent.
#[test]
fn test_cpfp_chain_survivor_after_parent_replaced() {
    let mut w = World::with(rebuild_settings(5), 2);

    let funding = w.node.funding_utxo(1_000_000);
    let (p1, sd1) = w.node.parent_tx(200_000);
    let (p2, sd2) = w.node.parent_tx(200_000);
    let p1_txid = p1.compute_txid();
    let p2_txid = p2.compute_txid();
    let opponent = w.node.conflict(&p1, 100_000);

    w.tick_until_ready();
    w.coordinator.add_funding(funding);
    w.dispatch_with_speedup(p1, sd1, ctx("dead"));
    w.dispatch_with_speedup(p2, sd2, ctx("live"));

    // Build + dispatch the root CPFP over both parents to InMempool.
    let root_cpfp = w.build_and_dispatch_cpfp(5);

    // Age it one block, then let boost_if_stale add a CPFP-of-CPFP boost on top (slots free -> CPFP, not RBF).
    w.node.mine_empty(1);
    let mut boost_txid = None;
    for _ in 0..8 {
        w.tick();
        w.ack_everything();
        for s in w.speedups() {
            if s.txid != root_cpfp && s.state == TransactionState::InMempool {
                boost_txid = Some(s.txid);
            }
        }
        if boost_txid.is_some() {
            break;
        }
    }
    let boost_txid =
        boost_txid.expect("a CPFP-of-CPFP boost must be built and dispatched on top of the root");

    // Opponent replaces parent1 by double-spending its input.
    w.node.mine_with(&opponent);

    let survivor_cpfp = drive_dead_parent_recovery(&mut w, root_cpfp, p1_txid, p2_txid);

    assert_ne!(survivor_cpfp, root_cpfp, "survivor must be a brand-new CPFP");
    assert_ne!(survivor_cpfp, boost_txid, "survivor must be a brand-new CPFP, not the old boost");
    let parents = w.record(survivor_cpfp).speedup_kind().unwrap().parents();
    assert!(
        parents.contains(&p2_txid) && !parents.contains(&p1_txid),
        "survivor CPFP must cover only parent2; got {:?}",
        parents
    );
}

/// An opponent replaces the parent by double-spending its input, so the parent settles Failed and its
/// speedup output never exists; the root CPFP and its RBF can never be sent again. A fresh CPFP for the
/// surviving parent must be built.
#[test]
fn test_rbf_of_root_survivor_after_parent_replaced() {
    let mut settings = rebuild_settings(1);
    settings.fee = fee_settings(10, 1000, 1.0);
    settings.speedup.bump_fee_percentage = multiplier(2.0);
    let mut w = World::with(settings, 2);

    let funding = w.node.funding_utxo(1_000_000);
    let (p1, sd1) = w.node.parent_tx_with_fee(200_000, 500);
    let (p2, sd2) = w.node.parent_tx_with_fee(200_000, 500);
    let p1_txid = p1.compute_txid();
    let p2_txid = p2.compute_txid();
    let opponent = w.node.conflict(&p1, 500);

    w.tick_until_ready();
    w.coordinator.add_funding(funding);
    w.dispatch_with_speedup(p1, sd1, ctx("dead"));
    w.dispatch_with_speedup(p2, sd2, ctx("live"));

    let root_cpfp = w.build_and_dispatch_cpfp(5);

    w.node.mine_empty(1);
    let mut rbf_txid = None;
    for _ in 0..8 {
        w.tick();
        w.ack_everything();
        for s in w.speedups() {
            if s.txid != root_cpfp
                && s.state == TransactionState::InMempool
                && s.speedup_kind().unwrap().is_rbf()
            {
                rbf_txid = Some(s.txid);
            }
        }
        if rbf_txid.is_some() {
            break;
        }
    }
    let rbf_txid = rbf_txid.expect("an RBF-of-root must replace the root and reach InMempool");

    // The opponent replaces the parent by double-spending its input; the parent settles Failed.
    w.node.mine_with(&opponent);

    let survivor_cpfp = drive_dead_parent_recovery(&mut w, root_cpfp, p1_txid, p2_txid);

    assert!(
        matches!(w.state(rbf_txid), None | Some(TransactionState::Failed)),
        "the RBF-of-root must be Failed or evicted; got {:?}",
        w.state(rbf_txid)
    );
    assert_ne!(survivor_cpfp, root_cpfp);
    let parents = w.record(survivor_cpfp).speedup_kind().unwrap().parents();
    assert!(
        parents.contains(&p2_txid) && !parents.contains(&p1_txid),
        "survivor CPFP must cover only parent2; got {:?}",
        parents
    );
}

/// A parent that is only transiently absent must keep its acceleration and must not drag the healthy ones.
/// Batch of three parents p1, p2, p3 under one root CPFP. p1 is killed permanently. p2 is evicted a couple
/// blocks later, so when p1's guard window elapses and the root fails, p2 is absent-but-not-yet-Failed (its
/// own window still open). A fresh CPFP over the live p3 is built, and p2 stays pending. When p2's
/// disappearance is then reverted by a reorg, p2 comes back and gets its own CPFP on a later pass.
#[test]
fn test_batch_transiently_missing_parent_kept_then_recovered() {
    // Guard window of 3 blocks gives slack to place p2's window a couple blocks behind p1's.
    let mut w = World::with(rebuild_settings(5), 3);

    let funding = w.node.funding_utxo(1_000_000);
    let (p1, sd1) = w.node.parent_tx(200_000);
    let (p2, sd2) = w.node.parent_tx(200_000);
    let (p3, sd3) = w.node.parent_tx(200_000);
    let p1_txid = p1.compute_txid();
    let p2_txid = p2.compute_txid();
    let p3_txid = p3.compute_txid();
    let opponent1 = w.node.conflict(&p1, 100_000);
    let opponent2 = w.node.conflict(&p2, 1_000);

    w.tick_until_ready();
    w.coordinator.add_funding(funding);
    w.dispatch_with_speedup(p1, sd1, ctx("dead"));
    w.dispatch_with_speedup(p2, sd2, ctx("flap"));
    w.dispatch_with_speedup(p3, sd3, ctx("live"));

    // One root CPFP over all three parents.
    let root_cpfp = w.build_and_dispatch_cpfp(5);
    let root_parents = w.record(root_cpfp).speedup_kind().unwrap().parents();
    assert!(
        root_parents.contains(&p1_txid)
            && root_parents.contains(&p2_txid)
            && root_parents.contains(&p3_txid),
        "root CPFP must cover all three parents; got {:?}",
        root_parents
    );

    let max_confs = w.max_confirmations as usize;
    let sleep = w.coordinator.ctx.coordinator_config.retry_interval_seconds * 1000 + 300;

    // Kill p1 permanently in its own block, then let review see it not_found and arm its guard.
    w.node.mine_with(&opponent1);
    w.sleep_ms(sleep);
    w.tick();
    w.ack_everything();

    // Advance one block so p2's guard will start behind p1's.
    w.node.mine_empty(1);
    w.sleep_ms(sleep);
    w.tick();
    w.ack_everything();

    // Kill p2 in its own block (its guard now trails p1's). The conflict pays a low fee so that, once
    // this block is undone, the higher-fee p2 can replace the resurrected conflict and recover.
    let p2_kill_block = w.node.mine_with(&opponent2);
    w.sleep_ms(sleep);
    w.tick();
    w.ack_everything();

    // Drive until p1's window elapses: the root fails. p2 must still be inside its own (later) window, so
    // a fresh CPFP is built over the live p3 only, not p2.
    let mut p3_cpfp = None;
    for _ in 0..(max_confs + 4) * 3 {
        w.sleep_ms(sleep);
        w.tick();
        w.ack_everything();

        if w.state(root_cpfp) == Some(TransactionState::Failed) {
            assert!(
                w.state(p2_txid) != Some(TransactionState::Failed),
                "p2 must NOT be Failed at the rebuild moment (its own window has not elapsed); got {:?}",
                w.state(p2_txid)
            );
            for s in w.speedups() {
                if s.txid == root_cpfp {
                    continue;
                }
                let ps = s.speedup_kind().unwrap().parents();
                if ps.contains(&p3_txid) {
                    assert!(
                        !ps.contains(&p1_txid) && !ps.contains(&p2_txid),
                        "fresh CPFP must cover only live p3 (p1 dead, p2 transiently absent); got {:?}",
                        ps
                    );
                    p3_cpfp = Some(s.txid);
                }
            }
            if p3_cpfp.is_some() {
                break;
            }
        }
        w.node.mine_empty(1);
    }
    let p3_cpfp = p3_cpfp.expect("root must fail on dead p1 and rebuild a fresh CPFP over live p3");
    assert_ne!(p3_cpfp, root_cpfp);

    // No live speedup may cover p2 yet: it is still transiently absent.
    let p2_covered = w.speedups().iter().any(|s| {
        s.txid != root_cpfp
            && s.state != TransactionState::Failed
            && s.speedup_kind().unwrap().parents().contains(&p2_txid)
    });
    assert!(!p2_covered, "no live speedup should cover p2 while it is transiently absent");

    // Broadcast the fresh p3 CPFP so no ToDispatch speedup blocks a later p2 CPFP.
    assert!(
        w.tick_until_state(p3_cpfp, TransactionState::InMempool, 6),
        "the fresh CPFP over p3 must reach the mempool"
    );
    w.ack_everything();

    // Revert p2's disappearance: undo its kill block. p1's kill block is older and survives, so p1
    // stays dead, but p2's input is free again.
    w.node.invalidate(p2_kill_block);

    // p2 must come back (re-dispatched and accepted) and then get its OWN CPFP on a later pass.
    let mut p2_cpfp = None;
    for _ in 0..(max_confs + 4) * 3 {
        w.sleep_ms(sleep);
        w.tick();
        w.ack_everything();
        for s in w.speedups() {
            if s.txid == root_cpfp || s.state == TransactionState::Failed {
                continue;
            }
            if s.speedup_kind().unwrap().parents().contains(&p2_txid) {
                p2_cpfp = Some(s.txid);
            }
        }
        if p2_cpfp.is_some() {
            break;
        }
        w.node.mine_empty(1);
    }
    let p2_cpfp =
        p2_cpfp.expect("once p2 reappears after the reorg revert, it must get its own CPFP");
    let p2_cpfp_parents = w.record(p2_cpfp).speedup_kind().unwrap().parents();
    assert!(
        p2_cpfp_parents.contains(&p2_txid) && !p2_cpfp_parents.contains(&p1_txid),
        "the recovered CPFP must cover p2 and never the permanently-dead p1; got {:?}",
        p2_cpfp_parents
    );

    // p1 stayed permanently dead throughout.
    assert_eq!(
        w.state(p1_txid),
        Some(TransactionState::Failed),
        "p1 must remain Failed after the reorg revert"
    );
}
