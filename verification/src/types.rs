use crate::primitives::{BlockHeight, Multiplier, PublicKey, Transaction, TransactionView, Txid};
use vstd::prelude::*;

verus! {

/// Lifecycle state of a transaction tracked by the coordinator.
#[derive(Clone, Copy, Debug, PartialEq, Eq, Structural)]
pub enum TransactionState {
    ToDispatch,
    InMempool,
    Confirmed,
    Finalized,
    Failed,
}

/// An unspent transaction output that the coordinator can sign for.
#[derive(Clone, Copy, Debug, PartialEq, Eq)]
pub struct Utxo {
    pub txid: Txid,
    pub vout: u32,
    pub amount: u64,
    pub pub_key: PublicKey,
}

impl Utxo {
    pub fn new(txid: Txid, vout: u32, amount: u64, pub_key: &PublicKey) -> (r: Utxo)
        ensures
            r == (Utxo { txid, vout, amount, pub_key: *pub_key }),
    {
        Utxo { txid, vout, amount, pub_key: *pub_key }
    }
}

/// What is needed to spend the output of a parent that a CPFP accelerates. `signing_ref` stands for
/// the signing details, which the coordinator carries along and never reads.
#[derive(Clone, Copy, Debug, PartialEq, Eq)]
pub struct SpeedupData {
    pub utxo: Option<Utxo>,
    pub partial_utxo: Option<(Txid, u32, u64)>,
    pub signing_ref: u64,
}

impl SpeedupData {
    /// Speedup data for a complete UTXO.
    pub fn new(utxo: Utxo) -> (r: SpeedupData)
        ensures
            r == (SpeedupData { utxo: Some(utxo), partial_utxo: None, signing_ref: 0 }),
    {
        SpeedupData { utxo: Some(utxo), partial_utxo: None, signing_ref: 0 }
    }
}

/// Fee paid by a transaction. `fee_rate` is the rate of the transaction alone and `package_fee_rate`
/// that of the transaction together with the parents it pays for, both in sat/vB.
#[derive(Clone, Copy, Debug, PartialEq, Eq, Structural)]
pub struct FeeInfo {
    pub fee: u64,
    pub fee_rate: u64,
    pub package_fee_rate: u64,
    pub weight: u64,
}

/// One parent covered by a speedup: its signing data, the amount of the output that the speedup
/// spends and its virtual size.
#[derive(Clone, Copy, Debug, PartialEq, Eq)]
pub struct ParentData {
    pub data: SpeedupData,
    pub amount: u64,
    pub vsize: u64,
}

/// A user-provided funding UTXO.
#[derive(Clone, Copy, Debug, PartialEq, Eq)]
pub struct FundingData {
    pub utxo: Utxo,
    pub spent: bool,
}

/// An entry of the funding queue: the record of a transaction, or, when that record stands for another
/// output of the same transaction, a funding UTXO of its own.
#[derive(Clone, Copy, Debug, PartialEq, Eq)]
pub enum FundingEntry {
    Record(Txid),
    Sibling(FundingData),
}

/// Shared context stored in every speedup transaction, CPFP or RBF.
#[derive(Debug)]
pub struct SpeedupContext {
    /// UTXOs that funded this transaction (one normally, two when a second one is combined).
    pub funding_inputs: Vec<Utxo>,
    /// Set when this transaction has been superseded by an RBF replacement.
    pub replaced_by: Option<Txid>,
    /// Fee multiplier used; escalated for each subsequent boost.
    pub bump_fee_used: Multiplier,
    /// One entry for each parent included.
    pub parent_data: Vec<ParentData>,
    /// True when the change output has been consumed by a newer speedup as its funding input.
    pub spent: bool,
}

#[derive(Debug)]
pub enum SpeedupKind {
    CPFP {
        parents: Vec<Txid>,
        context: SpeedupContext,
    },
    RBF {
        replaces: Txid,
        /// Funding inputs claimed by this RBF beyond those of the transaction it replaces.
        new_funding_inputs: Vec<Utxo>,
        context: SpeedupContext,
    },
}

#[derive(Debug)]
pub enum TxKind {
    Normal,
    /// Parent transaction awaiting CPFP creation.
    NeedsSpeedup(SpeedupData),
    Speedup(SpeedupKind),
    /// User-provided funding UTXO tracked as a coordinator transaction.
    Funding(FundingData),
}

/// The coordinator's record of one transaction.
#[derive(Debug)]
pub struct CoordinatedTx {
    pub txid: Txid,
    pub tx: Transaction,
    pub kind: TxKind,
    pub state: TransactionState,
    /// Earliest block at which to dispatch.
    pub target_block_height: BlockHeight,
    /// Emit confirmation news at this confirmation count; `None` disables it.
    pub confirmation_trigger: Option<u32>,
    /// Emit stuck-in-mempool news after this many blocks; `None` disables it.
    pub stuck_in_mempool_blocks: Option<u32>,
    /// Block at which the transaction reached `Finalized` or `Failed`.
    pub settled_block_height: Option<BlockHeight>,
    /// Block at which the transaction was broadcast.
    pub broadcast_block_height: Option<BlockHeight>,
    /// Height below which an "input consumed" verdict is deferred, because a reorg may still undo it.
    pub fail_guard_until: Option<BlockHeight>,
    pub retry_count: u32,
    pub fee_info: FeeInfo,
    pub context: String,
}

/// Events that the coordinator reports to its client.
#[derive(Debug, PartialEq)]
pub enum CoordinatorNews {
    TxNotFound { txid: Txid },
    InvalidStateTransition { txid: Txid, from: TransactionState, to: TransactionState },
    EstimateFeerateTooHigh { estimated_fee_rate: u64, max_fee_rate: u64 },
    InvalidFundingUtxo { amount: u64, min_required: u64 },
    /// No funding UTXO is available.
    FundingNotAvailable,
    /// Transaction has been in the mempool longer than its `stuck_in_mempool_blocks`.
    TransactionStuckInMempool { txid: Txid, context: String },
    /// Transaction could not be dispatched.
    DispatchError { txid: Txid, context: String },
    /// Transaction has been evicted from storage.
    TransactionEvicted { txid: Txid, context: String },
    /// The funding cannot cover a speedup fee.
    InsufficientFunds { available: u64, required: u64 },
    /// A speedup transaction could not be dispatched.
    SpeedupDispatchError { txid: Txid, context: String },
    /// A speedup was saved at the fee rate cap; it will not be boosted further.
    MaxFeeRateReached { txid: Txid, effective_fee_rate: u64, context: String },
    /// A cancel request was refused.
    InvalidCancel { txid: Txid, reason: String },
}

/// One item of the chain monitor's news: the context when the item is about a transaction, and the
/// number under which the caller finds the item again.
#[derive(Debug)]
pub struct MonitorNews {
    pub transaction_context: Option<String>,
    pub index: u64,
}

/// What the chain monitor says of a transaction.
#[derive(Clone, Copy, Debug, PartialEq, Eq, Structural)]
pub struct TxStatus {
    pub in_mempool: bool,
    /// Neither in the mempool nor on chain.
    pub not_found: bool,
    /// On chain with the maximal number of confirmations that is monitored.
    pub finalized: bool,
    pub confirmed: bool,
    /// Its block was orphaned.
    pub orphan: bool,
}

#[verifier::ext_equal]
pub struct MonitorNewsView {
    pub transaction_context: Option<Seq<char>>,
    pub index: u64,
}

impl View for MonitorNews {
    type V = MonitorNewsView;

    open spec fn view(&self) -> MonitorNewsView {
        MonitorNewsView {
            transaction_context: match self.transaction_context {
                Some(context) => Some(context@),
                None => None,
            },
            index: self.index,
        }
    }
}

/// What the coordinator asks of the chain monitor.
#[derive(Debug)]
pub enum MonitorRequest {
    /// Follow these transactions.
    Watch {
        txids: Vec<Txid>,
        context: String,
        confirmation_trigger: Option<u32>,
        search_in_mempool: bool,
    },
    /// Stop following these transactions.
    Cancel { txids: Vec<Txid>, context: String, confirmation_trigger: Option<u32> },
}

#[verifier::ext_equal]
pub enum MonitorRequestView {
    Watch {
        txids: Seq<Txid>,
        context: Seq<char>,
        confirmation_trigger: Option<u32>,
        search_in_mempool: bool,
    },
    Cancel { txids: Seq<Txid>, context: Seq<char>, confirmation_trigger: Option<u32> },
}

impl View for MonitorRequest {
    type V = MonitorRequestView;

    open spec fn view(&self) -> MonitorRequestView {
        match *self {
            MonitorRequest::Watch { txids, context, confirmation_trigger, search_in_mempool } => {
                MonitorRequestView::Watch {
                    txids: txids@,
                    context: context@,
                    confirmation_trigger,
                    search_in_mempool,
                }
            },
            MonitorRequest::Cancel { txids, context, confirmation_trigger } => {
                MonitorRequestView::Cancel { txids: txids@, context: context@, confirmation_trigger }
            },
        }
    }
}

/// All the news for the client.
#[derive(Debug)]
pub struct News {
    pub monitor_news: Vec<MonitorNews>,
    pub coordinator_news: Vec<CoordinatorNews>,
}

/// A news item to acknowledge: a monitor item by its number, or a coordinator item.
#[derive(Debug)]
pub enum AckNews {
    Monitor(u64),
    Coordinator(CoordinatorNews),
}

#[verifier::ext_equal]
pub struct SpeedupContextView {
    pub funding_inputs: Seq<Utxo>,
    pub replaced_by: Option<Txid>,
    pub bump_fee_used: Multiplier,
    pub parent_data: Seq<ParentData>,
    pub spent: bool,
}

#[verifier::ext_equal]
pub enum SpeedupKindView {
    CPFP { parents: Seq<Txid>, context: SpeedupContextView },
    RBF { replaces: Txid, new_funding_inputs: Seq<Utxo>, context: SpeedupContextView },
}

#[verifier::ext_equal]
pub enum TxKindView {
    Normal,
    NeedsSpeedup(SpeedupData),
    Speedup(SpeedupKindView),
    Funding(FundingData),
}

#[verifier::ext_equal]
pub struct CoordinatedTxView {
    pub txid: Txid,
    pub tx: TransactionView,
    pub kind: TxKindView,
    pub state: TransactionState,
    pub target_block_height: BlockHeight,
    pub confirmation_trigger: Option<u32>,
    pub stuck_in_mempool_blocks: Option<u32>,
    pub settled_block_height: Option<BlockHeight>,
    pub broadcast_block_height: Option<BlockHeight>,
    pub fail_guard_until: Option<BlockHeight>,
    pub retry_count: u32,
    pub fee_info: FeeInfo,
    pub context: Seq<char>,
}

#[verifier::ext_equal]
pub enum CoordinatorNewsView {
    TxNotFound { txid: Txid },
    InvalidStateTransition { txid: Txid, from: TransactionState, to: TransactionState },
    EstimateFeerateTooHigh { estimated_fee_rate: u64, max_fee_rate: u64 },
    InvalidFundingUtxo { amount: u64, min_required: u64 },
    FundingNotAvailable,
    TransactionStuckInMempool { txid: Txid, context: Seq<char> },
    DispatchError { txid: Txid, context: Seq<char> },
    TransactionEvicted { txid: Txid, context: Seq<char> },
    InsufficientFunds { available: u64, required: u64 },
    SpeedupDispatchError { txid: Txid, context: Seq<char> },
    MaxFeeRateReached { txid: Txid, effective_fee_rate: u64, context: Seq<char> },
    InvalidCancel { txid: Txid, reason: Seq<char> },
}

impl View for SpeedupContext {
    type V = SpeedupContextView;

    open spec fn view(&self) -> SpeedupContextView {
        SpeedupContextView {
            funding_inputs: self.funding_inputs@,
            replaced_by: self.replaced_by,
            bump_fee_used: self.bump_fee_used,
            parent_data: self.parent_data@,
            spent: self.spent,
        }
    }
}

impl View for SpeedupKind {
    type V = SpeedupKindView;

    open spec fn view(&self) -> SpeedupKindView {
        match *self {
            SpeedupKind::CPFP { parents, context } => SpeedupKindView::CPFP {
                parents: parents@,
                context: context@,
            },
            SpeedupKind::RBF { replaces, new_funding_inputs, context } => SpeedupKindView::RBF {
                replaces,
                new_funding_inputs: new_funding_inputs@,
                context: context@,
            },
        }
    }
}

impl View for TxKind {
    type V = TxKindView;

    open spec fn view(&self) -> TxKindView {
        match *self {
            TxKind::Normal => TxKindView::Normal,
            TxKind::NeedsSpeedup(data) => TxKindView::NeedsSpeedup(data),
            TxKind::Speedup(kind) => TxKindView::Speedup(kind@),
            TxKind::Funding(data) => TxKindView::Funding(data),
        }
    }
}

impl View for CoordinatedTx {
    type V = CoordinatedTxView;

    open spec fn view(&self) -> CoordinatedTxView {
        CoordinatedTxView {
            txid: self.txid,
            tx: self.tx@,
            kind: self.kind@,
            state: self.state,
            target_block_height: self.target_block_height,
            confirmation_trigger: self.confirmation_trigger,
            stuck_in_mempool_blocks: self.stuck_in_mempool_blocks,
            settled_block_height: self.settled_block_height,
            broadcast_block_height: self.broadcast_block_height,
            fail_guard_until: self.fail_guard_until,
            retry_count: self.retry_count,
            fee_info: self.fee_info,
            context: self.context@,
        }
    }
}

impl View for CoordinatorNews {
    type V = CoordinatorNewsView;

    open spec fn view(&self) -> CoordinatorNewsView {
        match *self {
            CoordinatorNews::TxNotFound { txid } => CoordinatorNewsView::TxNotFound { txid },
            CoordinatorNews::InvalidStateTransition { txid, from, to } => {
                CoordinatorNewsView::InvalidStateTransition { txid, from, to }
            },
            CoordinatorNews::EstimateFeerateTooHigh { estimated_fee_rate, max_fee_rate } => {
                CoordinatorNewsView::EstimateFeerateTooHigh { estimated_fee_rate, max_fee_rate }
            },
            CoordinatorNews::InvalidFundingUtxo { amount, min_required } => {
                CoordinatorNewsView::InvalidFundingUtxo { amount, min_required }
            },
            CoordinatorNews::FundingNotAvailable => CoordinatorNewsView::FundingNotAvailable,
            CoordinatorNews::TransactionStuckInMempool { txid, context } => {
                CoordinatorNewsView::TransactionStuckInMempool { txid, context: context@ }
            },
            CoordinatorNews::DispatchError { txid, context } => {
                CoordinatorNewsView::DispatchError { txid, context: context@ }
            },
            CoordinatorNews::TransactionEvicted { txid, context } => {
                CoordinatorNewsView::TransactionEvicted { txid, context: context@ }
            },
            CoordinatorNews::InsufficientFunds { available, required } => {
                CoordinatorNewsView::InsufficientFunds { available, required }
            },
            CoordinatorNews::SpeedupDispatchError { txid, context } => {
                CoordinatorNewsView::SpeedupDispatchError { txid, context: context@ }
            },
            CoordinatorNews::MaxFeeRateReached { txid, effective_fee_rate, context } => {
                CoordinatorNewsView::MaxFeeRateReached { txid, effective_fee_rate, context: context@ }
            },
            CoordinatorNews::InvalidCancel { txid, reason } => {
                CoordinatorNewsView::InvalidCancel { txid, reason: reason@ }
            },
        }
    }
}

impl Clone for SpeedupContext {
    fn clone(&self) -> (r: Self)
        ensures
            r@ == self@,
    {
        let r = SpeedupContext {
            funding_inputs: self.funding_inputs.clone(),
            replaced_by: self.replaced_by,
            bump_fee_used: self.bump_fee_used,
            parent_data: self.parent_data.clone(),
            spent: self.spent,
        };
        assert(r.funding_inputs@ =~= self.funding_inputs@);
        assert(r.parent_data@ =~= self.parent_data@);
        r
    }
}

impl Clone for SpeedupKind {
    fn clone(&self) -> (r: Self)
        ensures
            r@ == self@,
    {
        match self {
            SpeedupKind::CPFP { parents, context } => {
                let copied = parents.clone();
                assert(copied@ =~= parents@);
                SpeedupKind::CPFP { parents: copied, context: context.clone() }
            },
            SpeedupKind::RBF { replaces, new_funding_inputs, context } => {
                let copied = new_funding_inputs.clone();
                assert(copied@ =~= new_funding_inputs@);
                SpeedupKind::RBF {
                    replaces: *replaces,
                    new_funding_inputs: copied,
                    context: context.clone(),
                }
            },
        }
    }
}

impl Clone for TxKind {
    fn clone(&self) -> (r: Self)
        ensures
            r@ == self@,
    {
        match self {
            TxKind::Normal => TxKind::Normal,
            TxKind::NeedsSpeedup(data) => TxKind::NeedsSpeedup(*data),
            TxKind::Speedup(kind) => TxKind::Speedup(kind.clone()),
            TxKind::Funding(data) => TxKind::Funding(*data),
        }
    }
}

impl Clone for CoordinatedTx {
    fn clone(&self) -> (r: Self)
        ensures
            r@ == self@,
    {
        CoordinatedTx {
            txid: self.txid,
            tx: self.tx.clone(),
            kind: self.kind.clone(),
            state: self.state,
            target_block_height: self.target_block_height,
            confirmation_trigger: self.confirmation_trigger,
            stuck_in_mempool_blocks: self.stuck_in_mempool_blocks,
            settled_block_height: self.settled_block_height,
            broadcast_block_height: self.broadcast_block_height,
            fail_guard_until: self.fail_guard_until,
            retry_count: self.retry_count,
            fee_info: self.fee_info,
            context: self.context.clone(),
        }
    }
}

/// Records are compared by txid, which identifies a transaction.
impl PartialEq for CoordinatedTx {
    fn eq(&self, other: &Self) -> (r: bool) {
        self.txid == other.txid
    }
}

impl vstd::std_specs::cmp::PartialEqSpecImpl for CoordinatedTx {
    open spec fn obeys_eq_spec() -> bool {
        true
    }

    open spec fn eq_spec(&self, other: &Self) -> bool {
        self.txid == other.txid
    }
}

impl Clone for CoordinatorNews {
    fn clone(&self) -> (r: Self)
        ensures
            r@ == self@,
    {
        match self {
            CoordinatorNews::FundingNotAvailable => CoordinatorNews::FundingNotAvailable,
            CoordinatorNews::TxNotFound { txid } => {
                CoordinatorNews::TxNotFound { txid: *txid }
            },
            CoordinatorNews::InvalidStateTransition { txid, from, to } => {
                CoordinatorNews::InvalidStateTransition { txid: *txid, from: *from, to: *to }
            },
            CoordinatorNews::EstimateFeerateTooHigh { estimated_fee_rate, max_fee_rate } => {
                CoordinatorNews::EstimateFeerateTooHigh { estimated_fee_rate: *estimated_fee_rate, max_fee_rate: *max_fee_rate }
            },
            CoordinatorNews::InvalidFundingUtxo { amount, min_required } => {
                CoordinatorNews::InvalidFundingUtxo { amount: *amount, min_required: *min_required }
            },
            CoordinatorNews::TransactionStuckInMempool { txid, context } => {
                CoordinatorNews::TransactionStuckInMempool { txid: *txid, context: context.clone() }
            },
            CoordinatorNews::DispatchError { txid, context } => {
                CoordinatorNews::DispatchError { txid: *txid, context: context.clone() }
            },
            CoordinatorNews::TransactionEvicted { txid, context } => {
                CoordinatorNews::TransactionEvicted { txid: *txid, context: context.clone() }
            },
            CoordinatorNews::InsufficientFunds { available, required } => {
                CoordinatorNews::InsufficientFunds { available: *available, required: *required }
            },
            CoordinatorNews::SpeedupDispatchError { txid, context } => {
                CoordinatorNews::SpeedupDispatchError { txid: *txid, context: context.clone() }
            },
            CoordinatorNews::MaxFeeRateReached { txid, effective_fee_rate, context } => {
                CoordinatorNews::MaxFeeRateReached { txid: *txid, effective_fee_rate: *effective_fee_rate, context: context.clone() }
            },
            CoordinatorNews::InvalidCancel { txid, reason } => {
                CoordinatorNews::InvalidCancel { txid: *txid, reason: reason.clone() }
            },
        }
    }
}

impl CoordinatorNews {
    /// True when both items have the same value.
    pub fn same(&self, other: &CoordinatorNews) -> (r: bool)
        ensures
            r == (self@ == other@),
    {
        match (self, other) {
            (CoordinatorNews::FundingNotAvailable, CoordinatorNews::FundingNotAvailable) => true,
            (
                CoordinatorNews::TxNotFound { txid: t0a },
                CoordinatorNews::TxNotFound { txid: t0b },
            ) => *t0a == *t0b,
            (
                CoordinatorNews::InvalidStateTransition { txid: t0a, from: f1a, to: t2a },
                CoordinatorNews::InvalidStateTransition { txid: t0b, from: f1b, to: t2b },
            ) => *t0a == *t0b && *f1a == *f1b && *t2a == *t2b,
            (
                CoordinatorNews::EstimateFeerateTooHigh { estimated_fee_rate: e0a, max_fee_rate: m1a },
                CoordinatorNews::EstimateFeerateTooHigh { estimated_fee_rate: e0b, max_fee_rate: m1b },
            ) => *e0a == *e0b && *m1a == *m1b,
            (
                CoordinatorNews::InvalidFundingUtxo { amount: a0a, min_required: m1a },
                CoordinatorNews::InvalidFundingUtxo { amount: a0b, min_required: m1b },
            ) => *a0a == *a0b && *m1a == *m1b,
            (
                CoordinatorNews::TransactionStuckInMempool { txid: t0a, context: c1a },
                CoordinatorNews::TransactionStuckInMempool { txid: t0b, context: c1b },
            ) => *t0a == *t0b && *c1a == *c1b,
            (
                CoordinatorNews::DispatchError { txid: t0a, context: c1a },
                CoordinatorNews::DispatchError { txid: t0b, context: c1b },
            ) => *t0a == *t0b && *c1a == *c1b,
            (
                CoordinatorNews::TransactionEvicted { txid: t0a, context: c1a },
                CoordinatorNews::TransactionEvicted { txid: t0b, context: c1b },
            ) => *t0a == *t0b && *c1a == *c1b,
            (
                CoordinatorNews::InsufficientFunds { available: a0a, required: r1a },
                CoordinatorNews::InsufficientFunds { available: a0b, required: r1b },
            ) => *a0a == *a0b && *r1a == *r1b,
            (
                CoordinatorNews::SpeedupDispatchError { txid: t0a, context: c1a },
                CoordinatorNews::SpeedupDispatchError { txid: t0b, context: c1b },
            ) => *t0a == *t0b && *c1a == *c1b,
            (
                CoordinatorNews::MaxFeeRateReached { txid: t0a, effective_fee_rate: e1a, context: c2a },
                CoordinatorNews::MaxFeeRateReached { txid: t0b, effective_fee_rate: e1b, context: c2b },
            ) => *t0a == *t0b && *e1a == *e1b && *c2a == *c2b,
            (
                CoordinatorNews::InvalidCancel { txid: t0a, reason: r1a },
                CoordinatorNews::InvalidCancel { txid: t0b, reason: r1b },
            ) => *t0a == *t0b && *r1a == *r1b,
            _ => false,
        }
    }
}

} // verus!
