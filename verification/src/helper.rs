use crate::dispatcher::DispatchOutcome;
use crate::errors::BitcoinCoordinatorError;
use crate::lemmas::{lemma_find_first_prefix, lemma_find_first_step};
use crate::model::find_first;
use crate::primitives::{views, BlockHeight, TxOut, Txid};
use crate::text::{decimal, to_decimal};
use crate::types::{
    CoordinatedTx, CoordinatedTxView, News, SpeedupContext, SpeedupContextView, SpeedupKind,
    SpeedupKindView, TransactionState, TxKind, TxKindView, Utxo,
};
use vstd::prelude::*;
use vstd::string::*;

verus! {

impl SpeedupContext {
    /// True once an RBF replacement of this speedup has been dispatched.
    pub fn is_being_replaced(&self) -> (r: bool)
        ensures
            r == (self@.replaced_by is Some),
    {
        self.replaced_by.is_some()
    }
}

impl SpeedupKindView {
    pub open spec fn context(self) -> SpeedupContextView {
        match self {
            SpeedupKindView::CPFP { parents, context } => context,
            SpeedupKindView::RBF { replaces, new_funding_inputs, context } => context,
        }
    }

    pub open spec fn with_context(self, context: SpeedupContextView) -> SpeedupKindView {
        match self {
            SpeedupKindView::CPFP { parents, .. } => SpeedupKindView::CPFP { parents, context },
            SpeedupKindView::RBF { replaces, new_funding_inputs, .. } => SpeedupKindView::RBF {
                replaces,
                new_funding_inputs,
                context,
            },
        }
    }

    /// The parents that a CPFP covers; an RBF has none of its own.
    pub open spec fn parents(self) -> Seq<Txid> {
        match self {
            SpeedupKindView::CPFP { parents, .. } => parents,
            SpeedupKindView::RBF { .. } => Seq::empty(),
        }
    }
}

impl SpeedupKind {
    pub fn context(&self) -> (r: &SpeedupContext)
        ensures
            r@ == self@.context(),
    {
        match self {
            SpeedupKind::CPFP { context, .. } => context,
            SpeedupKind::RBF { context, .. } => context,
        }
    }

    pub fn context_mut(&mut self) -> (r: &mut SpeedupContext)
        ensures
            (*r)@ == old(self)@.context(),
            final(self)@ == old(self)@.with_context((*final(r))@),
    {
        match self {
            SpeedupKind::CPFP { context, .. } => context,
            SpeedupKind::RBF { context, .. } => context,
        }
    }

    pub fn is_rbf(&self) -> (r: bool)
        ensures
            r == (self@ is RBF),
    {
        match self {
            SpeedupKind::RBF { .. } => true,
            SpeedupKind::CPFP { .. } => false,
        }
    }

    /// The parents that a CPFP covers; empty for an RBF.
    pub fn parents(&self) -> (r: Vec<Txid>)
        ensures
            r@ == self@.parents(),
    {
        match self {
            SpeedupKind::CPFP { parents, .. } => {
                let copied = parents.clone();
                assert(copied@ =~= parents@);
                copied
            },
            SpeedupKind::RBF { .. } => Vec::new(),
        }
    }
}

impl TransactionState {
    /// The lifecycle steps: `ToDispatch`, `InMempool` and `Confirmed` may move to one another and to
    /// `Finalized`; the first two may also fail; the two terminal states are never left.
    pub open spec fn may_become(self, next: TransactionState) -> bool {
        match self {
            TransactionState::ToDispatch => true,
            TransactionState::InMempool => true,
            TransactionState::Confirmed => !(next is Failed),
            TransactionState::Finalized => next is Finalized,
            TransactionState::Failed => next is Failed,
        }
    }

    /// The two states that a transaction never leaves.
    pub open spec fn is_terminal(self) -> bool {
        self is Finalized || self is Failed
    }

    /// Returns `true` when moving from `self` to `next` is a valid lifecycle step.
    pub fn can_transition_to(&self, next: &TransactionState) -> (r: bool)
        ensures
            r == self.may_become(*next),
    {
        match (self, next) {
            // Forward flow, with or without the intermediate records.
            (TransactionState::ToDispatch, TransactionState::InMempool) => true,
            (TransactionState::InMempool, TransactionState::Confirmed) => true,
            (TransactionState::Confirmed, TransactionState::Finalized) => true,
            (TransactionState::ToDispatch, TransactionState::Confirmed) => true,
            (TransactionState::ToDispatch, TransactionState::Finalized) => true,
            (TransactionState::InMempool, TransactionState::Finalized) => true,
            // Requeue after the transaction was not found.
            (TransactionState::InMempool, TransactionState::ToDispatch) => true,
            (TransactionState::Confirmed, TransactionState::ToDispatch) => true,
            // Reorg: the confirming block was rolled back.
            (TransactionState::Confirmed, TransactionState::InMempool) => true,
            // Only a transaction that is not on chain can fail.
            (TransactionState::ToDispatch, TransactionState::Failed) => true,
            (TransactionState::InMempool, TransactionState::Failed) => true,
            // Idempotent steps.
            (a, b) => *a == *b,
        }
    }
}

impl TxKindView {
    /// The name of the kind.
    pub open spec fn label(self) -> Seq<char> {
        match self {
            TxKindView::Normal => "Normal"@,
            TxKindView::NeedsSpeedup(_) => "NeedsSpeedup"@,
            TxKindView::Speedup(_) => "Speedup"@,
            TxKindView::Funding(_) => "Funding"@,
        }
    }
}

impl TxKind {
    /// The name of the kind.
    pub fn label(&self) -> (r: &'static str)
        ensures
            r@ == self@.label(),
    {
        match self {
            TxKind::Normal => "Normal",
            TxKind::NeedsSpeedup(_) => "NeedsSpeedup",
            TxKind::Speedup(_) => "Speedup",
            TxKind::Funding(_) => "Funding",
        }
    }
}

impl CoordinatedTxView {
    pub open spec fn is_speedup(self) -> bool {
        self.kind is Speedup
    }

    pub open spec fn speedup(self) -> SpeedupKindView {
        self.kind->Speedup_0
    }

    /// True for a record of an RBF that replaces `id`.
    pub open spec fn is_rbf_of(self, id: Txid) -> bool {
        self.kind matches TxKindView::Speedup(SpeedupKindView::RBF { replaces, .. }) && replaces == id
    }

    /// Index of the last output.
    pub open spec fn last_vout(self) -> u32 {
        (self.tx.output.len() - 1) as u32
    }

    /// The change output of a speedup, which the next speedup can spend: the last output, under the
    /// key of the first funding input. `None` where there is no such output or key.
    pub open spec fn change_utxo(self) -> Option<Utxo> {
        if self.is_speedup() && self.tx.output.len() > 0
            && self.speedup().context().funding_inputs.len() > 0 {
            Some(
                Utxo {
                    txid: self.txid,
                    vout: self.last_vout(),
                    amount: self.tx.output.last().value,
                    pub_key: self.speedup().context().funding_inputs[0].pub_key,
                },
            )
        } else {
            None
        }
    }

    /// The output that a record offers as funding, and whether it is already claimed.
    pub open spec fn funding_info(self) -> Option<(Utxo, bool)> {
        match self.kind {
            TxKindView::Funding(data) => Some((data.utxo, data.spent)),
            TxKindView::Speedup(kind) => match self.change_utxo() {
                Some(utxo) => Some((utxo, kind.context().spent)),
                None => None,
            },
            _ => None,
        }
    }

    /// The message about a record that should be a speedup.
    pub open spec fn no_speedup_text(self) -> Seq<char> {
        "expected Speedup, got "@ + self.kind.label() + " for tx "@ + self.txid.text()
    }

    /// The message about a record that should be a speedup, to be changed.
    pub open spec fn no_speedup_to_change_text(self) -> Seq<char> {
        "expected Speedup (mut) for tx "@ + self.txid.text()
    }

    /// The message about a transaction without outputs.
    pub open spec fn no_output_text(self) -> Seq<char> {
        "tx "@ + self.txid.text() + " has no outputs"@
    }

    /// Why there is no change output to spend.
    pub open spec fn no_change_text(self) -> Seq<char> {
        if !self.is_speedup() {
            self.no_speedup_text()
        } else if self.tx.output.len() == 0 {
            self.no_output_text()
        } else {
            "tx "@ + self.txid.text() + " has no funding inputs"@
        }
    }

    /// Why the record offers no funding.
    pub open spec fn no_funding_text(self) -> Seq<char> {
        if self.is_speedup() {
            self.no_change_text()
        } else {
            "expected Funding or Speedup, got "@ + self.kind.label() + " for tx "@ + self.txid.text()
        }
    }

    /// The message about an outcome for another transaction.
    pub open spec fn wrong_txid_text(self, txid: Txid) -> Seq<char> {
        "expected txid "@ + txid.text() + ", got "@ + self.txid.text()
    }

    /// A speedup is being replaced when its replacement has been dispatched, or when a live RBF that
    /// replaces it is on record.
    pub open spec fn has_live_replacement(self, all: Seq<CoordinatedTxView>) -> bool {
        ||| self.is_speedup() && self.speedup().context().replaced_by is Some
        ||| exists|i: int|
            0 <= i < all.len() && !((#[trigger] all[i]).state is Failed) && all[i].is_rbf_of(
                self.txid,
            )
    }

    pub open spec fn is_ready_to_dispatch(self, height: BlockHeight) -> bool {
        height >= self.target_block_height
    }

    /// The transaction was broadcast at least as many blocks ago as its threshold says.
    pub open spec fn is_stuck_in_mempool(self, height: BlockHeight) -> bool {
        &&& self.stuck_in_mempool_blocks matches Some(threshold)
        &&& self.broadcast_block_height matches Some(broadcast)
        &&& blocks_since(broadcast, height) >= threshold
    }
}

/// Number of blocks from `past` to `height`; none when `past` is ahead.
pub open spec fn blocks_since(past: BlockHeight, height: BlockHeight) -> int {
    if height >= past {
        height - past
    } else {
        0
    }
}

impl CoordinatedTx {
    /// Returns the speedup data of this record, or `InvariantViolation` if it is not a speedup.
    pub fn speedup_kind(&self) -> (r: Result<&SpeedupKind, BitcoinCoordinatorError>)
        ensures
            match r {
                Ok(k) => self@.is_speedup() && k@ == self@.speedup(),
                Err(e) => !self@.is_speedup() && e.is_violation(self@.no_speedup_text()),
            },
    {
        match &self.kind {
            TxKind::Speedup(k) => Ok(k),
            _ => {
                let message = "expected Speedup, got ".to_string().concat(self.kind.label()).concat(
                    " for tx ",
                ).concat(self.txid.to_text().as_str());
                Err(BitcoinCoordinatorError::InvariantViolation(message))
            },
        }
    }

    /// Mutable variant of `speedup_kind`.
    pub fn speedup_kind_mut(&mut self) -> (r: Result<&mut SpeedupKind, BitcoinCoordinatorError>)
        ensures
            match r {
                Ok(k) => old(self)@.is_speedup() && (*k)@ == old(self)@.speedup() && final(self)@ == (
                CoordinatedTxView { kind: TxKindView::Speedup((*final(k))@), ..old(self)@ }),
                Err(e) => !old(self)@.is_speedup() && final(self)@ == old(self)@
                    && e.is_violation(old(self)@.no_speedup_to_change_text()),
            },
    {
        let txid = self.txid;
        match &mut self.kind {
            TxKind::Speedup(k) => Ok(k),
            _ => {
                let message = "expected Speedup (mut) for tx ".to_string().concat(
                    txid.to_text().as_str(),
                );
                Err(BitcoinCoordinatorError::InvariantViolation(message))
            },
        }
    }

    /// Returns the last output and its index, or `InvariantViolation` if there are no outputs.
    pub fn last_output(&self) -> (r: Result<(&TxOut, u32), BitcoinCoordinatorError>)
        ensures
            match r {
                Ok((out, vout)) => self@.tx.output.len() > 0 && out@ == self@.tx.output.last() && vout
                    == self@.last_vout(),
                Err(e) => self@.tx.output.len() == 0
                    && e.is_violation(self@.no_output_text()),
            },
    {
        let n: usize = self.tx.output.len();
        if n == 0 {
            let message = "tx ".to_string().concat(self.txid.to_text().as_str()).concat(
                " has no outputs",
            );
            Err(BitcoinCoordinatorError::InvariantViolation(message))
        } else {
            Ok((&self.tx.output[n - 1], (n - 1) as u32))
        }
    }

    /// The UTXO backed by this speedup's change output (its last output), under the key of its first
    /// funding input. `InvariantViolation` if there is no such output or key.
    pub fn speedup_change_utxo(&self) -> (r: Result<Utxo, BitcoinCoordinatorError>)
        ensures
            match r {
                Ok(utxo) => self@.change_utxo() == Some(utxo),
                Err(e) => self@.change_utxo() is None && e.is_violation(self@.no_change_text()),
            },
    {
        let kind = match self.speedup_kind() {
            Ok(k) => k,
            Err(e) => return Err(e),
        };
        let (out, vout) = match self.last_output() {
            Ok(o) => o,
            Err(e) => return Err(e),
        };
        let context = kind.context();
        if context.funding_inputs.len() == 0 {
            let message = "tx ".to_string().concat(self.txid.to_text().as_str()).concat(
                " has no funding inputs",
            );
            return Err(BitcoinCoordinatorError::InvariantViolation(message));
        }
        Ok(Utxo::new(self.txid, vout, out.value, &context.funding_inputs[0].pub_key))
    }

    /// The output that this record offers as funding, and whether it is already claimed.
    /// `InvariantViolation` if the record offers none.
    pub fn get_funding_info(&self) -> (r: Result<(Utxo, bool), BitcoinCoordinatorError>)
        ensures
            match r {
                Ok(info) => self@.funding_info() == Some(info),
                Err(e) => self@.funding_info() is None && e.is_violation(self@.no_funding_text()),
            },
    {
        match &self.kind {
            TxKind::Funding(data) => Ok((data.utxo, data.spent)),
            TxKind::Speedup(kind) => match self.speedup_change_utxo() {
                Ok(utxo) => Ok((utxo, kind.context().spent)),
                Err(e) => Err(e),
            },
            _ => {
                let message = "expected Funding or Speedup, got ".to_string().concat(
                    self.kind.label(),
                ).concat(" for tx ").concat(self.txid.to_text().as_str());
                Err(BitcoinCoordinatorError::InvariantViolation(message))
            },
        }
    }

    pub fn verify_tx_id(&self, txid: Txid) -> (r: Result<(), BitcoinCoordinatorError>)
        ensures
            match r {
                Ok(_) => self@.txid == txid,
                Err(e) => self@.txid != txid && e.is_violation(self@.wrong_txid_text(txid)),
            },
    {
        if self.txid != txid {
            let message = "expected txid ".to_string().concat(txid.to_text().as_str()).concat(
                ", got ",
            ).concat(self.txid.to_text().as_str());
            return Err(BitcoinCoordinatorError::InvariantViolation(message));
        }
        Ok(())
    }

    /// True when this record is an RBF that replaces `id`.
    pub fn is_rbf_of(&self, id: Txid) -> (r: bool)
        ensures
            r == self@.is_rbf_of(id),
    {
        match &self.kind {
            TxKind::Speedup(SpeedupKind::RBF { replaces, .. }) => *replaces == id,
            _ => false,
        }
    }

    /// True when this speedup is being replaced by an RBF: either the replacement was dispatched
    /// (`replaced_by`), or a live RBF record that replaces it exists.
    pub fn has_live_replacement(&self, all_speedups: &[CoordinatedTx]) -> (r: bool)
        ensures
            r == self@.has_live_replacement(views(all_speedups@)),
    {
        if let TxKind::Speedup(k) = &self.kind {
            if k.context().is_being_replaced() {
                return true;
            }
        }
        let ghost all = views(all_speedups@);
        for i in 0..all_speedups.len()
            invariant
                all == views(all_speedups@),
                forall|j: int|
                    0 <= j < i ==> ((#[trigger] all[j]).state is Failed || !all[j].is_rbf_of(
                        self.txid,
                    )),
        {
            if all_speedups[i].state != TransactionState::Failed && all_speedups[i].is_rbf_of(
                self.txid,
            ) {
                assert(!(all[i as int].state is Failed) && all[i as int].is_rbf_of(self.txid));
                return true;
            }
        }
        false
    }

    /// Returns `true` when the transaction is due to be dispatched at `current_height`.
    pub fn is_ready_to_dispatch(&self, current_height: BlockHeight) -> (r: bool)
        ensures
            r == self@.is_ready_to_dispatch(current_height),
    {
        current_height >= self.target_block_height
    }

    /// Returns `true` when the transaction has been waiting in the mempool for at least its
    /// `stuck_in_mempool_blocks`; `false` when the check is disabled or nothing was broadcast.
    pub fn is_stuck_in_mempool(&self, current_height: BlockHeight) -> (r: bool)
        ensures
            r == self@.is_stuck_in_mempool(current_height),
    {
        match (self.stuck_in_mempool_blocks, self.broadcast_block_height) {
            (Some(threshold), Some(broadcast)) => current_height.saturating_sub(broadcast) >= threshold,
            _ => false,
        }
    }
}

/// Checks that `results` contains exactly one entry, for `expected_txid`, and returns it.
pub fn verify_single_dispatch_result(
    expected_txid: Txid,
    results: Vec<(Txid, DispatchOutcome)>,
) -> (r: Result<(Txid, DispatchOutcome), BitcoinCoordinatorError>)
    ensures
        match r {
            Ok(entry) => results@ == seq![entry] && entry.0 == expected_txid,
            Err(e) => if results@.len() != 1 {
                e.is_violation(
                    "dispatch returned "@ + decimal(results@.len()) + " results for single tx "@
                        + expected_txid.text(),
                )
            } else {
                results@[0].0 != expected_txid && e.is_violation(
                    "dispatch returned txid "@ + results@[0].0.text() + " but expected "@
                        + expected_txid.text(),
                )
            },
        },
{
    let mut results = results;
    let n: usize = results.len();
    if n != 1 {
        let message = "dispatch returned ".to_string().concat(to_decimal(n as u64).as_str()).concat(
            " results for single tx ",
        ).concat(expected_txid.to_text().as_str());
        return Err(BitcoinCoordinatorError::InvariantViolation(message));
    }
    let ghost all = results@;
    let entry = results.swap_remove(0);
    if entry.0 != expected_txid {
        let message = "dispatch returned txid ".to_string().concat(entry.0.to_text().as_str()).concat(
            " but expected ",
        ).concat(expected_txid.to_text().as_str());
        return Err(BitcoinCoordinatorError::InvariantViolation(message));
    }
    assert(all =~= seq![entry]);
    Ok(entry)
}

/// Holds of the records of one transaction.
pub open spec fn has_txid(txid: Txid) -> spec_fn(CoordinatedTxView) -> bool {
    |tx: CoordinatedTxView| tx.txid == txid
}

/// The message about an outcome for a transaction that is not in the batch.
pub open spec fn not_in_batch_text(txid: Txid) -> Seq<char> {
    "dispatcher returned txid "@ + txid.text() + " not present in dispatch batch"@
}

/// Finds the first record with the given txid in a dispatch batch, or returns `InvariantViolation`.
pub fn find_tx_in_batch<'a>(txs: &'a [CoordinatedTx], txid: Txid) -> (r: Result<
    &'a CoordinatedTx,
    BitcoinCoordinatorError,
>)
    ensures
        match r {
            Ok(tx) => find_first(views(txs@), has_txid(txid)) == Some(tx@) && tx.txid == txid
                && txs@.contains(*tx),
            Err(e) => find_first(views(txs@), has_txid(txid)) is None && e.is_violation(
                not_in_batch_text(txid),
            ),
        },
{
    let ghost all = views(txs@);
    let ghost wanted = has_txid(txid);
    for i in 0..txs.len()
        invariant
            all == views(txs@),
            wanted == has_txid(txid),
            find_first(all.take(i as int), wanted) is None,
    {
        proof {
            lemma_find_first_step(all, wanted, i as int);
            assert(all[i as int] == txs@[i as int]@);
            if wanted(all[i as int]) {
                lemma_find_first_prefix(all, wanted, i + 1);
            }
        }
        if txs[i].txid == txid {
            return Ok(&txs[i]);
        }
    }
    assert(all.take(all.len() as int) =~= all);
    let message = "dispatcher returned txid ".to_string().concat(txid.to_text().as_str()).concat(
        " not present in dispatch batch",
    );
    Err(BitcoinCoordinatorError::InvariantViolation(message))
}

impl News {
    pub fn is_empty(&self) -> (r: bool)
        ensures
            r == (self.monitor_news@.len() == 0 && self.coordinator_news@.len() == 0),
    {
        self.monitor_news.is_empty() && self.coordinator_news.is_empty()
    }
}

/// `std::time::SystemTime::now` as seconds since the Unix epoch; `None` when the clock is set before
/// it. Nothing is claimed of the value: it depends on the machine's clock.
#[verifier::external_body]
fn unix_clock() -> Option<u64> {
    std::time::SystemTime::now().duration_since(std::time::UNIX_EPOCH).ok().map(|d| d.as_secs())
}

/// The time that a reading of the clock stands for: zero when the clock is set before the Unix epoch.
pub fn clock_secs(reading: Option<u64>) -> (secs: u64)
    ensures
        secs == match reading {
            Some(since_epoch) => since_epoch,
            None => 0,
        },
{
    match reading {
        Some(since_epoch) => since_epoch,
        None => 0,
    }
}

/// The current time in seconds since the Unix epoch, as `clock_secs` has it. What it returns depends on
/// the machine's clock, so no clause speaks of it.
pub fn now_secs() -> (secs: u64) {
    clock_secs(unix_clock())
}

} // verus!
